use media_sync::progress::{calculate_progress, floor_progress};

#[test]
fn progress_rounds_half_up() {
    assert_eq!(calculate_progress(8, 1), 13);
    assert_eq!(calculate_progress(3, 1), 33);
    assert_eq!(calculate_progress(3, 2), 67);
    assert_eq!(calculate_progress(200, 1), 1);
    assert_eq!(calculate_progress(4, 4), 100);
    assert_eq!(calculate_progress(4, 0), 0);
}

#[test]
fn progress_of_an_empty_page_is_zero() {
    assert_eq!(calculate_progress(0, 0), 0);
}

#[test]
fn floored_progress_truncates() {
    assert_eq!(floor_progress(3, 2), Some(66));
    assert_eq!(floor_progress(4, 2), Some(50));
    assert_eq!(floor_progress(8, 1), Some(12));
    assert_eq!(floor_progress(1, usize::MAX), None);
}
