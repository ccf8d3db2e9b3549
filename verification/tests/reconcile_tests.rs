use media_sync::links::dto::CounterUpdate;
use media_sync::links::reconcile::{
    handle_dir_and_page, handle_downloaded_dir_without_page, handle_page_without_dir, reconcile, Reconciliation,
};

#[test]
fn no_directory_and_no_page_changes_nothing() {
    assert_eq!(reconcile(None, None), Reconciliation::Untouched);
}

#[test]
fn directory_without_page_counts_as_complete() {
    assert_eq!(
        reconcile(Some(3), None),
        Reconciliation::Update(CounterUpdate {
            mediafiles: 3,
            downloaded_mediafiles: 3,
            is_downloaded: true,
            progress: 100,
        })
    );
}

#[test]
fn directory_and_page_give_the_floored_share() {
    assert_eq!(
        reconcile(Some(2), Some(4)),
        Reconciliation::Update(CounterUpdate {
            mediafiles: 4,
            downloaded_mediafiles: 2,
            is_downloaded: false,
            progress: 50,
        })
    );
    assert_eq!(
        reconcile(Some(2), Some(3)),
        Reconciliation::Update(CounterUpdate {
            mediafiles: 3,
            downloaded_mediafiles: 2,
            is_downloaded: false,
            progress: 66,
        })
    );
    assert_eq!(
        reconcile(Some(4), Some(4)),
        Reconciliation::Update(CounterUpdate {
            mediafiles: 4,
            downloaded_mediafiles: 4,
            is_downloaded: true,
            progress: 100,
        })
    );
}

#[test]
fn page_without_directory_has_nothing_downloaded() {
    assert_eq!(
        reconcile(None, Some(5)),
        Reconciliation::Update(CounterUpdate {
            mediafiles: 5,
            downloaded_mediafiles: 0,
            is_downloaded: false,
            progress: 0,
        })
    );
}

#[test]
fn page_without_media_beside_a_directory_is_complete() {
    let expected = CounterUpdate { mediafiles: 0, downloaded_mediafiles: 3, is_downloaded: true, progress: 100 };
    assert_eq!(reconcile(Some(3), Some(0)), Reconciliation::Update(expected));
    assert_eq!(handle_dir_and_page(0, 3), Some(expected));
    assert_eq!(
        reconcile(Some(0), Some(0)),
        Reconciliation::Update(CounterUpdate {
            mediafiles: 0,
            downloaded_mediafiles: 0,
            is_downloaded: true,
            progress: 100,
        })
    );
}

#[test]
fn more_files_than_media_elements_pass_a_hundred() {
    assert_eq!(
        reconcile(Some(5), Some(4)),
        Reconciliation::Update(CounterUpdate {
            mediafiles: 4,
            downloaded_mediafiles: 5,
            is_downloaded: false,
            progress: 125,
        })
    );
}

#[test]
fn progress_beyond_a_counter_is_reported() {
    assert_eq!(reconcile(Some(usize::MAX), Some(1)), Reconciliation::Overflow);
    assert_eq!(handle_dir_and_page(1, usize::MAX), None);
}

#[test]
fn reconciliation_is_repeatable() {
    assert_eq!(reconcile(Some(2), Some(4)), reconcile(Some(2), Some(4)));
    assert_eq!(reconcile(Some(7), None), reconcile(Some(7), None));
}

#[test]
fn each_case_sets_its_counters() {
    assert_eq!(
        handle_downloaded_dir_without_page(0),
        CounterUpdate { mediafiles: 0, downloaded_mediafiles: 0, is_downloaded: true, progress: 100 }
    );
    assert_eq!(
        handle_page_without_dir(0),
        CounterUpdate { mediafiles: 0, downloaded_mediafiles: 0, is_downloaded: false, progress: 0 }
    );
    assert_eq!(
        handle_dir_and_page(8, 1),
        Some(CounterUpdate { mediafiles: 8, downloaded_mediafiles: 1, is_downloaded: false, progress: 12 })
    );
}
