use media_sync::links::dto::{BooleanQuery, CounterUpdate, DownloadedFiles, IResult, Link, TagUnreachableParams};
use media_sync::mediafiles::dto::Mediafile;
use media_sync::utils::{
    error_response, require_directory, require_inventory, require_link, require_page, server_error_response,
    status_code, success_response, ErrorKind, SyncError,
};

#[test]
fn each_kind_has_its_status() {
    assert_eq!(status_code(ErrorKind::NotFound), 404);
    assert_eq!(status_code(ErrorKind::Unreachable), 404);
    assert_eq!(status_code(ErrorKind::InvalidInput), 400);
    assert_eq!(status_code(ErrorKind::IOFailure), 500);
    assert_eq!(status_code(ErrorKind::PersistenceFailure), 500);
}

#[test]
fn responses_carry_status_and_message() {
    assert_eq!(
        success_response("done".to_string()),
        (200, IResult { success: true, message: "done".to_string() })
    );
    assert_eq!(
        error_response("Link not found".to_string(), 404),
        (404, IResult { success: false, message: "Link not found".to_string() })
    );
    assert_eq!(
        server_error_response("broken".to_string()),
        (500, IResult { success: false, message: "broken".to_string() })
    );
    let error = SyncError { kind: ErrorKind::InvalidInput, message: "Path is not a valid URL".to_string() };
    assert_eq!(
        error.response(),
        (400, IResult { success: false, message: "Path is not a valid URL".to_string() })
    );
}

#[test]
fn missing_flags_mean_false() {
    assert!(!BooleanQuery { is_reachable: None, show_duplicate: None }.reachable());
    assert!(!BooleanQuery { is_reachable: None, show_duplicate: None }.duplicates());
    assert!(BooleanQuery { is_reachable: Some(true), show_duplicate: Some(false) }.reachable());
    assert!(!BooleanQuery { is_reachable: Some(true), show_duplicate: Some(false) }.duplicates());
    assert!(BooleanQuery { is_reachable: Some(false), show_duplicate: Some(true) }.duplicates());
    assert!(!TagUnreachableParams { id: 1, is_reachable: None }.reachable());
    assert!(!TagUnreachableParams { id: 1, is_reachable: Some(false) }.reachable());
    assert!(TagUnreachableParams { id: 1, is_reachable: Some(true) }.reachable());
}

#[test]
fn counters_of_a_download_pass() {
    assert_eq!(
        DownloadedFiles { downloaded: 2, total: 3 }.counters(),
        CounterUpdate { mediafiles: 3, downloaded_mediafiles: 2, is_downloaded: false, progress: 67 }
    );
    assert_eq!(
        DownloadedFiles { downloaded: 3, total: 3 }.counters(),
        CounterUpdate { mediafiles: 3, downloaded_mediafiles: 3, is_downloaded: true, progress: 100 }
    );
}

#[test]
fn progress_stays_a_percentage() {
    for total in 0..40usize {
        for downloaded in 0..=total {
            let update = DownloadedFiles { downloaded, total }.counters();
            assert!(update.progress <= 100);
        }
    }
}

#[test]
fn applying_an_update_sets_the_counters_only() {
    let mut link = Link {
        id: 4,
        path: "http://example.com/a".to_string(),
        name: "a".to_string(),
        is_downloaded: false,
        is_reachable: true,
        progress: 0,
        downloaded_mediafiles: 0,
        mediafiles: 0,
        date_update: None,
        date_create: "2024-01-01 00:00:00".to_string(),
        duplicate_id: None,
        duplicate_path: None,
    };
    let update = CounterUpdate { mediafiles: 4, downloaded_mediafiles: 2, is_downloaded: false, progress: 50 };
    link.apply(update, "2024-02-02 10:00:00".to_string());
    assert_eq!(link.mediafiles, 4);
    assert_eq!(link.downloaded_mediafiles, 2);
    assert!(!link.is_downloaded);
    assert_eq!(link.progress, 50);
    assert_eq!(link.date_update, Some("2024-02-02 10:00:00".to_string()));
    assert_eq!(link.id, 4);
    assert_eq!(link.name, "a");
    assert!(link.is_reachable);
    let once = link.clone();
    link.apply(update, "2024-02-02 10:00:00".to_string());
    assert_eq!(link, once);
}

#[test]
fn named_failures() {
    assert_eq!(
        SyncError::link_not_found(),
        SyncError { kind: ErrorKind::NotFound, message: "Link not found".to_string() }
    );
    assert_eq!(SyncError::link_not_found().response().0, 404);
    assert_eq!(
        SyncError::invalid_path(),
        SyncError { kind: ErrorKind::InvalidInput, message: "Path is not a valid URL".to_string() }
    );
    assert_eq!(
        SyncError::new(ErrorKind::Unreachable, "Failed to fetch page: refused".to_string()),
        SyncError { kind: ErrorKind::Unreachable, message: "Failed to fetch page: refused".to_string() }
    );
    assert_eq!(
        SyncError::new(ErrorKind::IOFailure, "disk".to_string()).response(),
        (500, IResult { success: false, message: "disk".to_string() })
    );
    assert_eq!(SyncError::new(ErrorKind::PersistenceFailure, "db".to_string()).response().0, 500);
}

fn link() -> Link {
    Link {
        id: 4,
        path: "http://example.com/a".to_string(),
        name: "a".to_string(),
        is_downloaded: false,
        is_reachable: true,
        progress: 0,
        downloaded_mediafiles: 0,
        mediafiles: 0,
        date_update: None,
        date_create: "2024-01-01 00:00:00".to_string(),
        duplicate_id: None,
        duplicate_path: None,
    }
}

#[test]
fn a_pass_needs_its_link() {
    assert_eq!(require_link(Ok(Some(link()))), Ok(link()));
    assert_eq!(require_link(Ok(None)), Err(SyncError::link_not_found()));
    assert_eq!(
        require_link(Err("database is locked".to_string())),
        Err(SyncError { kind: ErrorKind::PersistenceFailure, message: "database is locked".to_string() })
    );
}

#[test]
fn a_download_pass_needs_its_page_and_directory() {
    assert_eq!(require_page(Ok("<html></html>".to_string())), Ok("<html></html>".to_string()));
    assert_eq!(
        require_page(Err("Failed to fetch page: refused".to_string())),
        Err(SyncError { kind: ErrorKind::Unreachable, message: "Failed to fetch page: refused".to_string() })
    );
    assert_eq!(require_directory(Ok("result/a".to_string())), Ok("result/a".to_string()));
    assert_eq!(
        require_directory(Err("Failed to create directory: denied".to_string())),
        Err(SyncError { kind: ErrorKind::IOFailure, message: "Failed to create directory: denied".to_string() })
    );
}

#[test]
fn a_pass_needs_the_inventory() {
    let records = vec![Mediafile {
        id: 1,
        path: "result/a/1.jpg".to_string(),
        name: "1.jpg".to_string(),
        hash: "h1".to_string(),
        size: 3,
        date_added: "2024-01-01 00:00:00".to_string(),
    }];
    assert_eq!(require_inventory(Ok(records.clone())), Ok(records));
    assert_eq!(
        require_inventory(Err("no such table".to_string())),
        Err(SyncError {
            kind: ErrorKind::PersistenceFailure,
            message: "Failed to get mediafiles: no such table".to_string(),
        })
    );
}
