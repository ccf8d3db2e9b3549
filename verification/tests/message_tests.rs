use media_sync::config::{parse_extensions, Config};
use media_sync::links::links_db_service::LinksDbService;
use media_sync::links::messages::{downloaded_message, reconciliation_message};
use media_sync::mediafiles::mediafiles_db_service::{InsertOutcome, MediafilesDbService};
use media_sync::text::{decimal_text, split, trim_end_char, trim_start_char};

#[test]
fn numbers_are_written_in_decimal() {
    assert_eq!(decimal_text(0), "0");
    assert_eq!(decimal_text(7), "7");
    assert_eq!(decimal_text(10), "10");
    assert_eq!(decimal_text(1234567890), "1234567890");
    assert_eq!(decimal_text(usize::MAX), usize::MAX.to_string());
}

#[test]
fn download_report_names_the_count() {
    assert_eq!(downloaded_message(0), "Downloaded 0 files");
    assert_eq!(downloaded_message(12), "Downloaded 12 files");
}

#[test]
fn reconciliation_report_of_each_case() {
    assert_eq!(
        reconciliation_message(5, "result/album", None, None),
        "result/album does not exist and page not found"
    );
    assert_eq!(
        reconciliation_message(5, "result/album", Some(3), None),
        "id: 5, Files detected in directory, download marked as complete"
    );
    assert_eq!(reconciliation_message(5, "result/album", Some(0), None), "result/album directory is empty");
    assert_eq!(
        reconciliation_message(5, "result/album", Some(2), Some(4)),
        "id: 5, Downloaded 2 out of 4 media files"
    );
    assert_eq!(reconciliation_message(15, "result/album", None, Some(4)), "id: 15, Not downloaded yet");
}

#[test]
fn link_store_reports() {
    let store = LinksDbService::new("links.db".to_string());
    assert_eq!(store.db_name, "links.db");
    assert_eq!(store.create_one(1), "One path created");
    assert_eq!(store.create_one(0), "No path created");
    assert_eq!(store.remove(1), "One path removed");
    assert_eq!(store.remove(2), "No path removed");
    assert_eq!(store.tag_unreachable(1, true), "One path tagged as reachable");
    assert_eq!(store.tag_unreachable(1, false), "One path tagged as unreachable");
    assert_eq!(store.tag_unreachable(0, true), "No path tagged");
    assert_eq!(store.add_duplicate(1, 12, 3), "Link id 12 tagged as duplicate of 3");
    assert_eq!(store.add_duplicate(0, 12, 3), "No path tagged");
    assert_eq!(store.update_files_number(1), "One path updated");
    assert_eq!(store.update_files_number(0), "No path updated");
}

#[test]
fn record_and_tie_are_committed_together() {
    let store = MediafilesDbService::new("links.db".to_string());
    assert_eq!(store.create_one(1), InsertOutcome { commit: true, message: "One mediafile created" });
    assert_eq!(store.create_one(0), InsertOutcome { commit: false, message: "No mediafile created" });
    assert_eq!(store.create_one(2), InsertOutcome { commit: false, message: "No mediafile created" });
    assert_eq!(store.remove(1), "One mediafile removed");
    assert_eq!(store.remove(0), "No mediafile removed");
}

#[test]
fn extension_list_is_split_and_trimmed() {
    assert_eq!(parse_extensions("jpg, png ,mp4"), vec!["jpg".to_string(), "png".to_string(), "mp4".to_string()]);
    assert_eq!(parse_extensions("jpg"), vec!["jpg".to_string()]);
    assert_eq!(parse_extensions(""), vec!["".to_string()]);
    assert_eq!(parse_extensions("a,,b,"), vec!["a".to_string(), "".to_string(), "b".to_string(), "".to_string()]);
    let config = Config::from_settings("http://cdn.example.com".to_string(), " jpg,png");
    assert_eq!(config, Config::new("http://cdn.example.com".to_string(), vec!["jpg".to_string(), "png".to_string()]));
}

#[test]
fn split_keeps_empty_pieces() {
    assert_eq!(split("a,b", ','), vec!["a".to_string(), "b".to_string()]);
    assert_eq!(split(",", ','), vec!["".to_string(), "".to_string()]);
    assert_eq!(split("", ','), vec!["".to_string()]);
    assert_eq!(split("abc", ','), vec!["abc".to_string()]);
}

#[test]
fn runs_of_one_character_are_cut_off() {
    assert_eq!(trim_end_char("abc///", '/'), "abc");
    assert_eq!(trim_end_char("///", '/'), "");
    assert_eq!(trim_end_char("a/b", '/'), "a/b");
    assert_eq!(trim_start_char("///abc/", '/'), "abc/");
    assert_eq!(trim_start_char("", '/'), "");
}
