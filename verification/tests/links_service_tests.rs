use media_sync::config::Config;
use media_sync::links::dto::{CounterUpdate, CreateLinkDto, DownloadedFiles};
use media_sync::links::links_service::{
    asset_record, download_files_multi, fetched_outcome, reused_outcome, skipped_outcome, FoundFile, LinksService,
};
use media_sync::links::media_urls::AssetAction;
use media_sync::links::reconcile::Reconciliation;
use media_sync::mediafiles::dto::{CreateDto, Mediafile};
use media_sync::mediafiles::mediafiles_service::MediafilesService;
use media_sync::utils::ErrorKind;

const HELLO_HASH: &str = "b94d27b9934d3e08a52e52d7da7dabfac484efe37a5380ee9088f7ace2efcde9";
const EMPTY_HASH: &str = "e3b0c44298fc1c149afbf4c8996fb92427ae41e4649b934ca495991b7852b855";

fn service() -> LinksService {
    LinksService::new(Config::new(
        "http://cdn.example.com".to_string(),
        vec!["jpg".to_string(), "png".to_string(), "mp4".to_string()],
    ))
}

fn record(name: &str, hash: &str) -> CreateDto {
    CreateDto {
        name: name.to_string(),
        path: format!("result/album/{}", name),
        hash: hash.to_string(),
        size: 3,
        link_id: 7,
    }
}

fn outcomes() -> Vec<Result<CreateDto, String>> {
    vec![
        Ok(record("1.jpg", "h1")),
        Err("Failed to download /img/2.jpg: timeout".to_string()),
        Ok(record("3.jpg", "h3")),
        Err("x.exe is not an image".to_string()),
        Ok(record("5.jpg", "h5")),
    ]
}

#[test]
fn successes_are_gathered_in_order() {
    assert_eq!(
        download_files_multi(&outcomes()),
        vec![record("1.jpg", "h1"), record("3.jpg", "h3"), record("5.jpg", "h5")]
    );
    assert_eq!(download_files_multi(&Vec::new()), Vec::<CreateDto>::new());
}

#[test]
fn success_count_is_tasks_less_failures() {
    let mut list: Vec<Result<CreateDto, String>> = Vec::new();
    for i in 0..10 {
        if i % 4 == 1 {
            list.push(Err(format!("task {} failed", i)));
        } else {
            list.push(Ok(record(&format!("{}.jpg", i), &format!("h{}", i))));
        }
    }
    let failed = list.iter().filter(|o| o.is_err()).count();
    assert_eq!(failed, 3);
    let plan = service().download(&list, &MediafilesService::new());
    assert_eq!(plan.files, DownloadedFiles { downloaded: 7, total: 10 });
    assert_eq!(plan.new_records.len(), 7);

    list.reverse();
    let reversed = service().download(&list, &MediafilesService::new());
    assert_eq!(reversed.files, plan.files);
    assert_eq!(reversed.counters, plan.counters);
    let mut names: Vec<String> = reversed.new_records.iter().map(|r| r.name.clone()).collect();
    let mut expected: Vec<String> = plan.new_records.iter().map(|r| r.name.clone()).collect();
    names.sort();
    expected.sort();
    assert_eq!(names, expected);
}

#[test]
fn download_plan_counts_and_rounds() {
    let plan = service().download(&outcomes(), &MediafilesService::new());
    assert_eq!(plan.files, DownloadedFiles { downloaded: 3, total: 5 });
    assert_eq!(
        plan.counters,
        CounterUpdate { mediafiles: 5, downloaded_mediafiles: 3, is_downloaded: false, progress: 60 }
    );
    assert_eq!(plan.new_records.len(), 3);

    let one_of_eight: Vec<Result<CreateDto, String>> = (0..8)
        .map(|i| if i == 0 { Ok(record("0.jpg", "h0")) } else { Err("failed".to_string()) })
        .collect();
    let plan = service().download(&one_of_eight, &MediafilesService::new());
    assert_eq!(plan.counters.progress, 13);
    assert!(!plan.counters.is_downloaded);
}

#[test]
fn download_plan_of_a_complete_pass() {
    let all: Vec<Result<CreateDto, String>> = vec![Ok(record("1.jpg", "h1")), Ok(record("2.jpg", "h2"))];
    let plan = service().download(&all, &MediafilesService::new());
    assert_eq!(
        plan.counters,
        CounterUpdate { mediafiles: 2, downloaded_mediafiles: 2, is_downloaded: true, progress: 100 }
    );
}

#[test]
fn download_plan_of_a_page_without_media() {
    let plan = service().download(&Vec::new(), &MediafilesService::new());
    assert_eq!(plan.files, DownloadedFiles { downloaded: 0, total: 0 });
    assert_eq!(
        plan.counters,
        CounterUpdate { mediafiles: 0, downloaded_mediafiles: 0, is_downloaded: true, progress: 0 }
    );
    assert!(plan.new_records.is_empty());
}

#[test]
fn repeated_download_pass_inserts_nothing_and_keeps_the_counters() {
    let mut inventory = MediafilesService::new();
    let first = service().download(&outcomes(), &inventory);
    for new_record in &first.new_records {
        inventory.remember(&new_record.hash, &new_record.path);
    }
    let second = service().download(&outcomes(), &inventory);
    assert!(second.new_records.is_empty());
    assert_eq!(second.counters, first.counters);
    assert_eq!(second.files, first.files);
}

#[test]
fn download_plan_leaves_out_persisted_records() {
    let persisted = Mediafile {
        id: 1,
        path: "result/album/3.jpg".to_string(),
        name: "3.jpg".to_string(),
        hash: "h3".to_string(),
        size: 3,
        date_added: "2024-01-01 00:00:00".to_string(),
    };
    let inventory = MediafilesService::with_records(&vec![persisted]);
    let plan = service().download(&outcomes(), &inventory);
    assert_eq!(plan.new_records, vec![record("1.jpg", "h1"), record("5.jpg", "h5")]);
    assert_eq!(plan.files, DownloadedFiles { downloaded: 3, total: 5 });
}

#[test]
fn record_of_downloaded_content() {
    let made = asset_record("1.jpg".to_string(), "result/album/1.jpg".to_string(), &b"hello world".to_vec(), 7);
    assert_eq!(
        made,
        CreateDto {
            name: "1.jpg".to_string(),
            path: "result/album/1.jpg".to_string(),
            hash: HELLO_HASH.to_string(),
            size: 11,
            link_id: 7,
        }
    );
}

#[test]
fn files_on_disk_are_adopted_once() {
    let files = vec![
        FoundFile { path: "result/album/1.jpg".to_string(), data: b"hello world".to_vec() },
        FoundFile { path: "result/album/empty.png".to_string(), data: Vec::new() },
    ];
    let mut inventory = MediafilesService::new();
    let adopted = service().add_files_to_link(7, &files, &inventory);
    assert_eq!(
        adopted,
        vec![
            CreateDto {
                name: "1.jpg".to_string(),
                path: "result/album/1.jpg".to_string(),
                hash: HELLO_HASH.to_string(),
                size: 11,
                link_id: 7,
            },
            CreateDto {
                name: "empty.png".to_string(),
                path: "result/album/empty.png".to_string(),
                hash: EMPTY_HASH.to_string(),
                size: 0,
                link_id: 7,
            },
        ]
    );
    inventory.remember(&HELLO_HASH.to_string(), &"result/album/1.jpg".to_string());
    let again = service().add_files_to_link(7, &files, &inventory);
    assert_eq!(again.len(), 1);
    assert_eq!(again[0].name, "empty.png");
    assert_eq!(service().adopt_file(7, &files[0], &inventory), None);
}

#[test]
fn changed_content_under_a_known_path_is_adopted() {
    let mut inventory = MediafilesService::new();
    inventory.remember(&HELLO_HASH.to_string(), &"result/album/1.jpg".to_string());
    let changed = FoundFile { path: "result/album/1.jpg".to_string(), data: b"hello".to_vec() };
    let adopted = service().adopt_file(7, &changed, &inventory);
    assert_eq!(adopted.map(|r| r.size), Some(5));
}

#[test]
fn reconciliation_counts_the_media_of_the_page() {
    let page = "<img src=\"/1.jpg\"><img src=\"/2.jpg\"><video src=\"/3.mp4\"></video><img src=\"/4.jpg\">";
    assert_eq!(
        service().check_downloaded(Some(2), Some(page)),
        Reconciliation::Update(CounterUpdate {
            mediafiles: 4,
            downloaded_mediafiles: 2,
            is_downloaded: false,
            progress: 50,
        })
    );
    assert_eq!(
        service().check_downloaded(None, Some(page)),
        Reconciliation::Update(CounterUpdate {
            mediafiles: 4,
            downloaded_mediafiles: 0,
            is_downloaded: false,
            progress: 0,
        })
    );
    assert_eq!(
        service().check_downloaded(Some(3), None),
        Reconciliation::Update(CounterUpdate {
            mediafiles: 3,
            downloaded_mediafiles: 3,
            is_downloaded: true,
            progress: 100,
        })
    );
    assert_eq!(service().check_downloaded(None, None), Reconciliation::Untouched);
}

#[test]
fn plan_follows_the_configuration() {
    assert_eq!(
        service().plan("/img/1.jpg", false),
        AssetAction::Fetch {
            file_name: "1.jpg".to_string(),
            download_url: "http://cdn.example.com/img/1.jpg".to_string(),
        }
    );
    assert_eq!(service().plan("/x.exe", false), AssetAction::Skip { file_name: "x.exe".to_string() });
}

#[test]
fn link_is_named_after_its_path() {
    let created = service().create_one(&CreateLinkDto { path: "http://example.com/albums/summer".to_string() });
    let link = created.expect("a well-formed address");
    assert_eq!(link.path, "http://example.com/albums/summer");
    assert_eq!(link.name, "albums/summer");
}

#[test]
fn malformed_address_is_invalid_input() {
    for path in ["ftp://example.com/a", "example.com/a", "http://example.com", "", "http:///a"] {
        let refused = service().create_one(&CreateLinkDto { path: path.to_string() });
        let error = refused.expect_err("not a well-formed address");
        assert_eq!(error.kind, ErrorKind::InvalidInput);
        assert_eq!(error.message, "Path is not a valid URL");
    }
}

#[test]
fn skipped_task_names_the_file() {
    assert_eq!(skipped_outcome("x.exe"), Err("x.exe is not an image".to_string()));
}

#[test]
fn reused_file_gives_its_record_or_the_cause() {
    assert_eq!(
        reused_outcome("1.jpg".to_string(), "result/album/1.jpg".to_string(), 7, Ok(b"hello world".to_vec())),
        Ok(CreateDto {
            name: "1.jpg".to_string(),
            path: "result/album/1.jpg".to_string(),
            hash: HELLO_HASH.to_string(),
            size: 11,
            link_id: 7,
        })
    );
    assert_eq!(
        reused_outcome("1.jpg".to_string(), "result/album/1.jpg".to_string(), 7, Err("denied".to_string())),
        Err("Error calculating hash and size: denied, path result/album/1.jpg".to_string())
    );
}

#[test]
fn fetched_file_gives_its_record_or_the_cause() {
    assert_eq!(
        fetched_outcome("e.png".to_string(), "result/album/e.png".to_string(), "/img/e.png", 7, Ok(Vec::new())),
        Ok(CreateDto {
            name: "e.png".to_string(),
            path: "result/album/e.png".to_string(),
            hash: EMPTY_HASH.to_string(),
            size: 0,
            link_id: 7,
        })
    );
    assert_eq!(
        fetched_outcome(
            "e.png".to_string(),
            "result/album/e.png".to_string(),
            "/img/e.png",
            7,
            Err("Request failed: timeout".to_string())
        ),
        Err("Failed to download /img/e.png: Request failed: timeout".to_string())
    );
}

#[test]
fn failed_and_existing_tasks_are_counted_apart() {
    let outcomes = vec![
        reused_outcome("1.jpg".to_string(), "result/album/1.jpg".to_string(), 7, Ok(b"a".to_vec())),
        fetched_outcome("2.jpg".to_string(), "result/album/2.jpg".to_string(), "/2.jpg", 7, Err("reset".to_string())),
        reused_outcome("3.jpg".to_string(), "result/album/3.jpg".to_string(), 7, Ok(b"c".to_vec())),
        fetched_outcome("4.jpg".to_string(), "result/album/4.jpg".to_string(), "/4.jpg", 7, Ok(b"d".to_vec())),
        skipped_outcome("5.exe"),
        fetched_outcome("6.jpg".to_string(), "result/album/6.jpg".to_string(), "/6.jpg", 7, Err("reset".to_string())),
    ];
    let plan = service().download(&outcomes, &MediafilesService::new());
    assert_eq!(plan.files, DownloadedFiles { downloaded: 3, total: 6 });
    assert_eq!(plan.counters.progress, 50);
    assert_eq!(plan.new_records.len(), 3);
}

#[test]
fn a_file_listed_twice_is_adopted_once() {
    let file = FoundFile { path: "result/album/1.jpg".to_string(), data: b"hello world".to_vec() };
    let adopted = service().add_files_to_link(7, &vec![file.clone(), file], &MediafilesService::new());
    assert_eq!(adopted.len(), 1);
    assert_eq!(adopted[0].hash, HELLO_HASH);
}

#[test]
fn two_elements_with_one_file_give_one_record() {
    let twice = vec![Ok(record("1.jpg", "h1")), Ok(record("1.jpg", "h1")), Ok(record("2.jpg", "h2"))];
    let plan = service().download(&twice, &MediafilesService::new());
    assert_eq!(plan.new_records, vec![record("1.jpg", "h1"), record("2.jpg", "h2")]);
    assert_eq!(plan.files, DownloadedFiles { downloaded: 3, total: 3 });
    assert!(plan.counters.is_downloaded);
}
