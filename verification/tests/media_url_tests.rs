use media_sync::config::Config;
use media_sync::links::media_urls::{
    file_name_from_url, is_absolute_url, is_valid_extension, plan_asset, resolve_download_url, AssetAction,
};

fn extensions() -> Vec<String> {
    vec!["jpg".to_string(), "png".to_string(), "mp4".to_string()]
}

fn config() -> Config {
    Config::new("http://cdn.example.com".to_string(), extensions())
}

#[test]
fn relative_source_is_resolved_against_the_root() {
    assert_eq!(
        resolve_download_url("/img/1.jpg", "http://cdn.example.com"),
        "http://cdn.example.com/img/1.jpg"
    );
    let action = plan_asset(&config(), "/img/1.jpg", false);
    assert_eq!(
        action,
        AssetAction::Fetch {
            file_name: "1.jpg".to_string(),
            download_url: "http://cdn.example.com/img/1.jpg".to_string(),
        }
    );
}

#[test]
fn absolute_source_is_used_unchanged() {
    assert_eq!(
        resolve_download_url("http://other.com/a.png", "http://cdn.example.com"),
        "http://other.com/a.png"
    );
    assert_eq!(
        resolve_download_url("https://other.com/a.png", "http://cdn.example.com"),
        "https://other.com/a.png"
    );
    let action = plan_asset(&config(), "http://other.com/a.png", false);
    assert_eq!(
        action,
        AssetAction::Fetch {
            file_name: "a.png".to_string(),
            download_url: "http://other.com/a.png".to_string(),
        }
    );
}

#[test]
fn source_with_other_extension_is_rejected() {
    let action = plan_asset(&config(), "/x.exe", false);
    assert_eq!(action, AssetAction::Skip { file_name: "x.exe".to_string() });
    assert!(!is_valid_extension("x.exe", &extensions()));
}

#[test]
fn file_on_disk_is_reused_whatever_its_extension() {
    assert_eq!(
        plan_asset(&config(), "/x.exe", true),
        AssetAction::Reuse { file_name: "x.exe".to_string() }
    );
    assert_eq!(
        plan_asset(&config(), "http://other.com/deep/path/a.png", true),
        AssetAction::Reuse { file_name: "a.png".to_string() }
    );
}

#[test]
fn root_and_source_are_joined_as_they_stand() {
    assert_eq!(
        resolve_download_url("/img/1.jpg", "http://cdn.example.com/"),
        "http://cdn.example.com//img/1.jpg"
    );
    assert_eq!(resolve_download_url("img/1.jpg", "http://cdn.example.com"), "http://cdn.example.comimg/1.jpg");
    assert_eq!(resolve_download_url("httpfoo.jpg", "http://r/"), "http://r/httpfoo.jpg");
}

#[test]
fn absolute_means_an_http_scheme() {
    assert!(is_absolute_url("http://a"));
    assert!(is_absolute_url("https://a"));
    assert!(is_absolute_url("http://"));
    assert!(!is_absolute_url("http:/a"));
    assert!(!is_absolute_url("ftp://a"));
    assert!(!is_absolute_url("HTTP://a"));
    assert!(!is_absolute_url(""));
    assert!(!is_absolute_url("//cdn/a.png"));
}

#[test]
fn file_name_is_what_follows_the_last_slash() {
    assert_eq!(file_name_from_url("http://cdn.example.com/img/1.jpg"), "1.jpg");
    assert_eq!(file_name_from_url("/x.exe"), "x.exe");
    assert_eq!(file_name_from_url("plain.png"), "plain.png");
    assert_eq!(file_name_from_url("dir/"), "");
    assert_eq!(file_name_from_url(""), "");
    assert_eq!(file_name_from_url("/a/b/ünï.jpg"), "ünï.jpg");
}

#[test]
fn extension_is_a_case_sensitive_suffix() {
    let allowed = extensions();
    assert!(is_valid_extension("a.jpg", &allowed));
    assert!(is_valid_extension("a.mp4", &allowed));
    assert!(is_valid_extension("ajpg", &allowed));
    assert!(is_valid_extension("jpg", &allowed));
    assert!(!is_valid_extension("a.JPG", &allowed));
    assert!(!is_valid_extension("a.jpg.exe", &allowed));
    assert!(!is_valid_extension("pg", &allowed));
    assert!(!is_valid_extension("", &allowed));
    assert!(!is_valid_extension("a.jpg", &Vec::new()));
}
