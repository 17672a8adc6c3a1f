use pubkit::credential::{credential_target, use_target_entry};
use pubkit::http_client::join_url;
use pubkit::logger::{effective_log_level, log_level_name, parse_log_level, LogLevel};
use pubkit::robots::generate_robots;

#[test]
fn test_generate_robots() {
    assert_eq!(
        generate_robots(true, "article"),
        "noindex, noarchive, noimageindex, nofollow"
    );
    assert_eq!(generate_robots(false, "article"), "noarchive, noimageindex");
    assert_eq!(
        generate_robots(true, "page"),
        "noindex, noarchive, noimageindex, nofollow"
    );
    assert_eq!(
        generate_robots(false, "page"),
        "noindex, noarchive, noimageindex, nofollow"
    );
}

#[test]
fn log_level_parsing() {
    assert_eq!(parse_log_level("error"), Some(Some(LogLevel::Error)));
    assert_eq!(parse_log_level("warn"), Some(Some(LogLevel::Warn)));
    assert_eq!(parse_log_level("info"), Some(Some(LogLevel::Info)));
    assert_eq!(parse_log_level("debug"), Some(Some(LogLevel::Debug)));
    assert_eq!(parse_log_level("off"), Some(None));
    // case insensitive
    assert_eq!(parse_log_level("ERROR"), Some(Some(LogLevel::Error)));
    assert_eq!(parse_log_level("Off"), Some(None));
    // invalid
    assert_eq!(parse_log_level("invalid"), None);
    assert_eq!(parse_log_level(""), None);
}

#[test]
fn log_level_round_trip() {
    for level in [
        Some(LogLevel::Error),
        Some(LogLevel::Warn),
        Some(LogLevel::Info),
        Some(LogLevel::Debug),
        None,
    ] {
        assert_eq!(parse_log_level(log_level_name(level)), Some(level));
    }
    assert_eq!(log_level_name(Some(LogLevel::Error)), "error");
    assert_eq!(log_level_name(None), "off");
}

#[test]
fn effective_level_prefers_explicit_setting() {
    assert_eq!(
        effective_log_level(Some(Some(LogLevel::Warn)), Some(LogLevel::Info)),
        Some(LogLevel::Warn)
    );
    assert_eq!(effective_log_level(Some(None), Some(LogLevel::Info)), None);
    assert_eq!(
        effective_log_level(None, Some(LogLevel::Info)),
        Some(LogLevel::Info)
    );
    assert_eq!(effective_log_level(None, None), None);
}

#[test]
fn join_url_single_slash() {
    assert_eq!(join_url("https://api.test", "v1/items"), "https://api.test/v1/items");
    assert_eq!(join_url("https://api.test/", "/v1/items"), "https://api.test/v1/items");
    assert_eq!(join_url("https://api.test///", "///v1"), "https://api.test/v1");
    assert_eq!(join_url("", ""), "/");
}

#[test]
fn credential_target_joins_names() {
    assert_eq!(credential_target("svc", "author"), "svc/author");
    assert_eq!(credential_target("", ""), "/");
    assert!(use_target_entry("windows"));
    assert!(!use_target_entry("linux"));
    assert!(!use_target_entry("Windows"));
}
