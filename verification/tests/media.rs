use gulfstream::application::media::{
    check_update, escape_like_pattern, plan_retry, search_pattern, MediaRecord, UpdateMedia,
};
use gulfstream::application::page::Page;
use gulfstream::domain::{JobKind, MediaStatus, Visibility};
use gulfstream::error::AppError;
use gulfstream::http::jobs::{validate_kind, validate_status as validate_job_status};
use gulfstream::http::media::{validate_status, validate_visibility};

#[test]
fn like_patterns_escape_wildcards() {
    assert_eq!(escape_like_pattern("50%_off\\now"), "50\\%\\_off\\\\now");
    assert_eq!(search_pattern("  cat_video "), "%cat\\_video%");
}

#[test]
fn updates_are_checked() {
    let update = |title: Option<&str>, description: Option<&str>, visibility| UpdateMedia {
        title: title.map(str::to_owned),
        description: description.map(str::to_owned),
        visibility,
    };
    assert!(matches!(check_update(&update(None, None, None), 10), Err(AppError::BadRequest(m)) if m == "at least one field must be provided"));
    assert!(matches!(
        check_update(&update(Some("a very long title"), None, None), 10),
        Err(AppError::PayloadTooLarge(m)) if m == "media metadata exceeds the configured limit of 10 bytes"
    ));
    assert!(matches!(check_update(&update(Some("   "), None, None), 10), Err(AppError::BadRequest(m)) if m == "title cannot be empty"));
    let changes = check_update(&update(Some(" Title "), Some(" d "), Some(Visibility::Public)), 10).expect("valid");
    assert_eq!(changes.title.as_deref(), Some("Title"));
    assert_eq!(changes.description.as_deref(), Some(" d "));
    assert_eq!(changes.visibility, Some(Visibility::Public));
}

fn record(status: &str, key: Option<&str>) -> MediaRecord {
    MediaRecord {
        id: "m".to_owned(),
        account_id: "a".to_owned(),
        original_object_key: key.map(str::to_owned),
        source_filename: "f".to_owned(),
        source_mime_type: None,
        source_size_bytes: 0,
        storage_bytes: 0,
        title: "t".to_owned(),
        description: String::new(),
        visibility: "private".to_owned(),
        status: status.to_owned(),
    }
}

#[test]
fn only_failed_media_are_retried() {
    assert!(matches!(plan_retry(&record("ready", None), None), Err(AppError::Conflict(_))));
    let transcode = plan_retry(&record("failed", Some("k")), None).expect("retry");
    assert_eq!((transcode.kind, transcode.payload.as_str(), transcode.status), (JobKind::Transcode, "{}", MediaStatus::Queued));
    let import = plan_retry(&record("failed", None), Some("https://x.test/a \"b\"")).expect("retry");
    assert_eq!(import.kind, JobKind::RemoteImport);
    assert_eq!(import.payload, "{\"url\":\"https://x.test/a \\\"b\\\"\"}");
    assert_eq!(import.status, MediaStatus::Importing);
    assert!(matches!(plan_retry(&record("failed", None), None), Err(AppError::Conflict(m)) if m == "failed remote import has no source URL"));
}

#[test]
fn listing_filters_are_validated() {
    assert!(validate_status(None).is_ok());
    assert!(validate_status(Some("ready")).is_ok());
    assert!(validate_status(Some("Ready")).is_err());
    assert!(validate_visibility(Some("unlisted")).is_ok());
    assert!(validate_visibility(Some("hidden")).is_err());
    assert!(validate_job_status(Some("running")).is_ok());
    assert!(validate_job_status(Some("done")).is_err());
    assert!(validate_kind(Some("remote_import")).is_ok());
    assert!(validate_kind(Some("import")).is_err());
    let page = Page::new(vec![1, 2], 2, 10, 12);
    assert_eq!((page.items, page.page, page.page_size, page.total), (vec![1, 2], 2, 10, 12));
}
