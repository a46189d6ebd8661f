use gulfstream::domain::JobKind;
use gulfstream::infrastructure::database::sqlite_file_path;
use gulfstream::infrastructure::storage::{validate_relative_path, Storage, StorageError};
use gulfstream::config::StorageConfig;
use gulfstream::workers::{
    accept_remote_chunk, claimed_kind, finish_decision, needs_deletion_check, remote_import_start,
    remote_mime_type, remote_source_url, response_step, retention_days, target_storage, transcode_start, ClaimedJob, JobFinish,
    ResponseStep,
};
use gulfstream::config::{RemoteImportConfig, UploadConfig};
use gulfstream::crypto::UploadDigest;
use gulfstream::domain::Visibility;

fn job(kind: JobKind, attempts: i64, maximum_attempts: i64) -> ClaimedJob {
    ClaimedJob {
        id: "job".to_owned(),
        media_id: "media".to_owned(),
        kind,
        payload_json: "{}".to_owned(),
        attempts,
        maximum_attempts,
        locked_by: "worker".to_owned(),
    }
}

#[test]
fn finished_jobs_are_retried_with_backoff() {
    assert_eq!(finish_decision(&job(JobKind::Transcode, 1, 3), true, false, 30), JobFinish::Succeeded);
    assert_eq!(finish_decision(&job(JobKind::Transcode, 1, 3), false, true, 30), JobFinish::Cancelled);
    assert_eq!(finish_decision(&job(JobKind::Transcode, 1, 3), false, false, 30), JobFinish::Retry { delay_seconds: 30 });
    assert_eq!(finish_decision(&job(JobKind::Transcode, 2, 3), false, false, 30), JobFinish::Retry { delay_seconds: 60 });
    assert_eq!(finish_decision(&job(JobKind::Transcode, 40, 50), false, false, 1), JobFinish::Retry { delay_seconds: 1 << 30 });
    assert_eq!(finish_decision(&job(JobKind::Transcode, 40, 50), false, false, i64::MAX), JobFinish::Retry { delay_seconds: i64::MAX });
    assert_eq!(finish_decision(&job(JobKind::Transcode, 0, 3), false, false, 1), JobFinish::Retry { delay_seconds: 1 << 30 });
    assert_eq!(finish_decision(&job(JobKind::Transcode, 3, 3), false, false, 30), JobFinish::Failed { mark_media_failed: true });
    assert_eq!(finish_decision(&job(JobKind::Delete, 3, 3), false, true, 30), JobFinish::Failed { mark_media_failed: false });
    assert!(needs_deletion_check(JobKind::RemoteImport, false));
    assert!(!needs_deletion_check(JobKind::Delete, false));
    assert!(!needs_deletion_check(JobKind::RemoteImport, true));
    assert_eq!(claimed_kind("delete").expect("kind"), JobKind::Delete);
    assert!(claimed_kind("other").is_err());
}

#[test]
fn remote_import_steps() {
    assert_eq!(remote_import_start(&Some("k".to_owned()), "ready"), Ok(true));
    assert_eq!(remote_import_start(&None, "importing"), Ok(false));
    assert_eq!(remote_import_start(&None, "ready").unwrap_err(), "remote import media has invalid status ready");
    let url = remote_source_url("https://Cdn.Example.com/videos/a.mp4").expect("url");
    assert_eq!(url.text, "https://cdn.example.com/videos/a.mp4");
    assert!(remote_source_url("not a url").unwrap_err().starts_with("parse remote import URL: "));
    match response_step(&url, 302, 0, 3, Some(b"../next/b.mp4?x=1")) {
        Ok(ResponseStep::Follow(next)) => {
            assert_eq!(next.text, "https://cdn.example.com/next/b.mp4?x=1");
            assert_eq!(next.host.as_deref(), Some("cdn.example.com"));
            assert_eq!(next.port, Some(443));
            assert_eq!(next.last_segment.as_deref(), Some("b.mp4"));
        }
        other => panic!("unexpected step {other:?}"),
    }
    match response_step(&url, 301, 0, 3, Some(b"http://127.0.0.1:8080/x")) {
        Ok(ResponseStep::Follow(next)) => assert_eq!((next.scheme.as_str(), next.port), ("http", Some(8080))),
        other => panic!("unexpected step {other:?}"),
    }
    assert!(response_step(&url, 302, 0, 3, Some(b"http://[::1")).unwrap_err().starts_with("resolve remote redirect: "));
    assert_eq!(response_step(&url, 302, 3, 3, Some(b"/next")).unwrap_err(), "remote import exceeded the configured redirect limit");
    assert_eq!(response_step(&url, 301, 0, 3, None).unwrap_err(), "remote redirect has no valid Location header");
    assert!(matches!(response_step(&url, 200, 0, 3, None), Ok(ResponseStep::Download)));
    assert_eq!(response_step(&url, 404, 0, 3, None).unwrap_err(), "remote server returned HTTP 404 Not Found");
    let remote = RemoteImportConfig {
        enabled: true,
        allow_private_networks: false,
        use_system_proxy: false,
        maximum_source_bytes: 3,
        maximum_redirects: 3,
        request_timeout_seconds: 10,
        user_agent: "agent".to_owned(),
    };
    let mut digest = UploadDigest::new();
    assert_eq!(accept_remote_chunk(0, &mut digest, b"ab", &remote), Ok(2));
    assert_eq!(accept_remote_chunk(2, &mut digest, b"cd", &remote).unwrap_err(), "remote source exceeds the configured size limit");
    assert_eq!(accept_remote_chunk(2, &mut digest, b"c", &remote), Ok(3));
    assert_eq!(digest.finish_hex(), "ba7816bf8f01cfea414140de5dae2223b00361a396177a9cb410ff61f20015ad");
    let uploads = UploadConfig {
        minimum_source_bytes: 1,
        maximum_source_bytes: 10,
        maximum_text_field_bytes: 10,
        maximum_filename_bytes: 10,
        default_filename: "u".to_owned(),
        default_remote_filename: "r".to_owned(),
        default_content_type: "video/mp4".to_owned(),
        default_visibility: Visibility::Private,
        accepted_content_types: vec!["video/mp4".to_owned(), "video/webm".to_owned()],
    };
    assert_eq!(remote_mime_type(Some(b"video/webm; codecs=vp9"), &uploads).expect("accepted"), "video/webm");
    assert_eq!(remote_mime_type(Some(b" ; x"), &uploads).expect("default"), "video/mp4");
    assert_eq!(remote_mime_type(None, &uploads).expect("default"), "video/mp4");
    assert_eq!(remote_mime_type(Some(b"text/html"), &uploads).unwrap_err(), "remote source content type text/html is not accepted");
}

#[test]
fn transcode_steps_and_retention() {
    assert_eq!(transcode_start("ready", Some(2)), Ok(true));
    assert_eq!(transcode_start("ready", Some(0)), Ok(false));
    assert_eq!(transcode_start("failed", None), Ok(false));
    assert_eq!(transcode_start("deleted", None).unwrap_err(), "transcode media has invalid status deleted");
    assert_eq!(target_storage(true, 100, 50), Ok(150));
    assert_eq!(target_storage(false, 100, 50), Ok(50));
    assert_eq!(target_storage(true, i64::MAX, 50), Ok(i64::MAX));
    assert!(target_storage(true, 0, u64::MAX).is_err());
    assert_eq!(retention_days(0), Ok(None));
    assert_eq!(retention_days(30), Ok(Some(30)));
    assert!(retention_days(u64::MAX).is_err());
}

fn storage() -> Storage {
    Storage::new(StorageConfig {
        root: "/srv/media".to_owned(),
        temporary_root: "/srv/tmp/".to_owned(),
        original_directory_name: "original".to_owned(),
        stream_directory_name: "stream".to_owned(),
        trash_directory_name: "trash".to_owned(),
        preserve_deleted_media: true,
    })
}

#[test]
fn storage_paths_and_keys() {
    let store = storage();
    assert_eq!(store.temporary_file("upload-1"), "/srv/tmp/upload-1");
    assert_eq!(store.media_root("a", "m"), "/srv/media/a/m");
    assert_eq!(store.original_directory("a", "m"), "/srv/media/a/m/original");
    assert_eq!(store.stream_directory("a", "m"), "/srv/media/a/m/stream");
    assert_eq!(store.stream_staging_directory("j-w"), "/srv/tmp/stream-j-w");
    assert_eq!(store.trash_destination("a", "m"), "/srv/media/trash/a/m");
    assert_eq!(store.object_key("/srv/media/a/m/original/clip.mp4").expect("key"), "a/m/original/clip.mp4");
    assert_eq!(store.object_key("/elsewhere/clip.mp4"), Err(StorageError::OutsideRoot));
    assert_eq!(store.object_key("/srv/media"), Err(StorageError::InvalidRelativePath));
    assert_eq!(store.object_path("a/m/original/clip.mp4").expect("path"), "/srv/media/a/m/original/clip.mp4");
    assert_eq!(store.object_path("../etc/passwd"), Err(StorageError::InvalidRelativePath));
    assert!(validate_relative_path("a/b").is_ok());
    assert!(validate_relative_path("/a").is_err());
    assert!(validate_relative_path("").is_err());
    assert!(validate_relative_path("a/./b").is_ok());
}

#[test]
fn object_keys_lead_back_to_their_files() {
    let store = storage();
    for path in ["/srv/media/a/m/original/clip.mp4", "/srv/media//a/m/stream/720p/index.m3u8"] {
        let key = store.object_key(path).expect("key");
        let back = store.object_path(&key).expect("path");
        assert_eq!(std::path::Path::new(&back), std::path::Path::new(path));
    }
}

#[test]
fn keys_give_back_their_keys_through_paths() {
    let store = storage();
    for key in ["a/m/original/clip.mp4", "a/m/stream/720p/index.m3u8", "x"] {
        let path = store.object_path(key).expect("path");
        assert_eq!(store.object_key(&path).expect("key"), key);
    }
    assert_eq!(store.object_key("/srv/mediax/a/clip.mp4"), Err(StorageError::OutsideRoot));
    assert_eq!(store.object_key("/srv/./media/a/clip.mp4").expect("key"), "a/clip.mp4");
}

#[test]
fn sqlite_urls_name_their_files() {
    assert_eq!(sqlite_file_path("sqlite://data/app.db?mode=rwc"), Some("data/app.db".to_owned()));
    assert_eq!(sqlite_file_path("sqlite:app.db"), Some("app.db".to_owned()));
    assert_eq!(sqlite_file_path("sqlite::memory:"), None);
    assert_eq!(sqlite_file_path("sqlite://"), None);
    assert_eq!(sqlite_file_path("postgres://x"), None);
}
