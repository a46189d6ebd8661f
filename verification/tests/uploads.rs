use gulfstream::application::uploads::{
    accept_file_chunk, accept_text_chunk, accept_upload_chunk, check_source_size, field_action, non_empty,
    parse_visibility, plan_remote_import, plan_upload, remote_import_url, validate_text_size,
    FieldAction, PendingUpload, RemoteImportRequest, UploadForm,
};
use gulfstream::config::{RemoteImportConfig, UploadConfig};
use gulfstream::crypto::UploadDigest;
use gulfstream::domain::{MediaStatus, Visibility};
use gulfstream::error::AppError;

fn uploads() -> UploadConfig {
    UploadConfig {
        minimum_source_bytes: 10,
        maximum_source_bytes: 100,
        maximum_text_field_bytes: 20,
        maximum_filename_bytes: 240,
        default_filename: "upload".to_owned(),
        default_remote_filename: "remote".to_owned(),
        default_content_type: "video/mp4".to_owned(),
        default_visibility: Visibility::Unlisted,
        accepted_content_types: vec!["video/mp4".to_owned(), "video/webm".to_owned()],
    }
}

#[test]
fn text_fields_visibility_and_blank_values() {
    assert!(validate_text_size("short", 10, "title").is_ok());
    assert!(matches!(
        validate_text_size("far too long", 10, "title"),
        Err(AppError::PayloadTooLarge(m)) if m == "title exceeds the configured limit of 10 bytes"
    ));
    assert_eq!(parse_visibility("  PUBLIC ").expect("valid"), Visibility::Public);
    assert!(matches!(
        parse_visibility("everyone"),
        Err(AppError::BadRequest(m)) if m == "visibility must be private, unlisted, or public"
    ));
    assert_eq!(non_empty("  x ".to_owned()), Some("x".to_owned()));
    assert_eq!(non_empty("   ".to_owned()), None);
}

#[test]
fn form_fields_are_dispatched() {
    let config = uploads();
    match field_action(false, "file", Some("../My Clip.MP4"), Some("Video/MP4"), &config) {
        FieldAction::File { filename, mime_type } => {
            assert_eq!(filename, "My_Clip.MP4");
            assert_eq!(mime_type, "video/mp4");
        }
        other => panic!("unexpected {other:?}"),
    }
    match field_action(false, "file", None, None, &config) {
        FieldAction::File { filename, mime_type } => {
            assert_eq!((filename.as_str(), mime_type.as_str()), ("upload", "video/mp4"));
        }
        other => panic!("unexpected {other:?}"),
    }
    assert!(matches!(
        field_action(true, "file", None, None, &config),
        FieldAction::Reject(AppError::BadRequest(m)) if m == "exactly one file is accepted per media upload"
    ));
    assert!(matches!(
        field_action(false, "file", None, Some("text/plain"), &config),
        FieldAction::Reject(AppError::BadRequest(m)) if m == "content type text/plain is not accepted"
    ));
    assert!(matches!(field_action(false, "title", None, None, &config), FieldAction::Title));
    assert!(matches!(field_action(false, "description", None, None, &config), FieldAction::Description));
    assert!(matches!(field_action(false, "visibility", None, None, &config), FieldAction::Visibility));
    assert!(matches!(
        field_action(false, "other", None, None, &config),
        FieldAction::Reject(AppError::BadRequest(m)) if m == "unknown multipart field: other"
    ));
}

#[test]
fn sizes_are_bounded() {
    assert_eq!(accept_file_chunk(40, 60, 100).expect("fits"), 100);
    assert!(matches!(
        accept_file_chunk(40, 61, 100),
        Err(AppError::PayloadTooLarge(m)) if m == "source exceeds the configured limit of 100 bytes"
    ));
    assert!(accept_file_chunk(u64::MAX, 1, 100).is_err());
    assert!(accept_text_chunk(10, 10, 20).is_ok());
    assert!(accept_text_chunk(10, 11, 20).is_err());
    assert!(check_source_size(10, 10).is_ok());
    assert!(matches!(check_source_size(9, 10), Err(AppError::BadRequest(m)) if m == "source must contain at least 10 bytes"));
}

const ABC_SHA256: &str = "ba7816bf8f01cfea414140de5dae2223b00361a396177a9cb410ff61f20015ad";

fn form_with_file(title: Option<&str>, visibility: Option<Visibility>) -> UploadForm {
    let mut digest = UploadDigest::new();
    let mut size = 0;
    for chunk in [&b"a"[..], &b"bc"[..]] {
        size = accept_upload_chunk(size, &mut digest, chunk, 100).expect("fits");
    }
    let mut form = UploadForm::new();
    form.title = title.map(str::to_owned);
    form.visibility = visibility;
    form.file = Some(PendingUpload {
        filename: "my_holiday-clip.mp4".to_owned(),
        mime_type: "video/mp4".to_owned(),
        size,
        digest,
    });
    form
}

#[test]
fn upload_chunks_are_counted_and_digested() {
    let mut digest = UploadDigest::new();
    assert_eq!(accept_upload_chunk(0, &mut digest, b"abc", 3).expect("fits"), 3);
    assert!(matches!(
        accept_upload_chunk(3, &mut digest, b"d", 3),
        Err(AppError::PayloadTooLarge(m)) if m == "source exceeds the configured limit of 3 bytes"
    ));
    assert_eq!(digest.finish_hex(), ABC_SHA256);
    assert_eq!(
        UploadDigest::new().finish_hex(),
        "e3b0c44298fc1c149afbf4c8996fb92427ae41e4649b934ca495991b7852b855"
    );
}

#[test]
fn complete_forms_become_media() {
    assert!(matches!(plan_upload(UploadForm::new(), &uploads(), true), Err(AppError::BadRequest(m)) if m == "file is required"));
    let plan = plan_upload(form_with_file(None, None), &uploads(), true).expect("plan");
    assert_eq!(plan.title, "my holiday clip");
    assert_eq!(plan.visibility, Visibility::Unlisted);
    assert_eq!(plan.status, MediaStatus::Queued);
    assert_eq!(plan.size, 3);
    assert_eq!(plan.sha256, ABC_SHA256);
    assert!(!plan.published);
    let plan = plan_upload(form_with_file(Some("Given"), Some(Visibility::Public)), &uploads(), false).expect("plan");
    assert_eq!((plan.title.as_str(), plan.visibility, plan.status, plan.published), ("Given", Visibility::Public, MediaStatus::Ready, true));
}

#[test]
fn remote_imports_are_planned() {
    let remote = RemoteImportConfig {
        enabled: true,
        allow_private_networks: false,
        maximum_source_bytes: 100,
        request_timeout_seconds: 10,
        maximum_redirects: 3,
        user_agent: "gulfstream".to_owned(),
        use_system_proxy: false,
    };
    assert!(matches!(
        remote_import_url("not a url", &remote),
        Err(AppError::BadRequest(m)) if m == "invalid URL: relative URL without a base"
    ));
    let url = remote_import_url("  https://cdn.example.com/videos/Big%20Trip.mp4 ", &remote).expect("url");
    assert_eq!(url.host.as_deref(), Some("cdn.example.com"));
    assert_eq!(url.port, Some(443));
    let request = RemoteImportRequest {
        url: url.text.clone(),
        title: Some("  ".to_owned()),
        description: None,
        visibility: None,
    };
    let plan = plan_remote_import(&request, &url, &uploads()).expect("plan");
    assert_eq!(plan.filename, "Big_20Trip.mp4");
    assert_eq!(plan.title, "Big 20Trip");
    assert_eq!(plan.description, "");
    assert_eq!(plan.visibility, Visibility::Unlisted);
    assert_eq!(plan.payload, "{\"url\":\"https://cdn.example.com/videos/Big%20Trip.mp4\"}");
    let long = RemoteImportRequest { description: Some("x".repeat(21)), ..request };
    assert!(matches!(
        plan_remote_import(&long, &url, &uploads()),
        Err(AppError::PayloadTooLarge(m)) if m == "description exceeds the configured limit of 20 bytes"
    ));
    let disabled = RemoteImportConfig { enabled: false, ..remote };
    assert!(matches!(remote_import_url("https://x.test/", &disabled), Err(AppError::Forbidden)));
}
