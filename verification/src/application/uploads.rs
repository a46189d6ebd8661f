//! New media: direct uploads as multipart forms, and imports from remote URLs.
//! The fields of a form and the bytes of a file arrive from the caller one
//! at a time; what to do with each is decided here.
use vstd::prelude::*;

use crate::application::accounts::{limit_message, limit_text};
use crate::application::media::{remote_payload, remote_payload_json};
use crate::config::{RemoteImportConfig, UploadConfig};
use crate::crypto::{sha256_digest, UploadDigest};
use crate::encoding::hex_text;
use crate::domain::{MediaStatus, Visibility};
use crate::error::AppError;
use crate::links::{parse_url, parsed_url, UrlParts};
use crate::text::{
    ascii_lowercase, byte_len, chars_of, decimal, push_str, str_equal, texts, to_ascii_lowercase,
    trim, trim_str, utf8_len,
};
use crate::util::{clean_filename, cleaned_filename, title_from_filename, title_of};

verus! {

/// The answer to a new media request.
#[derive(Clone, Debug)]
pub struct CreatedMedia {
    pub id: String,
    pub status: MediaStatus,
}

/// A request to import a media from a URL.
#[derive(Clone, Debug)]
pub struct RemoteImportRequest {
    pub url: String,
    pub title: Option<String>,
    pub description: Option<String>,
    pub visibility: Option<Visibility>,
}

/// A text field must not exceed its limit in bytes.
pub fn validate_text_size(value: &str, maximum_bytes: usize, field: &str) -> (r: Result<(), AppError>)
    ensures
        r is Ok <==> utf8_len(value@) <= maximum_bytes,
        r is Err ==> (r matches Err(AppError::PayloadTooLarge(m)) && m@ == limit_message(
            field@,
            maximum_bytes as nat,
        )),
{
    if byte_len(value) > maximum_bytes {
        return Err(AppError::PayloadTooLarge(limit_text(field, maximum_bytes)));
    }
    Ok(())
}

/// A visibility given as form text: trimmed, in any ASCII case.
pub fn parse_visibility(value: &str) -> (r: Result<Visibility, AppError>)
    ensures
        match Visibility::from_text(ascii_lowercase(trim(value@))) {
            Some(v) => r == Ok::<Visibility, AppError>(v),
            None => r matches Err(AppError::BadRequest(m)) && m@
                == "visibility must be private, unlisted, or public"@,
        },
{
    let trimmed = trim_str(value);
    let lowered = to_ascii_lowercase(trimmed.as_str());
    match Visibility::parse(lowered.as_str()) {
        Some(v) => Ok(v),
        None => Err(AppError::BadRequest("visibility must be private, unlisted, or public".to_owned())),
    }
}

/// A text that is not blank, trimmed.
pub fn non_empty(value: String) -> (r: Option<String>)
    ensures
        trim(value@).len() == 0 ==> r is None,
        trim(value@).len() > 0 ==> (r matches Some(t) && t@ == trim(value@)),
{
    let trimmed = trim_str(value.as_str());
    if chars_of(trimmed.as_str()).len() == 0 {
        None
    } else {
        Some(trimmed)
    }
}

// ---------------------------------------------------------------------------
// Direct uploads.
// ---------------------------------------------------------------------------

/// What to do with a field of an upload form.
#[derive(Clone, Debug)]
pub enum FieldAction {
    /// Store the field as the media file, under this name and content type.
    File { filename: String, mime_type: String },
    /// Read the field as the title.
    Title,
    /// Read the field as the description.
    Description,
    /// Read the field as the visibility.
    Visibility,
    /// Refuse the upload (the temporary file is removed).
    Reject(AppError),
}

/// Whether `mime` is one of the accepted content types.
pub open spec fn is_accepted(uploads: UploadConfig, mime: Seq<char>) -> bool {
    texts(uploads.accepted_content_types@).contains(mime)
}

fn accepted(uploads: &UploadConfig, mime: &str) -> (r: bool)
    ensures
        r == is_accepted(*uploads, mime@),
{
    let mut i: usize = 0;
    while i < uploads.accepted_content_types.len()
        invariant
            i <= uploads.accepted_content_types@.len(),
            forall|k: int| 0 <= k < i ==> uploads.accepted_content_types@[k]@ != mime@,
        decreases uploads.accepted_content_types@.len() - i,
    {
        if str_equal(uploads.accepted_content_types[i].as_str(), mime) {
            assert(texts(uploads.accepted_content_types@)[i as int] == mime@);
            return true;
        }
        i = i + 1;
    }
    proof {
        let t = texts(uploads.accepted_content_types@);
        if t.contains(mime@) {
            let k = choose|k: int| 0 <= k < t.len() && t[k] == mime@;
            assert(uploads.accepted_content_types@[k]@ == mime@);
        }
    }
    false
}

/// The content type of an uploaded file: its declared type in ASCII
/// lowercase, or the configured default.
pub open spec fn upload_mime(content_type: Option<Seq<char>>, uploads: UploadConfig) -> Seq<char> {
    match content_type {
        Some(t) => ascii_lowercase(t),
        None => uploads.default_content_type@,
    }
}

/// The action for a form field named `name`, given whether the form already
/// had a file, and the field's declared file name and content type.
pub fn field_action(
    has_file: bool,
    name: &str,
    file_name: Option<&str>,
    content_type: Option<&str>,
    uploads: &UploadConfig,
) -> (r: FieldAction)
    ensures
        name@ == "file"@ ==> if has_file {
            r matches FieldAction::Reject(AppError::BadRequest(m)) && m@ == "exactly one file is accepted per media upload"@
        } else {
            let mime = upload_mime(
                match content_type {
                    Some(t) => Some(t@),
                    None => None,
                },
                *uploads,
            );
            let filename = cleaned_filename(
                match file_name {
                    Some(f) => f@,
                    None => uploads.default_filename@,
                },
                uploads.default_filename@,
                uploads.maximum_filename_bytes as nat,
            );
            if is_accepted(*uploads, mime) {
                r matches FieldAction::File { filename: f, mime_type: m } && f@ == filename && m@ == mime
            } else {
                r matches FieldAction::Reject(AppError::BadRequest(e)) && e@ == "content type "@ + mime
                    + " is not accepted"@
            }
        },
        name@ == "title"@ ==> r is Title,
        name@ == "description"@ ==> r is Description,
        name@ == "visibility"@ ==> r is Visibility,
        name@ != "file"@ && name@ != "title"@ && name@ != "description"@ && name@ != "visibility"@
            ==> (r matches FieldAction::Reject(AppError::BadRequest(m)) && m@ == "unknown multipart field: "@
            + name@),
{
    proof {
        reveal_strlit("file");
        reveal_strlit("title");
        reveal_strlit("description");
        reveal_strlit("visibility");
        assert("file"@.len() == 4 && "title"@.len() == 5 && "description"@.len() == 11
            && "visibility"@.len() == 10);
    }
    if str_equal(name, "file") {
        if has_file {
            return FieldAction::Reject(
                AppError::BadRequest("exactly one file is accepted per media upload".to_owned()),
            );
        }
        let source = match file_name {
            Some(f) => f,
            None => uploads.default_filename.as_str(),
        };
        let filename = clean_filename(source, uploads.default_filename.as_str(), uploads.maximum_filename_bytes);
        let mime_type = match content_type {
            Some(t) => to_ascii_lowercase(t),
            None => uploads.default_content_type.as_str().to_owned(),
        };
        if !accepted(uploads, mime_type.as_str()) {
            let mut m = "content type ".to_owned();
            push_str(&mut m, mime_type.as_str());
            push_str(&mut m, " is not accepted");
            return FieldAction::Reject(AppError::BadRequest(m));
        }
        FieldAction::File { filename, mime_type }
    } else if str_equal(name, "title") {
        FieldAction::Title
    } else if str_equal(name, "description") {
        FieldAction::Description
    } else if str_equal(name, "visibility") {
        FieldAction::Visibility
    } else {
        let mut m = "unknown multipart field: ".to_owned();
        push_str(&mut m, name);
        FieldAction::Reject(AppError::BadRequest(m))
    }
}

/// The size of a file after one more chunk, which must stay within the
/// limit (the caller removes the partial file on refusal).
pub fn accept_file_chunk(size: u64, chunk_len: u64, maximum_bytes: u64) -> (r: Result<u64, AppError>)
    ensures
        ({
            let total = if size + chunk_len > u64::MAX {
                u64::MAX as int
            } else {
                size + chunk_len
            };
            if total > maximum_bytes {
                r matches Err(AppError::PayloadTooLarge(m)) && m@ == "source exceeds the configured limit of "@
                    + decimal(maximum_bytes as nat) + " bytes"@
            } else {
                r == Ok::<u64, AppError>(total as u64)
            }
        }),
{
    let total = size.saturating_add(chunk_len);
    if total > maximum_bytes {
        let mut m = "source exceeds the configured limit of ".to_owned();
        crate::text::push_decimal(&mut m, maximum_bytes);
        push_str(&mut m, " bytes");
        return Err(AppError::PayloadTooLarge(m));
    }
    Ok(total)
}

/// One more chunk of an uploaded file: when the file stays within the limit
/// the chunk is fed to its digest and the new size is given; otherwise the
/// upload is refused and the digest is left as it was. A size that counted
/// the bytes fed keeps counting them.
pub fn accept_upload_chunk(size: u64, digest: &mut UploadDigest, chunk: &[u8], maximum_bytes: u64) -> (r: Result<
    u64,
    AppError,
>)
    ensures
        ({
            let total = if size + chunk@.len() > u64::MAX {
                u64::MAX as int
            } else {
                size + chunk@.len()
            };
            if total > maximum_bytes {
                &&& r matches Err(AppError::PayloadTooLarge(m)) && m@ == "source exceeds the configured limit of "@
                    + decimal(maximum_bytes as nat) + " bytes"@
                &&& final(digest).bytes() == old(digest).bytes()
            } else {
                &&& r == Ok::<u64, AppError>(total as u64)
                &&& final(digest).bytes() == old(digest).bytes() + chunk@
            }
        }),
        r is Ok && size == old(digest).bytes().len() && size + chunk@.len() <= u64::MAX ==> r->Ok_0
            == final(digest).bytes().len(),
{
    let total = match accept_file_chunk(size, chunk.len() as u64, maximum_bytes) {
        Ok(total) => total,
        Err(e) => return Err(e),
    };
    digest.update(chunk);
    Ok(total)
}

/// Whether a text field may grow by one more chunk.
pub fn accept_text_chunk(length: usize, chunk_len: usize, maximum_bytes: usize) -> (r: Result<(), AppError>)
    ensures
        ({
            let total = if length + chunk_len > usize::MAX {
                usize::MAX as int
            } else {
                length + chunk_len
            };
            if total > maximum_bytes {
                r matches Err(AppError::PayloadTooLarge(m)) && m@ == "text field exceeds the configured limit of "@
                    + decimal(maximum_bytes as nat) + " bytes"@
            } else {
                r is Ok
            }
        }),
{
    if length.saturating_add(chunk_len) > maximum_bytes {
        let mut m = "text field exceeds the configured limit of ".to_owned();
        crate::text::push_decimal(&mut m, maximum_bytes as u64);
        push_str(&mut m, " bytes");
        return Err(AppError::PayloadTooLarge(m));
    }
    Ok(())
}

/// A stored file must hold at least the configured minimum of bytes.
pub fn check_source_size(size: u64, minimum_bytes: u64) -> (r: Result<(), AppError>)
    ensures
        size >= minimum_bytes ==> r is Ok,
        size < minimum_bytes ==> (r matches Err(AppError::BadRequest(m)) && m@ == "source must contain at least "@
            + decimal(minimum_bytes as nat) + " bytes"@),
{
    if size < minimum_bytes {
        let mut m = "source must contain at least ".to_owned();
        crate::text::push_decimal(&mut m, minimum_bytes);
        push_str(&mut m, " bytes");
        return Err(AppError::BadRequest(m));
    }
    Ok(())
}

/// The file of an upload once it was stored in a temporary file, with the
/// digest of the bytes written.
#[derive(Debug)]
pub struct PendingUpload {
    pub filename: String,
    pub mime_type: String,
    pub size: u64,
    pub digest: UploadDigest,
}

/// What an upload form held.
#[derive(Debug)]
pub struct UploadForm {
    pub file: Option<PendingUpload>,
    pub title: Option<String>,
    pub description: String,
    pub visibility: Option<Visibility>,
}

impl UploadForm {
    /// An empty form.
    pub fn new() -> (r: UploadForm)
        ensures
            r.file is None && r.title is None && r.description@ == Seq::<char>::empty() && r.visibility is None,
    {
        UploadForm { file: None, title: None, description: String::new(), visibility: None }
    }
}

/// The media row an upload creates.
#[derive(Clone, Debug)]
pub struct UploadPlan {
    pub filename: String,
    pub mime_type: String,
    pub size: i64,
    pub sha256: String,
    pub title: String,
    pub description: String,
    pub visibility: Visibility,
    pub status: MediaStatus,
    /// Whether the media is published at once (it is ready).
    pub published: bool,
}

/// The media row of a complete upload form: a file is required and its size
/// must fit the database; the title defaults to one made of the file name
/// and the visibility to the configured one; the media waits for
/// transcoding when it is enabled and is ready (and published) otherwise.
pub fn plan_upload(form: UploadForm, uploads: &UploadConfig, transcoding_enabled: bool) -> (r: Result<UploadPlan, AppError>)
    ensures
        match form.file {
            None => r matches Err(AppError::BadRequest(m)) && m@ == "file is required"@,
            Some(f) => if f.size > i64::MAX {
                r matches Err(AppError::PayloadTooLarge(m)) && m@ == "source size exceeds database limits"@
            } else {
                r matches Ok(p) && p.filename@ == f.filename@ && p.mime_type@ == f.mime_type@ && p.size
                    == f.size && p.sha256@ == hex_text(sha256_digest(f.digest.bytes())) && p.title@ == (match form.title {
                    Some(t) => t@,
                    None => title_of(f.filename@),
                }) && p.description@ == form.description@ && p.visibility == (match form.visibility {
                    Some(v) => v,
                    None => uploads.default_visibility,
                }) && p.status == (if transcoding_enabled {
                    MediaStatus::Queued
                } else {
                    MediaStatus::Ready
                }) && p.published == !transcoding_enabled
            },
        },
{
    let file = match form.file {
        Some(f) => f,
        None => return Err(AppError::BadRequest("file is required".to_owned())),
    };
    if file.size > i64::MAX as u64 {
        return Err(AppError::PayloadTooLarge("source size exceeds database limits".to_owned()));
    }
    let title = match form.title {
        Some(t) => t,
        None => title_from_filename(file.filename.as_str()),
    };
    let visibility = match form.visibility {
        Some(v) => v,
        None => uploads.default_visibility,
    };
    let status = if transcoding_enabled {
        MediaStatus::Queued
    } else {
        MediaStatus::Ready
    };
    Ok(UploadPlan {
        filename: file.filename,
        mime_type: file.mime_type,
        size: file.size as i64,
        sha256: file.digest.finish_hex(),
        title,
        description: form.description,
        visibility,
        status,
        published: !transcoding_enabled,
    })
}

// ---------------------------------------------------------------------------
// Remote imports.
// ---------------------------------------------------------------------------

/// The URL of a remote import: imports must be enabled, and the trimmed text
/// must parse as a URL.
pub fn remote_import_url(url: &str, remote: &RemoteImportConfig) -> (r: Result<UrlParts, AppError>)
    ensures
        !remote.enabled ==> r matches Err(AppError::Forbidden),
        remote.enabled ==> match parsed_url(trim(url@)) {
            Ok(t) => r matches Ok(p) && p.agrees(t),
            Err(m) => r matches Err(AppError::BadRequest(e)) && e@ == "invalid URL: "@ + m,
        },
{
    if !remote.enabled {
        return Err(AppError::Forbidden);
    }
    let trimmed = trim_str(url);
    match parse_url(trimmed.as_str()) {
        Ok(parts) => Ok(parts),
        Err(message) => {
            let mut m = "invalid URL: ".to_owned();
            push_str(&mut m, message.as_str());
            Err(AppError::BadRequest(m))
        },
    }
}

/// The media row a remote import creates.
#[derive(Clone, Debug)]
pub struct RemoteImportPlan {
    pub filename: String,
    pub title: String,
    pub description: String,
    pub visibility: Visibility,
    /// The payload of the import job.
    pub payload: String,
}

/// The file name of a remote import: the last path segment of its URL,
/// cleaned, or the configured default when the URL has none.
pub open spec fn remote_filename(url: UrlParts, uploads: UploadConfig) -> Seq<char> {
    match url.last_segment {
        Some(s) => if s@.len() > 0 {
            cleaned_filename(s@, uploads.default_remote_filename@, uploads.maximum_filename_bytes as nat)
        } else {
            uploads.default_remote_filename@
        },
        None => uploads.default_remote_filename@,
    }
}

/// The media row of a remote import whose URL was checked: its file name,
/// a title (the given one unless blank, else one made of the file name) and
/// a description within the text limit, the visibility (or the default), and
/// the job payload naming the URL.
pub fn plan_remote_import(request: &RemoteImportRequest, url: &UrlParts, uploads: &UploadConfig) -> (r: Result<RemoteImportPlan, AppError>)
    ensures
        ({
            let filename = remote_filename(*url, *uploads);
            let title = match request.title {
                Some(t) => if trim(t@).len() > 0 {
                    trim(t@)
                } else {
                    title_of(filename)
                },
                None => title_of(filename),
            };
            let description = match request.description {
                Some(d) => d@,
                None => Seq::<char>::empty(),
            };
            if utf8_len(title) > uploads.maximum_text_field_bytes {
                r matches Err(AppError::PayloadTooLarge(m)) && m@ == limit_message(
                    "title"@,
                    uploads.maximum_text_field_bytes as nat,
                )
            } else if utf8_len(description) > uploads.maximum_text_field_bytes {
                r matches Err(AppError::PayloadTooLarge(m)) && m@ == limit_message(
                    "description"@,
                    uploads.maximum_text_field_bytes as nat,
                )
            } else {
                r matches Ok(p) && p.filename@ == filename && p.title@ == title && p.description@
                    == description && p.visibility == (match request.visibility {
                    Some(v) => v,
                    None => uploads.default_visibility,
                }) && p.payload@ == remote_payload(url.text@)
            }
        }),
{
    let filename = match &url.last_segment {
        Some(s) => {
            if chars_of(s.as_str()).len() > 0 {
                clean_filename(s.as_str(), uploads.default_remote_filename.as_str(), uploads.maximum_filename_bytes)
            } else {
                uploads.default_remote_filename.as_str().to_owned()
            }
        },
        None => uploads.default_remote_filename.as_str().to_owned(),
    };
    let given = match &request.title {
        Some(t) => non_empty(t.as_str().to_owned()),
        None => None,
    };
    let title = match given {
        Some(t) => t,
        None => title_from_filename(filename.as_str()),
    };
    if let Err(e) = validate_text_size(title.as_str(), uploads.maximum_text_field_bytes, "title") {
        return Err(e);
    }
    let description = match &request.description {
        Some(d) => d.as_str().to_owned(),
        None => String::new(),
    };
    if let Err(e) = validate_text_size(description.as_str(), uploads.maximum_text_field_bytes, "description") {
        return Err(e);
    }
    let visibility = match request.visibility {
        Some(v) => v,
        None => uploads.default_visibility,
    };
    Ok(RemoteImportPlan { filename, title, description, visibility, payload: remote_payload_json(url.text.as_str()) })
}

} // verus!
