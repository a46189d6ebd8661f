//! Media of an account: listing, metadata updates, retries and deletion.
use vstd::prelude::*;

use crate::domain::{JobKind, MediaStatus, Visibility};
use crate::encoding::{json_string, json_string_literal};
use crate::error::AppError;
use crate::text::{byte_len, chars_of, decimal, push_str, str_equal, trim, trim_str, utf8_len};

verus! {

/// A media row as the service reads it.
#[derive(Clone, Debug)]
pub struct MediaRecord {
    pub id: String,
    pub account_id: String,
    pub original_object_key: Option<String>,
    pub source_filename: String,
    pub source_mime_type: Option<String>,
    pub source_size_bytes: i64,
    pub storage_bytes: i64,
    pub title: String,
    pub description: String,
    pub visibility: String,
    pub status: String,
}

/// A metadata update; absent fields are kept.
#[derive(Clone, Debug)]
pub struct UpdateMedia {
    pub title: Option<String>,
    pub description: Option<String>,
    pub visibility: Option<Visibility>,
}

/// The filter of a media listing.
#[derive(Clone, Debug)]
pub struct ListMediaFilter {
    pub status: Option<String>,
    pub visibility: Option<String>,
    pub search: Option<String>,
    pub page: u32,
    pub page_size: u32,
    pub offset: i64,
}

/// `c` escaped for a SQL `LIKE` pattern with `\` as the escape character.
pub open spec fn like_escaped_char(c: char) -> Seq<char> {
    if c == '\\' || c == '%' || c == '_' {
        seq!['\\', c]
    } else {
        seq![c]
    }
}

/// `s` with `\`, `%` and `_` escaped by a `\`.
pub open spec fn like_escaped(s: Seq<char>) -> Seq<char>
    decreases s.len(),
{
    if s.len() == 0 {
        seq![]
    } else {
        like_escaped(s.drop_last()) + like_escaped_char(s.last())
    }
}

/// Escapes the `LIKE` wildcards of a search text so that it matches itself.
pub fn escape_like_pattern(value: &str) -> (r: String)
    ensures
        r@ == like_escaped(value@),
{
    let v = chars_of(value);
    let mut out = String::new();
    let mut i: usize = 0;
    while i < v.len()
        invariant
            i <= v@.len(),
            v@ == value@,
            out@ == like_escaped(v@.take(i as int)),
        decreases v@.len() - i,
    {
        let c = v[i];
        if c == '\\' || c == '%' || c == '_' {
            crate::text::push_char(&mut out, '\\');
        }
        crate::text::push_char(&mut out, c);
        assert(v@.take(i + 1).drop_last() == v@.take(i as int));
        i = i + 1;
    }
    assert(v@.take(v@.len() as int) == v@);
    out
}

/// The `LIKE` pattern of a title search: the trimmed, escaped text between
/// `%` wildcards.
pub fn search_pattern(search: &str) -> (r: String)
    ensures
        r@ == seq!['%'] + like_escaped(trim(search@)) + seq!['%'],
{
    let mut out = String::new();
    crate::text::push_char(&mut out, '%');
    let trimmed = trim_str(search);
    push_str(&mut out, escape_like_pattern(trimmed.as_str()).as_str());
    crate::text::push_char(&mut out, '%');
    out
}

/// The changes an update makes: the trimmed title, the description and the
/// visibility, each when given.
#[derive(Clone, Debug)]
pub struct MediaChanges {
    pub title: Option<String>,
    pub description: Option<String>,
    pub visibility: Option<Visibility>,
}

/// `media metadata exceeds the configured limit of <maximum> bytes`.
pub open spec fn metadata_limit_message(maximum: nat) -> Seq<char> {
    "media metadata exceeds the configured limit of "@ + decimal(maximum) + " bytes"@
}

/// The checks of a metadata update: at least one field, title and
/// description within the text limit (in bytes, before trimming), and a
/// title that is not blank. Gives the changes to store.
pub fn check_update(request: &UpdateMedia, maximum_text_field_bytes: usize) -> (r: Result<MediaChanges, AppError>)
    ensures
        request.title is None && request.description is None && request.visibility is None ==> (r matches Err(
            AppError::BadRequest(m),
        ) && m@ == "at least one field must be provided"@),
        !(request.title is None && request.description is None && request.visibility is None) ==> {
            let too_long = (request.title is Some && utf8_len(request.title.unwrap()@)
                > maximum_text_field_bytes) || (request.description is Some && utf8_len(
                request.description.unwrap()@,
            ) > maximum_text_field_bytes);
            if too_long {
                r matches Err(AppError::PayloadTooLarge(m)) && m@ == metadata_limit_message(
                    maximum_text_field_bytes as nat,
                )
            } else if request.title is Some && trim(request.title.unwrap()@).len() == 0 {
                r matches Err(AppError::BadRequest(m)) && m@ == "title cannot be empty"@
            } else {
                r matches Ok(c) && crate::text::opt_text(c.title) == (match request.title {
                    Some(t) => Some(trim(t@)),
                    None => None,
                }) && crate::text::opt_text(c.description) == crate::text::opt_text(
                    request.description,
                ) && c.visibility == request.visibility
            }
        },
{
    if request.title.is_none() && request.description.is_none() && request.visibility.is_none() {
        return Err(AppError::BadRequest("at least one field must be provided".to_owned()));
    }
    let title_too_long = match &request.title {
        Some(t) => byte_len(t.as_str()) > maximum_text_field_bytes,
        None => false,
    };
    let description_too_long = match &request.description {
        Some(d) => byte_len(d.as_str()) > maximum_text_field_bytes,
        None => false,
    };
    if title_too_long || description_too_long {
        let mut m = "media metadata exceeds the configured limit of ".to_owned();
        crate::text::push_decimal(&mut m, maximum_text_field_bytes as u64);
        push_str(&mut m, " bytes");
        return Err(AppError::PayloadTooLarge(m));
    }
    let title = match &request.title {
        Some(t) => {
            let trimmed = trim_str(t.as_str());
            if chars_of(trimmed.as_str()).len() == 0 {
                return Err(AppError::BadRequest("title cannot be empty".to_owned()));
            }
            Some(trimmed)
        },
        None => None,
    };
    let description = match &request.description {
        Some(d) => Some(d.as_str().to_owned()),
        None => None,
    };
    Ok(MediaChanges { title, description, visibility: request.visibility })
}

/// The JSON payload of a remote import job: `{"url":<url>}`.
pub open spec fn remote_payload(url: Seq<char>) -> Seq<char> {
    "{\"url\":"@ + json_string(url) + "}"@
}

/// Builds the JSON payload of a remote import job.
pub fn remote_payload_json(url: &str) -> (r: String)
    ensures
        r@ == remote_payload(url@),
{
    let mut out = "{\"url\":".to_owned();
    push_str(&mut out, json_string_literal(url).as_str());
    push_str(&mut out, "}");
    out
}

/// How a failed media is retried: the job to queue, its payload, and the
/// status the media returns to.
#[derive(Clone, Debug)]
pub struct RetryPlan {
    pub kind: JobKind,
    pub payload: String,
    pub status: MediaStatus,
}

/// The retry of a media: only failed media can be retried; one with a
/// stored source is transcoded again (status `queued`), one without is
/// imported again from its source URL (status `importing`), which it must
/// have.
pub fn plan_retry(record: &MediaRecord, source_url: Option<&str>) -> (r: Result<RetryPlan, AppError>)
    ensures
        record.status@ != "failed"@ ==> (r matches Err(AppError::Conflict(m)) && m@ == "only failed media can be retried"@),
        record.status@ == "failed"@ && record.original_object_key is Some ==> (r matches Ok(p) && p.kind
            == JobKind::Transcode && p.payload@ == "{}"@ && p.status == MediaStatus::Queued),
        record.status@ == "failed"@ && record.original_object_key is None ==> match source_url {
            Some(url) => r matches Ok(p) && p.kind == JobKind::RemoteImport && p.payload@ == remote_payload(url@)
                && p.status == MediaStatus::Importing,
            None => r matches Err(AppError::Conflict(m)) && m@ == "failed remote import has no source URL"@,
        },
{
    if !str_equal(record.status.as_str(), "failed") {
        return Err(AppError::Conflict("only failed media can be retried".to_owned()));
    }
    if record.original_object_key.is_some() {
        return Ok(RetryPlan { kind: JobKind::Transcode, payload: "{}".to_owned(), status: MediaStatus::Queued });
    }
    match source_url {
        Some(url) => Ok(
            RetryPlan { kind: JobKind::RemoteImport, payload: remote_payload_json(url), status: MediaStatus::Importing },
        ),
        None => Err(AppError::Conflict("failed remote import has no source URL".to_owned())),
    }
}

} // verus!
