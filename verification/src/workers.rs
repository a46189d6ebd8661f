//! The background workers' decisions: what becomes of a finished job, the
//! steps of a remote import and of a transcode, and what retention removes.
//! The workers themselves (database, network, files, timers) are run by the
//! caller, which hands each answer back here.
use vstd::prelude::*;

use crate::config::{AnalyticsConfig, RemoteImportConfig, UploadConfig};
use crate::cookie::header_text;
use crate::crypto::UploadDigest;
use crate::links::{join_url, joined_url, parse_url, parsed_url, UrlParts};
use crate::domain::JobKind;
use crate::text::{
    before_first, chars_of, decimal, find_char, push_decimal, push_str, str_equal, string_from, sub_vec,
    texts, trim, trim_chars, TrimSet,
};

verus! {

/// A job a worker has claimed.
#[derive(Clone, Debug)]
pub struct ClaimedJob {
    pub id: String,
    pub media_id: String,
    pub kind: JobKind,
    pub payload_json: String,
    pub attempts: i64,
    pub maximum_attempts: i64,
    pub locked_by: String,
}

/// The kind of a claimed job, as stored.
pub fn claimed_kind(kind: &str) -> (r: Result<JobKind, String>)
    ensures
        match JobKind::from_text(kind@) {
            Some(k) => r == Ok::<JobKind, String>(k),
            None => r matches Err(m) && m@ == "database contains an unsupported media job kind"@,
        },
{
    match JobKind::parse(kind) {
        Some(k) => Ok(k),
        None => Err("database contains an unsupported media job kind".to_owned()),
    }
}

/// `<job id>-<worker>`: the name a job's temporary files carry.
pub fn job_scratch_name(job: &ClaimedJob) -> (r: String)
    ensures
        r@ == job.id@ + "-"@ + job.locked_by@,
{
    let mut s = job.id.as_str().to_owned();
    push_str(&mut s, "-");
    push_str(&mut s, job.locked_by.as_str());
    s
}

// ---------------------------------------------------------------------------
// Finishing jobs.
// ---------------------------------------------------------------------------

/// What becomes of a job once it ran.
#[derive(Clone, Copy, Debug, PartialEq, Eq, Structural)]
pub enum JobFinish {
    /// It succeeded.
    Succeeded,
    /// It failed while its media was being deleted: it is cancelled.
    Cancelled,
    /// It failed with attempts left: it runs again after this many seconds.
    Retry { delay_seconds: i64 },
    /// It failed for good; the media is marked failed too unless the job
    /// was a deletion.
    Failed { mark_media_failed: bool },
}

/// Whether the caller must ask if the media of a failed job is being
/// deleted (only failures of jobs other than deletions are cancelled so).
pub fn needs_deletion_check(kind: JobKind, succeeded: bool) -> (r: bool)
    ensures
        r == (!succeeded && kind != JobKind::Delete),
{
    !succeeded && kind != JobKind::Delete
}

/// `2^e`.
pub open spec fn two_to(e: nat) -> int
    decreases e,
{
    if e == 0 {
        1
    } else {
        2 * two_to((e - 1) as nat)
    }
}

/// The doubling of the retry delay after `attempts` attempts: one less than
/// the attempts made, at most 30 (also 30 for a count below one).
pub open spec fn retry_exponent(attempts: int) -> nat {
    if attempts < 1 {
        30
    } else if attempts - 1 > 30 {
        30
    } else {
        (attempts - 1) as nat
    }
}

/// The delay before a retry: the base delay doubled once per earlier
/// attempt (at most 30 times), saturated to the `i64` range.
pub open spec fn retry_delay(attempts: int, base_delay_seconds: int) -> int {
    let product = base_delay_seconds * two_to(retry_exponent(attempts));
    if product > i64::MAX {
        i64::MAX as int
    } else if product < i64::MIN {
        i64::MIN as int
    } else {
        product
    }
}

proof fn lemma_two_to_positive(e: nat)
    ensures
        1 <= two_to(e),
    decreases e,
{
    if e > 0 {
        lemma_two_to_positive((e - 1) as nat);
    }
}

proof fn lemma_two_to_monotone(a: nat, b: nat)
    requires
        a <= b,
    ensures
        two_to(a) <= two_to(b),
    decreases b,
{
    if a < b {
        lemma_two_to_monotone(a, (b - 1) as nat);
        lemma_two_to_positive((b - 1) as nat);
    }
}

proof fn lemma_two_to_bounds(e: nat)
    ensures
        1 <= two_to(e),
        e <= 30 ==> two_to(e) <= 0x4000_0000,
{
    lemma_two_to_positive(e);
    if e <= 30 {
        lemma_two_to_monotone(e, 30);
        assert(two_to(30) == 0x4000_0000) by {
            reveal_with_fuel(two_to, 31);
        }
    }
}

/// What becomes of a job once it ran: success; cancellation when it failed
/// while its media is being deleted; a retry after the backoff delay while
/// attempts are left; failure otherwise.
pub fn finish_decision(job: &ClaimedJob, succeeded: bool, deletion_requested: bool, retry_base_delay_seconds: i64) -> (r: JobFinish)
    ensures
        succeeded ==> r == JobFinish::Succeeded,
        !succeeded && job.kind != JobKind::Delete && deletion_requested ==> r == JobFinish::Cancelled,
        !succeeded && !(job.kind != JobKind::Delete && deletion_requested) ==> if job.attempts < job.maximum_attempts {
            r == JobFinish::Retry { delay_seconds: retry_delay(job.attempts as int, retry_base_delay_seconds as int) as i64 }
        } else {
            r == JobFinish::Failed { mark_media_failed: job.kind != JobKind::Delete }
        },
        !succeeded && !(job.kind != JobKind::Delete && deletion_requested) && job.attempts < job.maximum_attempts
            && 1 <= job.attempts <= 31 && retry_base_delay_seconds >= 0 ==> ({
            let product = retry_base_delay_seconds * vstd::arithmetic::power::pow(2, (job.attempts - 1) as nat);
            r == JobFinish::Retry {
                delay_seconds: if product > i64::MAX {
                    i64::MAX
                } else {
                    product as i64
                },
            }
        }),
{
    proof {
        if 1 <= job.attempts <= 31 {
            lemma_retry_delay_is_doubling(job.attempts as int, retry_base_delay_seconds as int);
            lemma_two_to_is_pow((job.attempts - 1) as nat);
            lemma_two_to_positive((job.attempts - 1) as nat);
            let p = two_to((job.attempts - 1) as nat);
            assert(retry_base_delay_seconds >= 0 ==> retry_base_delay_seconds * p >= 0) by (nonlinear_arith)
                requires
                    p >= 1,
            ;
        }
    }
    if succeeded {
        return JobFinish::Succeeded;
    }
    if job.kind != JobKind::Delete && deletion_requested {
        return JobFinish::Cancelled;
    }
    if job.attempts < job.maximum_attempts {
        let exponent: u32 = if job.attempts < 1 {
            30
        } else if job.attempts - 1 > 30 {
            30
        } else {
            (job.attempts - 1) as u32
        };
        let mut multiplier: i64 = 1;
        let mut k: u32 = 0;
        proof {
            lemma_two_to_bounds(exponent as nat);
        }
        while k < exponent
            invariant
                k <= exponent <= 30,
                multiplier == two_to(k as nat),
            decreases exponent - k,
        {
            proof {
                lemma_two_to_bounds((k + 1) as nat);
            }
            multiplier = multiplier * 2;
            k = k + 1;
        }
        let base = retry_base_delay_seconds as i128;
        let m = multiplier as i128;
        assert(-0x8000_0000_0000_0000 * 0x4000_0000 <= base * m <= 0x7fff_ffff_ffff_ffff * 0x4000_0000) by (nonlinear_arith)
            requires
                -0x8000_0000_0000_0000 <= base <= 0x7fff_ffff_ffff_ffff,
                1 <= m <= 0x4000_0000,
        ;
        let product: i128 = base * m;
        let delay: i64 = if product > i64::MAX as i128 {
            i64::MAX
        } else if product < i64::MIN as i128 {
            i64::MIN
        } else {
            product as i64
        };
        JobFinish::Retry { delay_seconds: delay }
    } else {
        JobFinish::Failed { mark_media_failed: job.kind != JobKind::Delete }
    }
}

/// Retry delays never shrink as attempts accumulate (for a base delay of
/// zero or more): each retry waits at least as long as the one before.
pub proof fn lemma_retry_delay_grows(a: int, b: int, base_delay_seconds: int)
    requires
        1 <= a <= b,
        base_delay_seconds >= 0,
    ensures
        retry_delay(a, base_delay_seconds) <= retry_delay(b, base_delay_seconds),
{
    lemma_two_to_monotone(retry_exponent(a), retry_exponent(b));
    let pa = two_to(retry_exponent(a));
    let pb = two_to(retry_exponent(b));
    assert(base_delay_seconds * pa <= base_delay_seconds * pb) by (nonlinear_arith)
        requires
            base_delay_seconds >= 0,
            pa <= pb,
    ;
}

proof fn lemma_two_to_is_pow(e: nat)
    ensures
        two_to(e) == vstd::arithmetic::power::pow(2, e),
    decreases e,
{
    reveal(vstd::arithmetic::power::pow);
    if e > 0 {
        lemma_two_to_is_pow((e - 1) as nat);
    }
}

/// Before the cap, the retry after the `attempts`-th attempt waits the base
/// delay doubled `attempts - 1` times: `base * 2^(attempts - 1)` seconds,
/// saturated to the `i64` range.
pub proof fn lemma_retry_delay_is_doubling(attempts: int, base_delay_seconds: int)
    requires
        1 <= attempts <= 31,
    ensures
        ({
            let product = base_delay_seconds * vstd::arithmetic::power::pow(2, (attempts - 1) as nat);
            retry_delay(attempts, base_delay_seconds) == if product > i64::MAX {
                i64::MAX as int
            } else if product < i64::MIN {
                i64::MIN as int
            } else {
                product
            }
        }),
{
    assert(retry_exponent(attempts) == (attempts - 1) as nat);
    lemma_two_to_is_pow((attempts - 1) as nat);
}

/// Each further attempt at most doubles the retry delay, and never shortens
/// it (for a base delay of zero or more).
pub proof fn lemma_retry_delay_at_most_doubles(attempts: int, base_delay_seconds: int)
    requires
        attempts >= 1,
        base_delay_seconds >= 0,
    ensures
        retry_delay(attempts, base_delay_seconds) <= retry_delay(attempts + 1, base_delay_seconds),
        retry_delay(attempts + 1, base_delay_seconds) <= 2 * retry_delay(attempts, base_delay_seconds),
{
    lemma_retry_delay_grows(attempts, attempts + 1, base_delay_seconds);
    let ea = retry_exponent(attempts);
    let eb = retry_exponent(attempts + 1);
    lemma_two_to_positive(ea);
    let pa = two_to(ea);
    let pb = two_to(eb);
    if attempts <= 30 {
        assert(eb == ea + 1);
        assert(pb == 2 * pa);
        assert(base_delay_seconds * pb == 2 * (base_delay_seconds * pa)) by (nonlinear_arith)
            requires
                pb == 2 * pa,
        ;
        assert(base_delay_seconds * pa >= 0) by (nonlinear_arith)
            requires
                base_delay_seconds >= 0,
                pa >= 1,
        ;
    } else {
        assert(eb == ea);
    }
}

/// The delay never exceeds 2^30 times the base delay (for a base delay of
/// zero or more within range).
pub proof fn lemma_retry_delay_capped(attempts: int, base_delay_seconds: int)
    requires
        0 <= base_delay_seconds,
    ensures
        retry_delay(attempts, base_delay_seconds) <= base_delay_seconds * 0x4000_0000,
        retry_delay(attempts, base_delay_seconds) >= base_delay_seconds || retry_delay(attempts, base_delay_seconds) == i64::MAX,
{
    lemma_two_to_bounds(retry_exponent(attempts));
    let p = two_to(retry_exponent(attempts));
    assert(base_delay_seconds <= base_delay_seconds * p <= base_delay_seconds * 0x4000_0000) by (nonlinear_arith)
        requires
            base_delay_seconds >= 0,
            1 <= p <= 0x4000_0000,
    ;
}

// ---------------------------------------------------------------------------
// Remote imports.
// ---------------------------------------------------------------------------

/// Whether a remote import has nothing left to do (its media already has a
/// source and is queued, processing or ready); an import of media in any
/// status other than `importing` is an error.
pub fn remote_import_start(original_object_key: &Option<String>, media_status: &str) -> (r: Result<bool, String>)
    ensures
        original_object_key is Some && (media_status@ == "queued"@ || media_status@ == "processing"@
            || media_status@ == "ready"@) ==> r == Ok::<bool, String>(true),
        !(original_object_key is Some && (media_status@ == "queued"@ || media_status@ == "processing"@
            || media_status@ == "ready"@)) ==> if media_status@ == "importing"@ {
            r == Ok::<bool, String>(false)
        } else {
            r matches Err(m) && m@ == "remote import media has invalid status "@ + media_status@
        },
{
    if original_object_key.is_some() && (str_equal(media_status, "queued") || str_equal(media_status, "processing")
        || str_equal(media_status, "ready")) {
        return Ok(true);
    }
    if !str_equal(media_status, "importing") {
        let mut m = "remote import media has invalid status ".to_owned();
        push_str(&mut m, media_status);
        return Err(m);
    }
    Ok(false)
}

/// The URL a remote import job downloads, read from its payload; a text
/// that does not parse fails the job.
pub fn remote_source_url(payload_url: &str) -> (r: Result<UrlParts, String>)
    ensures
        match parsed_url(payload_url@) {
            Ok(t) => r matches Ok(p) && p.agrees(t),
            Err(m) => r matches Err(e) && e@ == "parse remote import URL: "@ + m,
        },
{
    match parse_url(payload_url) {
        Ok(parts) => Ok(parts),
        Err(m) => {
            let mut e = "parse remote import URL: ".to_owned();
            push_str(&mut e, m.as_str());
            Err(e)
        },
    }
}

/// What to do with a response of a remote server.
#[derive(Clone, Debug)]
pub enum ResponseStep {
    /// Follow the redirect to this URL.
    Follow(UrlParts),
    /// Download the body.
    Download,
}

/// The text of an HTTP status as `axum::http::StatusCode` displays it (the
/// code and its canonical reason).
pub uninterp spec fn http_status_text(code: u16) -> Seq<char>;

/// Displays a status with `axum::http::StatusCode::from_u16` and its
/// `Display`; the contract claims only that the result is the one named by
/// `http_status_text`. Codes outside 100..=999 are not statuses.
#[verifier::external_body]
fn status_text(code: u16) -> (r: String)
    requires
        100 <= code <= 999,
    ensures
        r@ == http_status_text(code),
{
    match axum::http::StatusCode::from_u16(code) {
        Ok(status) => status.to_string(),
        Err(_) => String::new(),
    }
}

/// What to do with a response of status `status` to a request for
/// `current`, after `redirects` redirects: follow a redirect (3xx) while the
/// limit allows, to its `Location` resolved against `current`; download a
/// success (2xx); anything else is an error.
pub fn response_step(
    current: &UrlParts,
    status: u16,
    redirects: usize,
    maximum_redirects: usize,
    location: Option<&[u8]>,
) -> (r: Result<ResponseStep, String>)
    requires
        100 <= status <= 999,
    ensures
        300 <= status <= 399 ==> if redirects >= maximum_redirects {
            r matches Err(m) && m@ == "remote import exceeded the configured redirect limit"@
        } else {
            match location {
                Some(bytes) => match header_text(bytes@) {
                    Some(text) => match joined_url(current.text@, text) {
                        Ok(t) => r matches Ok(ResponseStep::Follow(next)) && next.agrees(t),
                        Err(m) => r matches Err(e) && e@ == "resolve remote redirect: "@ + m,
                    },
                    None => r matches Err(m) && m@ == "remote redirect has no valid Location header"@,
                },
                None => r matches Err(m) && m@ == "remote redirect has no valid Location header"@,
            }
        },
        200 <= status <= 299 ==> r matches Ok(ResponseStep::Download),
        !(300 <= status <= 399) && !(200 <= status <= 299) ==> (r matches Err(m) && m@ == "remote server returned HTTP "@
            + http_status_text(status)),
{
    if 300 <= status && status <= 399 {
        if redirects >= maximum_redirects {
            return Err("remote import exceeded the configured redirect limit".to_owned());
        }
        let text = match location {
            Some(bytes) => crate::cookie::visible_header_text(bytes),
            None => None,
        };
        let location = match text {
            Some(t) => t,
            None => return Err("remote redirect has no valid Location header".to_owned()),
        };
        return match join_url(current.text.as_str(), location.as_str()) {
            Ok(next) => Ok(ResponseStep::Follow(next)),
            Err(m) => {
                let mut e = "resolve remote redirect: ".to_owned();
                push_str(&mut e, m.as_str());
                Err(e)
            },
        };
    }
    if 200 <= status && status <= 299 {
        return Ok(ResponseStep::Download);
    }
    let mut m = "remote server returned HTTP ".to_owned();
    push_str(&mut m, status_text(status).as_str());
    Err(m)
}

/// A declared length beyond the limit refuses the download at once.
pub fn check_content_length(length: Option<u64>, remote: &RemoteImportConfig) -> (r: Result<(), String>)
    ensures
        (length is Some && length.unwrap() > remote.maximum_source_bytes) ==> (r matches Err(m) && m@
            == "remote source exceeds the configured size limit"@),
        !(length is Some && length.unwrap() > remote.maximum_source_bytes) ==> r is Ok,
{
    if let Some(l) = length {
        if l > remote.maximum_source_bytes {
            return Err("remote source exceeds the configured size limit".to_owned());
        }
    }
    Ok(())
}

/// The content type of a remote source: the `Content-Type` header before
/// any `;`, trimmed, or the configured default when it is absent, unreadable
/// or empty.
pub open spec fn remote_mime(content_type: Option<Seq<u8>>, uploads: UploadConfig) -> Seq<char> {
    match content_type {
        Some(bytes) => match header_text(bytes) {
            Some(text) => {
                let value = trim(before_first(text, ';'));
                if value.len() > 0 {
                    value
                } else {
                    uploads.default_content_type@
                }
            },
            None => uploads.default_content_type@,
        },
        None => uploads.default_content_type@,
    }
}

/// The content type of a remote source, which must be accepted.
pub fn remote_mime_type(content_type: Option<&[u8]>, uploads: &UploadConfig) -> (r: Result<String, String>)
    ensures
        ({
            let mime = remote_mime(
                match content_type {
                    Some(b) => Some(b@),
                    None => None,
                },
                *uploads,
            );
            if texts(uploads.accepted_content_types@).contains(mime) {
                r matches Ok(m) && m@ == mime
            } else {
                r matches Err(e) && e@ == "remote source content type "@ + mime + " is not accepted"@
            }
        }),
{
    let text = match content_type {
        Some(bytes) => crate::cookie::visible_header_text(bytes),
        None => None,
    };
    let mime = match text {
        Some(t) => {
            let v = chars_of(t.as_str());
            let end = find_char(&v, 0, ';');
            assert(v@.skip(0) == v@);
            let head = sub_vec(&v, 0, end);
            let value = trim_chars(&head, TrimSet::Whitespace);
            if value.len() > 0 {
                crate::text::string_of(&value)
            } else {
                uploads.default_content_type.as_str().to_owned()
            }
        },
        None => uploads.default_content_type.as_str().to_owned(),
    };
    if !accepted_type(uploads, mime.as_str()) {
        let mut e = "remote source content type ".to_owned();
        push_str(&mut e, mime.as_str());
        push_str(&mut e, " is not accepted");
        return Err(e);
    }
    Ok(mime)
}

fn accepted_type(uploads: &UploadConfig, mime: &str) -> (r: bool)
    ensures
        r == texts(uploads.accepted_content_types@).contains(mime@),
{
    let mut i: usize = 0;
    while i < uploads.accepted_content_types.len()
        invariant
            i <= uploads.accepted_content_types@.len(),
            forall|k: int| 0 <= k < i ==> uploads.accepted_content_types@[k]@ != mime@,
        decreases uploads.accepted_content_types@.len() - i,
    {
        if str_equal(uploads.accepted_content_types[i].as_str(), mime) {
            assert(texts(uploads.accepted_content_types@)[i as int] == mime@);
            return true;
        }
        i = i + 1;
    }
    proof {
        let t = texts(uploads.accepted_content_types@);
        if t.contains(mime@) {
            let k = choose|k: int| 0 <= k < t.len() && t[k] == mime@;
            assert(uploads.accepted_content_types@[k]@ == mime@);
        }
    }
    false
}

/// One more chunk of a download: when the download stays within the limit
/// the chunk is fed to its digest and the new size is given; otherwise the
/// import fails (the caller removes the partial file) and the digest is left
/// as it was. A size that counted the bytes fed keeps counting them.
pub fn accept_remote_chunk(size: u64, digest: &mut UploadDigest, chunk: &[u8], remote: &RemoteImportConfig) -> (r:
    Result<u64, String>)
    ensures
        ({
            let total = if size + chunk@.len() > u64::MAX {
                u64::MAX as int
            } else {
                size + chunk@.len()
            };
            if total > remote.maximum_source_bytes {
                &&& r matches Err(m) && m@ == "remote source exceeds the configured size limit"@
                &&& final(digest).bytes() == old(digest).bytes()
            } else {
                &&& r == Ok::<u64, String>(total as u64)
                &&& final(digest).bytes() == old(digest).bytes() + chunk@
            }
        }),
        r is Ok && size == old(digest).bytes().len() && size + chunk@.len() <= u64::MAX ==> r->Ok_0
            == final(digest).bytes().len(),
{
    let total = size.saturating_add(chunk.len() as u64);
    if total > remote.maximum_source_bytes {
        return Err("remote source exceeds the configured size limit".to_owned());
    }
    digest.update(chunk);
    Ok(total)
}

/// The size of a finished download, which must reach the configured
/// minimum and fit a SQLite integer.
pub fn check_remote_size(size: u64, uploads: &UploadConfig) -> (r: Result<i64, String>)
    ensures
        size < uploads.minimum_source_bytes ==> (r matches Err(m) && m@ == "remote source must contain at least "@
            + decimal(uploads.minimum_source_bytes as nat) + " bytes"@),
        size >= uploads.minimum_source_bytes && size > i64::MAX ==> (r matches Err(m) && m@
            == "remote source size exceeds SQLite limits"@),
        size >= uploads.minimum_source_bytes && size <= i64::MAX ==> r == Ok::<i64, String>(size as i64),
{
    if size < uploads.minimum_source_bytes {
        let mut m = "remote source must contain at least ".to_owned();
        push_decimal(&mut m, uploads.minimum_source_bytes);
        push_str(&mut m, " bytes");
        return Err(m);
    }
    if size > i64::MAX as u64 {
        return Err("remote source size exceeds SQLite limits".to_owned());
    }
    Ok(size as i64)
}

/// The status of a media once its source is stored: queued for transcoding
/// when it is enabled, ready otherwise.
pub fn status_after_import(transcoding_enabled: bool) -> (r: &'static str)
    ensures
        transcoding_enabled ==> r@ == "queued"@,
        !transcoding_enabled ==> r@ == "ready"@,
{
    if transcoding_enabled {
        "queued"
    } else {
        "ready"
    }
}

// ---------------------------------------------------------------------------
// Transcoding.
// ---------------------------------------------------------------------------

/// Whether a transcode has nothing left to do (its media is ready and has
/// renditions); media in a status other than `queued`, `failed`,
/// `processing` or `ready` is an error. `variant_count` is the number of
/// renditions, asked for ready media only.
pub fn transcode_start(status: &str, variant_count: Option<i64>) -> (r: Result<bool, String>)
    ensures
        status@ == "ready"@ ==> r == Ok::<bool, String>(variant_count is Some && variant_count.unwrap() > 0),
        status@ != "ready"@ && (status@ == "queued"@ || status@ == "failed"@ || status@ == "processing"@)
            ==> r == Ok::<bool, String>(false),
        status@ != "ready"@ && !(status@ == "queued"@ || status@ == "failed"@ || status@ == "processing"@)
            ==> (r matches Err(m) && m@ == "transcode media has invalid status "@ + status@),
{
    if str_equal(status, "ready") {
        return Ok(match variant_count {
            Some(n) => n > 0,
            None => false,
        });
    }
    if str_equal(status, "queued") || str_equal(status, "failed") || str_equal(status, "processing") {
        return Ok(false);
    }
    let mut m = "transcode media has invalid status ".to_owned();
    push_str(&mut m, status);
    Err(m)
}

/// The storage a transcoded media takes: its renditions, plus its source
/// when the source is kept (saturating at the `i64` range).
pub fn target_storage(retain_original: bool, source_size: i64, generated_size: u64) -> (r: Result<i64, String>)
    ensures
        generated_size > i64::MAX ==> (r matches Err(m) && m@ == "generated media size exceeds SQLite limits"@),
        generated_size <= i64::MAX ==> r == Ok::<i64, String>(({
            let sum = (if retain_original {
                source_size as int
            } else {
                0
            }) + generated_size;
            if sum > i64::MAX {
                i64::MAX as int
            } else if sum < i64::MIN {
                i64::MIN as int
            } else {
                sum
            }
        }) as i64),
{
    if generated_size > i64::MAX as u64 {
        return Err("generated media size exceeds SQLite limits".to_owned());
    }
    let retained: i64 = if retain_original {
        source_size
    } else {
        0
    };
    let sum: i128 = (retained as i128) + (generated_size as i128);
    Ok(if sum > i64::MAX as i128 {
        i64::MAX
    } else if sum < i64::MIN as i128 {
        i64::MIN
    } else {
        sum as i64
    })
}

// ---------------------------------------------------------------------------
// Retention.
// ---------------------------------------------------------------------------

/// How many days of data a retention setting keeps: nothing is removed for
/// 0, and a count beyond the `i64` range is an error.
pub fn retention_days(days: u64) -> (r: Result<Option<i64>, String>)
    ensures
        days == 0 ==> r == Ok::<Option<i64>, String>(None),
        0 < days <= i64::MAX ==> r == Ok::<Option<i64>, String>(Some(days as i64)),
        days > i64::MAX ==> (r matches Err(m) && m@ == "out of range integral type conversion attempted"@),
{
    if days == 0 {
        return Ok(None);
    }
    if days > i64::MAX as u64 {
        return Err("out of range integral type conversion attempted".to_owned());
    }
    Ok(Some(days as i64))
}

/// The retention of raw events and of playback sessions.
pub fn analytics_retention(analytics: &AnalyticsConfig) -> (r: (Result<Option<i64>, String>, Result<Option<i64>, String>))
    ensures
        analytics.raw_event_retention_days == 0 ==> r.0 == Ok::<Option<i64>, String>(None),
        0 < analytics.raw_event_retention_days <= i64::MAX ==> r.0 == Ok::<Option<i64>, String>(
            Some(analytics.raw_event_retention_days as i64),
        ),
        analytics.playback_session_retention_days == 0 ==> r.1 == Ok::<Option<i64>, String>(None),
        0 < analytics.playback_session_retention_days <= i64::MAX ==> r.1 == Ok::<Option<i64>, String>(
            Some(analytics.playback_session_retention_days as i64),
        ),
{
    (retention_days(analytics.raw_event_retention_days), retention_days(analytics.playback_session_retention_days))
}

} // verus!
