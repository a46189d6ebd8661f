//! Watching and streaming: who may watch a media, the player page, byte
//! ranges and the headers of streamed assets.
use vstd::prelude::*;

use crate::application::analytics::PlaybackEventKind;
use crate::application::media::MediaRecord;
use crate::config::{RoutesConfig, StreamingConfig};
use crate::encoding::{json_string, json_string_literal};
use crate::error::AppError;
use crate::path::{all_normal, components, is_absolute, path_components, Component};
use crate::text::{
    chars_of, decimal, ends_with, has_char, has_suffix, parse_u64, parse_u64_chars, push_decimal,
    push_str, replace_all, replace_text, split_once, starts_with, str_equal,
};

verus! {

/// The query of a watch page.
#[derive(Clone, Debug)]
pub struct WatchQuery {
    pub token: Option<String>,
}

/// A player event.
#[derive(Clone, Debug)]
pub struct PlaybackEventRequest {
    pub kind: PlaybackEventKind,
    pub position_ms: i64,
    pub watched_delta_ms: i64,
}

// ---------------------------------------------------------------------------
// Byte ranges.
// ---------------------------------------------------------------------------

/// `start..=end` when it lies within `total` bytes, else `None`.
pub open spec fn checked_range(start: int, end: int, total: int) -> Option<(u64, u64)> {
    if start >= total || start > end {
        None
    } else {
        Some((start as u64, end as u64))
    }
}

/// The byte range a `Range` header text selects in `total` bytes (at least
/// one): `bytes=<start>-<end>`, `bytes=<start>-` (to the end) or
/// `bytes=-<suffix>` (the last bytes); one range only. `None` when it cannot
/// be satisfied.
pub open spec fn range_of(text: Seq<char>, total: u64) -> Option<(u64, u64)> {
    if !starts_with(text, "bytes="@) {
        None
    } else {
        let range = text.skip(6);
        if has_char(range, ',') {
            None
        } else {
            match split_once(range, '-') {
                None => None,
                Some((start_text, end_text)) => if start_text.len() == 0 {
                    match parse_u64(end_text) {
                        None => None,
                        Some(suffix) => if suffix == 0 {
                            None
                        } else {
                            let taken = if suffix < total {
                                suffix as int
                            } else {
                                total as int
                            };
                            checked_range(total - taken, total - 1, total as int)
                        },
                    }
                } else {
                    match parse_u64(start_text) {
                        None => None,
                        Some(start) => if end_text.len() == 0 {
                            checked_range(start as int, total - 1, total as int)
                        } else {
                            match parse_u64(end_text) {
                                None => None,
                                Some(end) => checked_range(
                                    start as int,
                                    if end < total - 1 {
                                        end as int
                                    } else {
                                        total - 1
                                    },
                                    total as int,
                                ),
                            }
                        },
                    }
                },
            }
        }
    }
}

/// No digit is a separator of a range header.
proof fn lemma_decimal_has_no_separator(n: nat)
    ensures
        decimal(n).len() >= 1,
        forall|i: int| 0 <= i < decimal(n).len() ==> #[trigger] decimal(n)[i] != '-' && decimal(n)[i] != ',',
{
    crate::text::lemma_decimal_digits(n);
    assert forall|i: int| 0 <= i < decimal(n).len() implies #[trigger] decimal(n)[i] != '-' && decimal(n)[i] != ',' by {
        assert(crate::text::is_digit(decimal(n)[i]));
    }
}

/// The text after `bytes=` of a header made of that prefix and `rest`.
proof fn lemma_range_text(rest: Seq<char>)
    ensures
        starts_with("bytes="@ + rest, "bytes="@),
        ("bytes="@ + rest).skip(6) == rest,
{
    reveal_strlit("bytes=");
    assert(("bytes="@ + rest).take(6) =~= "bytes="@);
    assert(("bytes="@ + rest).skip(6) =~= rest);
}

/// `bytes=<start>-<end>` selects the bytes from `start` to `end`, the end
/// cut to the last byte of the asset, whenever `start` lies within the
/// asset and does not pass `end`.
pub proof fn lemma_range_from_to(start: u64, end: u64, total: u64)
    requires
        start < total,
        start <= end,
    ensures
        range_of("bytes="@ + decimal(start as nat) + "-"@ + decimal(end as nat), total) == Some(
            (start, if end < total { end } else { (total - 1) as u64 }),
        ),
{
    reveal_strlit("-");
    let ds = decimal(start as nat);
    let de = decimal(end as nat);
    let rest = ds + seq!['-'] + de;
    assert("bytes="@ + ds + "-"@ + de =~= "bytes="@ + rest);
    lemma_range_text(rest);
    lemma_decimal_has_no_separator(start as nat);
    lemma_decimal_has_no_separator(end as nat);
    assert forall|i: int| 0 <= i < rest.len() implies #[trigger] rest[i] != ',' by {
        if i < ds.len() {
            assert(rest[i] == ds[i]);
        } else if i > ds.len() {
            assert(rest[i] == de[i - ds.len() - 1]);
        }
    }
    assert(!has_char(rest, ','));
    crate::text::lemma_split_once_at(ds, '-', de);
    crate::text::lemma_parse_decimal(start);
    crate::text::lemma_parse_decimal(end);
}

/// `bytes=<start>-` selects the bytes from `start` to the last byte of the
/// asset, whenever `start` lies within it.
pub proof fn lemma_range_from(start: u64, total: u64)
    requires
        start < total,
    ensures
        range_of("bytes="@ + decimal(start as nat) + "-"@, total) == Some((start, (total - 1) as u64)),
{
    reveal_strlit("-");
    let ds = decimal(start as nat);
    let e = Seq::<char>::empty();
    let rest = ds + seq!['-'] + e;
    assert("bytes="@ + ds + "-"@ =~= "bytes="@ + rest);
    lemma_range_text(rest);
    lemma_decimal_has_no_separator(start as nat);
    assert forall|i: int| 0 <= i < rest.len() implies #[trigger] rest[i] != ',' by {
        if i < ds.len() {
            assert(rest[i] == ds[i]);
        }
    }
    assert(!has_char(rest, ','));
    crate::text::lemma_split_once_at(ds, '-', e);
    crate::text::lemma_parse_decimal(start);
}

/// `bytes=-<n>` selects the last `n` bytes of the asset (all of them when
/// it has fewer), for `n` of one or more.
pub proof fn lemma_range_suffix(n: u64, total: u64)
    requires
        n >= 1,
        total >= 1,
    ensures
        range_of("bytes=-"@ + decimal(n as nat), total) == Some(
            ((if n < total { total - n } else { 0 }) as u64, (total - 1) as u64),
        ),
{
    reveal_strlit("bytes=-");
    reveal_strlit("bytes=");
    let dn = decimal(n as nat);
    let e = Seq::<char>::empty();
    let rest = e + seq!['-'] + dn;
    assert("bytes=-"@ + dn =~= "bytes="@ + rest);
    lemma_range_text(rest);
    lemma_decimal_has_no_separator(n as nat);
    assert forall|i: int| 0 <= i < rest.len() implies #[trigger] rest[i] != ',' by {
        if i > 0 {
            assert(rest[i] == dn[i - 1]);
        }
    }
    assert(!has_char(rest, ','));
    crate::text::lemma_split_once_at(e, '-', dn);
    crate::text::lemma_parse_decimal(n);
}

/// The byte range a request asks for, given the raw value of its `Range`
/// header: `None` without the header; a range that cannot be satisfied
/// (also any range of an empty asset, and a header that is not visible
/// ASCII) is an error.
pub fn parse_range(value: Option<&[u8]>, total: u64) -> (r: Result<Option<(u64, u64)>, AppError>)
    ensures
        value is None ==> r == Ok::<Option<(u64, u64)>, AppError>(None),
        value matches Some(bytes) ==> match crate::cookie::header_text(bytes@) {
            Some(text) => if total > 0 && range_of(text, total) is Some {
                r == Ok::<Option<(u64, u64)>, AppError>(range_of(text, total))
            } else {
                r matches Err(AppError::RangeNotSatisfiable)
            },
            None => r matches Err(AppError::RangeNotSatisfiable),
        },
        r matches Ok(Some((start, end))) ==> start <= end < total,
{
    let bytes = match value {
        Some(b) => b,
        None => return Ok(None),
    };
    if total == 0 {
        return Err(AppError::RangeNotSatisfiable);
    }
    let text = match crate::cookie::visible_header_text(bytes) {
        Some(t) => t,
        None => return Err(AppError::RangeNotSatisfiable),
    };
    let v = chars_of(text.as_str());
    proof {
        reveal_strlit("bytes=");
    }
    if !crate::text::has_prefix(&v, "bytes=") {
        return Err(AppError::RangeNotSatisfiable);
    }
    let ghost range = v@.skip(6);
    if crate::text::contains_char(&crate::text::sub_vec(&v, 6, v.len()), ',') {
        return Err(AppError::RangeNotSatisfiable);
    }
    let dash = crate::text::find_char(&v, 6, '-');
    proof {
        crate::text::lemma_first_pos(range, '-');
        assert(v@.subrange(6, v@.len() as int) == range);
    }
    if dash == v.len() {
        return Err(AppError::RangeNotSatisfiable);
    }
    assert(range.take(dash - 6) == v@.subrange(6, dash as int));
    assert(range.skip(dash - 6 + 1) == v@.subrange(dash + 1, v@.len() as int));
    let (start, end) = if dash == 6 {
        let suffix = match parse_u64_chars(&v, dash + 1, v.len()) {
            Some(s) => s,
            None => return Err(AppError::RangeNotSatisfiable),
        };
        if suffix == 0 {
            return Err(AppError::RangeNotSatisfiable);
        }
        let taken = if suffix < total {
            suffix
        } else {
            total
        };
        (total - taken, total - 1)
    } else {
        let start = match parse_u64_chars(&v, 6, dash) {
            Some(s) => s,
            None => return Err(AppError::RangeNotSatisfiable),
        };
        let end = if dash + 1 == v.len() {
            total - 1
        } else {
            match parse_u64_chars(&v, dash + 1, v.len()) {
                Some(e) => if e < total - 1 {
                    e
                } else {
                    total - 1
                },
                None => return Err(AppError::RangeNotSatisfiable),
            }
        };
        (start, end)
    };
    if start >= total || start > end {
        return Err(AppError::RangeNotSatisfiable);
    }
    Ok(Some((start, end)))
}

/// The part of an asset a response sends.
#[derive(Clone, Copy, Debug)]
pub struct ServedRange {
    pub start: u64,
    pub end: u64,
    /// Whether this is a partial response (206 with `Content-Range`).
    pub partial: bool,
    /// The number of bytes sent.
    pub length: u64,
}

/// The part of an asset of `total` bytes a response sends: the selected
/// range, or the whole asset.
pub fn served_range(selected: Option<(u64, u64)>, total: u64) -> (r: ServedRange)
    requires
        selected matches Some((s, e)) ==> s <= e < total,
    ensures
        match selected {
            Some((s, e)) => r.start == s && r.end == e && r.partial && r.length == e - s + 1,
            None => r.start == 0 && r.end == (if total == 0 {
                0
            } else {
                total - 1
            }) && !r.partial && r.length == total,
        },
{
    match selected {
        Some((start, end)) => ServedRange { start, end, partial: true, length: end - start + 1 },
        None => {
            let end = if total == 0 {
                0
            } else {
                total - 1
            };
            ServedRange { start: 0, end, partial: false, length: if total == 0 {
                0
            } else {
                end + 1
            } }
        },
    }
}

/// The `Content-Range` value of a partial response: `bytes <start>-<end>/<total>`.
pub fn content_range(start: u64, end: u64, total: u64) -> (r: String)
    ensures
        r@ == "bytes "@ + decimal(start as nat) + "-"@ + decimal(end as nat) + "/"@ + decimal(total as nat),
{
    let mut s = "bytes ".to_owned();
    push_decimal(&mut s, start);
    push_str(&mut s, "-");
    push_decimal(&mut s, end);
    push_str(&mut s, "/");
    push_decimal(&mut s, total);
    s
}

// ---------------------------------------------------------------------------
// Checks on the media and its assets.
// ---------------------------------------------------------------------------

/// Only ready media can be watched or streamed.
pub fn ensure_ready(record: &MediaRecord) -> (r: Result<(), AppError>)
    ensures
        r is Ok <==> record.status@ == "ready"@,
        r is Err ==> r matches Err(AppError::MediaNotReady),
{
    if str_equal(record.status.as_str(), "ready") {
        Ok(())
    } else {
        Err(AppError::MediaNotReady)
    }
}

/// A single plain path component: not empty, not absolute, exactly one
/// component, which is a name.
pub open spec fn is_asset_component(s: Seq<char>) -> bool {
    s.len() > 0 && !is_absolute(s) && components(s).len() == 1 && all_normal(s)
}

/// A variant or asset name in a streaming URL must be a single plain path
/// component.
pub fn validate_component(value: &str) -> (r: Result<(), AppError>)
    ensures
        r is Ok <==> is_asset_component(value@),
        r is Err ==> (r matches Err(AppError::BadRequest(m)) && m@ == "invalid media asset path"@),
{
    let v = chars_of(value);
    let parts = path_components(value);
    let ghost views = parts@.map_values(|c: Component| c.view());
    let ok = v.len() > 0 && v[0] != '/' && parts.len() == 1 && match &parts[0] {
        Component::Normal(_) => true,
        _ => false,
    };
    proof {
        if parts@.len() == 1 {
            assert(views[0] == parts@[0].view());
            if ok {
                assert forall|i: int| 0 <= i < components(value@).len() implies crate::path::is_normal(
                    #[trigger] components(value@)[i],
                ) by {
                    assert(i == 0);
                }
            }
        }
    }
    if ok {
        Ok(())
    } else {
        Err(AppError::BadRequest("invalid media asset path".to_owned()))
    }
}

/// The content type of a streamed asset, by its extension.
pub open spec fn asset_content_type(asset: Seq<char>) -> Seq<char> {
    if ends_with(asset, ".m3u8"@) {
        "application/vnd.apple.mpegurl"@
    } else if ends_with(asset, ".m4s"@) {
        "video/iso.segment"@
    } else if ends_with(asset, ".ts"@) {
        "video/mp2t"@
    } else if ends_with(asset, ".mp4"@) {
        "video/mp4"@
    } else {
        "application/octet-stream"@
    }
}

/// Each streamed asset is served as the type of its extension, whatever its
/// name: playlists (`.m3u8`), fMP4 segments (`.m4s`), MPEG-TS segments
/// (`.ts`) and MP4 files (`.mp4`).
pub proof fn lemma_asset_types(name: Seq<char>)
    ensures
        asset_content_type(name + ".m3u8"@) == "application/vnd.apple.mpegurl"@,
        asset_content_type(name + ".m4s"@) == "video/iso.segment"@,
        asset_content_type(name + ".ts"@) == "video/mp2t"@,
        asset_content_type(name + ".mp4"@) == "video/mp4"@,
{
    reveal_strlit(".m3u8");
    reveal_strlit(".m4s");
    reveal_strlit(".ts");
    reveal_strlit(".mp4");
    let a = name + ".m3u8"@;
    assert(a.skip(a.len() - 5) =~= ".m3u8"@);
    let b = name + ".m4s"@;
    assert(b.skip(b.len() - 4) =~= ".m4s"@);
    assert(!ends_with(b, ".m3u8"@)) by {
        if ends_with(b, ".m3u8"@) {
            assert(b[b.len() - 1] == ".m3u8"@[4]);
        }
    }
    let c = name + ".ts"@;
    assert(c.skip(c.len() - 3) =~= ".ts"@);
    assert(!ends_with(c, ".m3u8"@)) by {
        if ends_with(c, ".m3u8"@) {
            assert(c[c.len() - 1] == ".m3u8"@[4]);
        }
    }
    assert(!ends_with(c, ".m4s"@)) by {
        if ends_with(c, ".m4s"@) {
            assert(c[c.len() - 2] == ".m4s"@[2]);
        }
    }
    let d = name + ".mp4"@;
    assert(d.skip(d.len() - 4) =~= ".mp4"@);
    assert(!ends_with(d, ".m3u8"@)) by {
        if ends_with(d, ".m3u8"@) {
            assert(d[d.len() - 1] == ".m3u8"@[4]);
        }
    }
    assert(!ends_with(d, ".m4s"@)) by {
        if ends_with(d, ".m4s"@) {
            assert(d[d.len() - 1] == ".m4s"@[3]);
        }
    }
    assert(!ends_with(d, ".ts"@)) by {
        if ends_with(d, ".ts"@) {
            assert(d[d.len() - 1] == ".ts"@[2]);
        }
    }
}

/// The content type of a streamed asset.
pub fn content_type_for_asset(asset: &str) -> (r: &'static str)
    ensures
        r@ == asset_content_type(asset@),
{
    let v = chars_of(asset);
    if has_suffix(&v, ".m3u8") {
        "application/vnd.apple.mpegurl"
    } else if has_suffix(&v, ".m4s") {
        "video/iso.segment"
    } else if has_suffix(&v, ".ts") {
        "video/mp2t"
    } else if has_suffix(&v, ".mp4") {
        "video/mp4"
    } else {
        "application/octet-stream"
    }
}

/// The `Cache-Control` of a streamed asset: the private policy for private
/// media, the configured one otherwise.
pub fn cache_control<'a>(streaming: &'a StreamingConfig, record: &MediaRecord, configured: &'a str) -> (r: &'a str)
    ensures
        record.visibility@ == "private"@ ==> r@ == streaming.private_asset_cache_control@,
        record.visibility@ != "private"@ ==> r@ == configured@,
{
    if str_equal(record.visibility.as_str(), "private") {
        streaming.private_asset_cache_control.as_str()
    } else {
        configured
    }
}

/// The configured `Cache-Control` of a variant asset and whether ranges are
/// served for it: playlists use the playlist policy and are always sent
/// whole; segments use the segment policy and honor ranges when enabled.
pub fn variant_asset_policy<'a>(streaming: &'a StreamingConfig, asset: &str) -> (r: (&'a str, bool))
    ensures
        ends_with(asset@, ".m3u8"@) ==> r.0@ == streaming.playlist_cache_control@ && !r.1,
        !ends_with(asset@, ".m3u8"@) ==> r.0@ == streaming.segment_cache_control@ && r.1
            == streaming.enable_range_requests,
{
    let v = chars_of(asset);
    if has_suffix(&v, ".m3u8") {
        (streaming.playlist_cache_control.as_str(), false)
    } else {
        (streaming.segment_cache_control.as_str(), streaming.enable_range_requests)
    }
}

// ---------------------------------------------------------------------------
// Who may watch.
// ---------------------------------------------------------------------------

/// How a request for a media is authorized.
#[derive(Clone, Debug)]
pub enum AccessRoute {
    /// The media is not private: anyone may watch.
    Open,
    /// The request carries credentials: the account must own the media.
    Account,
    /// The request carries a playback token cookie, to verify.
    Token(String),
    /// A private media without credentials or token.
    Refused,
}

/// How a request for `record` is authorized, given whether it has an
/// `Authorization` header and its playback cookie.
pub fn access_route(record: &MediaRecord, has_authorization: bool, playback_cookie: Option<String>) -> (r: AccessRoute)
    ensures
        record.visibility@ != "private"@ ==> r is Open,
        record.visibility@ == "private"@ && has_authorization ==> r is Account,
        record.visibility@ == "private"@ && !has_authorization ==> match playback_cookie {
            Some(t) => r matches AccessRoute::Token(u) && u@ == t@,
            None => r is Refused,
        },
{
    if !str_equal(record.visibility.as_str(), "private") {
        return AccessRoute::Open;
    }
    if has_authorization {
        return AccessRoute::Account;
    }
    match playback_cookie {
        Some(t) => AccessRoute::Token(t),
        None => AccessRoute::Refused,
    }
}

/// An authenticated account may watch or stream only its own media.
pub fn check_owner(record: &MediaRecord, account_id: &str) -> (r: Result<(), AppError>)
    ensures
        r is Ok <==> record.account_id@ == account_id@,
        r is Err ==> r matches Err(AppError::Forbidden),
{
    if str_equal(record.account_id.as_str(), account_id) {
        Ok(())
    } else {
        Err(AppError::Forbidden)
    }
}

/// A player event must come with the session cookie of its session.
pub fn check_event_session(cookie_session: Option<&str>, session_id: &str) -> (r: Result<(), AppError>)
    ensures
        r is Ok <==> (cookie_session is Some && cookie_session.unwrap()@ == session_id@),
        r is Err ==> r matches Err(AppError::Unauthorized),
{
    match cookie_session {
        Some(s) => if str_equal(s, session_id) {
            Ok(())
        } else {
            Err(AppError::Unauthorized)
        },
        None => Err(AppError::Unauthorized),
    }
}

/// `<base>/<media id>`.
pub open spec fn under(base: Seq<char>, media_id: Seq<char>) -> Seq<char> {
    base + "/"@ + media_id
}

/// The path of the watch page of a media, where a playback token is
/// redeemed (and where a redirect after redeeming one leads).
pub fn playback_redemption_cookie_path(routes: &RoutesConfig, media_id: &str) -> (r: String)
    ensures
        r@ == under(routes.watch@, media_id@),
{
    let mut s = routes.watch.as_str().to_owned();
    push_str(&mut s, "/");
    push_str(&mut s, media_id);
    s
}

/// The path below which the assets of a media are streamed.
pub fn playback_asset_cookie_path(routes: &RoutesConfig, media_id: &str) -> (r: String)
    ensures
        r@ == under(routes.stream@, media_id@) + "/"@,
{
    let mut s = routes.stream.as_str().to_owned();
    push_str(&mut s, "/");
    push_str(&mut s, media_id);
    push_str(&mut s, "/");
    s
}

// ---------------------------------------------------------------------------
// The player page.
// ---------------------------------------------------------------------------

/// `c` as HTML text: `&`, `<`, `>`, `"` and `'` as character references.
pub open spec fn html_char(c: char) -> Seq<char> {
    if c == '&' {
        "&amp;"@
    } else if c == '<' {
        "&lt;"@
    } else if c == '>' {
        "&gt;"@
    } else if c == '"' {
        "&quot;"@
    } else if c == '\'' {
        "&#39;"@
    } else {
        seq![c]
    }
}

/// `s` as HTML text.
pub open spec fn html_escaped(s: Seq<char>) -> Seq<char>
    decreases s.len(),
{
    if s.len() == 0 {
        seq![]
    } else {
        html_escaped(s.drop_last()) + html_char(s.last())
    }
}

/// Escaped text holds no character that could open or close a tag or an
/// attribute value: no `<`, `>`, `"` or `'`.
pub proof fn lemma_html_escaped_is_inert(s: Seq<char>)
    ensures
        forall|i: int| 0 <= i < html_escaped(s).len() ==> {
            let c = #[trigger] html_escaped(s)[i];
            c != '<' && c != '>' && c != '"' && c != '\''
        },
    decreases s.len(),
{
    reveal_strlit("&amp;");
    reveal_strlit("&lt;");
    reveal_strlit("&gt;");
    reveal_strlit("&quot;");
    reveal_strlit("&#39;");
    if s.len() > 0 {
        lemma_html_escaped_is_inert(s.drop_last());
        let a = html_escaped(s.drop_last());
        let b = html_char(s.last());
        assert forall|i: int| 0 <= i < (a + b).len() implies {
            let c = #[trigger] (a + b)[i];
            c != '<' && c != '>' && c != '"' && c != '\''
        } by {
            if i < a.len() {
                assert((a + b)[i] == a[i]);
            } else {
                assert((a + b)[i] == b[i - a.len()]);
            }
        }
    }
}

/// Escapes text for HTML.
pub fn html_escape(value: &str) -> (r: String)
    ensures
        r@ == html_escaped(value@),
{
    let v = chars_of(value);
    let mut out = String::new();
    let mut i: usize = 0;
    while i < v.len()
        invariant
            i <= v@.len(),
            v@ == value@,
            out@ == html_escaped(v@.take(i as int)),
        decreases v@.len() - i,
    {
        let c = v[i];
        if c == '&' {
            push_str(&mut out, "&amp;");
        } else if c == '<' {
            push_str(&mut out, "&lt;");
        } else if c == '>' {
            push_str(&mut out, "&gt;");
        } else if c == '"' {
            push_str(&mut out, "&quot;");
        } else if c == '\'' {
            push_str(&mut out, "&#39;");
        } else {
            crate::text::push_char(&mut out, c);
        }
        assert(v@.take(i + 1).drop_last() == v@.take(i as int));
        i = i + 1;
    }
    assert(v@.take(v@.len() as int) == v@);
    out
}

/// How the player plays a media: its HLS master playlist when it has
/// renditions, else its source file; one with neither is not ready.
pub fn player_source(routes: &RoutesConfig, media_id: &str, variant_count: i64, has_original: bool) -> (r: Result<(&'static str, String), AppError>)
    ensures
        variant_count > 0 ==> (r matches Ok((mode, url)) && mode@ == "hls"@ && url@ == under(routes.stream@, media_id@)
            + "/master.m3u8"@),
        variant_count <= 0 && has_original ==> (r matches Ok((mode, url)) && mode@ == "file"@ && url@ == under(
            routes.stream@,
            media_id@,
        ) + "/source"@),
        variant_count <= 0 && !has_original ==> r matches Err(AppError::MediaNotReady),
{
    let mut url = routes.stream.as_str().to_owned();
    push_str(&mut url, "/");
    push_str(&mut url, media_id);
    if variant_count > 0 {
        push_str(&mut url, "/master.m3u8");
        Ok(("hls", url))
    } else if has_original {
        push_str(&mut url, "/source");
        Ok(("file", url))
    } else {
        Err(AppError::MediaNotReady)
    }
}

/// The URL the player posts its events to.
pub fn event_url(routes: &RoutesConfig, session_id: &str) -> (r: String)
    ensures
        r@ == routes.api@ + "/playback/"@ + session_id@ + "/events"@,
{
    let mut s = routes.api.as_str().to_owned();
    push_str(&mut s, "/playback/");
    push_str(&mut s, session_id);
    push_str(&mut s, "/events");
    s
}

/// The script tag that loads the HLS player library, for HLS playback when
/// one is configured; empty otherwise.
pub open spec fn hls_script_text(hls: bool, library_url: Option<Seq<char>>) -> Seq<char> {
    if hls && library_url is Some {
        "<script src=\""@ + html_escaped(library_url.unwrap()) + "\"></script>"@
    } else {
        Seq::<char>::empty()
    }
}

/// The player page: the template with its markers replaced, in order, by
/// the escaped title and description, the script tag, the JSON strings of
/// the stream URL, the event URL and the source mode, and the heartbeat
/// interval in milliseconds.
pub open spec fn player_page(
    template: Seq<char>,
    title: Seq<char>,
    description: Seq<char>,
    hls_script: Seq<char>,
    stream_url: Seq<char>,
    event_url: Seq<char>,
    mode: Seq<char>,
    heartbeat_ms: nat,
) -> Seq<char> {
    let s1 = replace_all(template, "{{TITLE}}"@, html_escaped(title));
    let s2 = replace_all(s1, "{{DESCRIPTION}}"@, html_escaped(description));
    let s3 = replace_all(s2, "{{HLS_SCRIPT}}"@, hls_script);
    let s4 = replace_all(s3, "{{STREAM_URL_JSON}}"@, json_string(stream_url));
    let s5 = replace_all(s4, "{{EVENT_URL_JSON}}"@, json_string(event_url));
    let s6 = replace_all(s5, "{{SOURCE_MODE_JSON}}"@, json_string(mode));
    replace_all(s6, "{{HEARTBEAT_MILLISECONDS}}"@, decimal(heartbeat_ms))
}

/// Renders the player page of a media.
pub fn render_player(
    template: &str,
    record: &MediaRecord,
    mode: &str,
    stream_url: &str,
    event_url: &str,
    hls_library_url: Option<&str>,
    heartbeat_interval_seconds: u64,
) -> (r: String)
    ensures
        r@ == player_page(
            template@,
            record.title@,
            record.description@,
            hls_script_text(mode@ == "hls"@, match hls_library_url {
                Some(u) => Some(u@),
                None => None,
            }),
            stream_url@,
            event_url@,
            mode@,
            (if heartbeat_interval_seconds * 1000 > u64::MAX {
                u64::MAX as nat
            } else {
                (heartbeat_interval_seconds * 1000) as nat
            }),
        ),
{
    proof {
        reveal_strlit("{{TITLE}}");
        reveal_strlit("{{DESCRIPTION}}");
        reveal_strlit("{{HLS_SCRIPT}}");
        reveal_strlit("{{STREAM_URL_JSON}}");
        reveal_strlit("{{EVENT_URL_JSON}}");
        reveal_strlit("{{SOURCE_MODE_JSON}}");
        reveal_strlit("{{HEARTBEAT_MILLISECONDS}}");
    }
    let hls = str_equal(mode, "hls");
    let mut script = String::new();
    if hls {
        if let Some(url) = hls_library_url {
            script = "<script src=\"".to_owned();
            push_str(&mut script, html_escape(url).as_str());
            push_str(&mut script, "\"></script>");
        }
    }
    let heartbeat: u64 = if heartbeat_interval_seconds > u64::MAX / 1000 {
        u64::MAX
    } else {
        heartbeat_interval_seconds * 1000
    };
    let s1 = replace_text(template, "{{TITLE}}", html_escape(record.title.as_str()).as_str());
    let s2 = replace_text(s1.as_str(), "{{DESCRIPTION}}", html_escape(record.description.as_str()).as_str());
    let s3 = replace_text(s2.as_str(), "{{HLS_SCRIPT}}", script.as_str());
    let s4 = replace_text(s3.as_str(), "{{STREAM_URL_JSON}}", json_string_literal(stream_url).as_str());
    let s5 = replace_text(s4.as_str(), "{{EVENT_URL_JSON}}", json_string_literal(event_url).as_str());
    let s6 = replace_text(s5.as_str(), "{{SOURCE_MODE_JSON}}", json_string_literal(mode).as_str());
    replace_text(s6.as_str(), "{{HEARTBEAT_MILLISECONDS}}", crate::text::decimal_string(heartbeat).as_str())
}

} // verus!
