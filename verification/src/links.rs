//! Absolute URLs and HTTP header names as the HTTP libraries parse them.
use vstd::prelude::*;

verus! {

/// What the service reads of a parsed absolute URL.
#[derive(Clone, Debug)]
pub struct UrlParts {
    /// The scheme, lowercased by the parser (`Url::scheme`).
    pub scheme: String,
    /// The user name, empty when there is none (`Url::username`).
    pub username: String,
    /// Whether a password is present (`Url::password`).
    pub has_password: bool,
    /// The host text, if any (`Url::host_str`).
    pub host: Option<String>,
    /// The explicit port, or the scheme's default (`Url::port_or_known_default`).
    pub port: Option<u16>,
    /// The last path segment, if the URL has a path (`Url::path_segments`).
    pub last_segment: Option<String>,
    /// The serialized URL (`Url::as_str`).
    pub text: String,
}

/// What `reqwest::Url::parse` makes of `text`: the parts of the URL (scheme,
/// user name, whether a password is present, host, port or default port,
/// last path segment, serialization), or the text of the parse error.
pub uninterp spec fn parsed_url(text: Seq<char>) -> Result<
    (Seq<char>, Seq<char>, bool, Option<Seq<char>>, Option<u16>, Option<Seq<char>>, Seq<char>),
    Seq<char>,
>;

/// Whether an optional `String` holds the optional text `t`.
pub open spec fn same_text(s: Option<String>, t: Option<Seq<char>>) -> bool {
    match s {
        Some(v) => t == Some(v@),
        None => t is None,
    }
}

impl UrlParts {
    /// Whether these parts are the components `t` of a parsed URL.
    pub open spec fn agrees(
        self,
        t: (Seq<char>, Seq<char>, bool, Option<Seq<char>>, Option<u16>, Option<Seq<char>>, Seq<char>),
    ) -> bool {
        &&& self.scheme@ == t.0
        &&& self.username@ == t.1
        &&& self.has_password == t.2
        &&& same_text(self.host, t.3)
        &&& self.port == t.4
        &&& same_text(self.last_segment, t.5)
        &&& self.text@ == t.6
    }
}

/// Whether `text` parses as an absolute URL.
pub open spec fn url_parses(text: Seq<char>) -> bool {
    parsed_url(text) is Ok
}

/// Whether `text` is an absolute HTTP or HTTPS URL with a host.
pub open spec fn is_http_url(text: Seq<char>) -> bool {
    match parsed_url(text) {
        Ok(t) => (t.0 == "http"@ || t.0 == "https"@) && t.3 is Some,
        Err(_) => false,
    }
}

/// Parses an absolute URL with `reqwest::Url::parse` and reads its parts.
///
/// The contract claims only that the result is the library's parse of the
/// text: the parts named by `parsed_url`, or the `Display` text of the
/// parser's error.
#[verifier::external_body]
pub(crate) fn parse_url(text: &str) -> (r: Result<UrlParts, String>)
    ensures
        match parsed_url(text@) {
            Err(m) => r matches Err(e) && e@ == m,
            Ok(t) => r matches Ok(p) && p.agrees(t),
        },
{
    let url = match reqwest::Url::parse(text) {
        Ok(url) => url,
        Err(error) => return Err(error.to_string()),
    };
    Ok(UrlParts {
        scheme: url.scheme().to_owned(),
        username: url.username().to_owned(),
        has_password: url.password().is_some(),
        host: url.host_str().map(str::to_owned),
        port: url.port_or_known_default(),
        last_segment: url.path_segments().and_then(|mut segments| segments.next_back()).map(
            str::to_owned,
        ),
        text: url.as_str().to_owned(),
    })
}

/// What `reqwest::Url::join` makes of `reference` resolved against the URL
/// `base` (parsed with `reqwest::Url::parse`): the parts of the resulting
/// URL, as `parsed_url` gives them, or the text of the error.
pub uninterp spec fn joined_url(base: Seq<char>, reference: Seq<char>) -> Result<
    (Seq<char>, Seq<char>, bool, Option<Seq<char>>, Option<u16>, Option<Seq<char>>, Seq<char>),
    Seq<char>,
>;

/// Resolves a reference (such as a redirect's `Location`) against a URL with
/// `reqwest::Url::parse` and `Url::join`, and reads the parts of the result.
///
/// The contract claims only that the result is the library's: the parts
/// named by `joined_url`, or the `Display` text of the parser's error.
#[verifier::external_body]
pub(crate) fn join_url(base: &str, reference: &str) -> (r: Result<UrlParts, String>)
    ensures
        match joined_url(base@, reference@) {
            Err(m) => r matches Err(e) && e@ == m,
            Ok(t) => r matches Ok(p) && p.agrees(t),
        },
{
    let base = match reqwest::Url::parse(base) { Ok(url) => url, Err(error) => return Err(error.to_string()) };
    let url = match base.join(reference) { Ok(url) => url, Err(error) => return Err(error.to_string()) };
    Ok(UrlParts {
        scheme: url.scheme().to_owned(), username: url.username().to_owned(),
        has_password: url.password().is_some(), host: url.host_str().map(str::to_owned),
        port: url.port_or_known_default(),
        last_segment: url.path_segments().and_then(|mut segments| segments.next_back()).map(str::to_owned),
        text: url.as_str().to_owned(),
    })
}

/// Whether a byte may stand in an HTTP header name: a `tchar` of RFC 9110
/// (letters of either case, digits and ``!#$%&'*+-.^_`|~``).
pub open spec fn is_token_char(c: char) -> bool {
    ||| ('a' <= c && c <= 'z')
    ||| ('A' <= c && c <= 'Z')
    ||| ('0' <= c && c <= '9')
    ||| c == '!' || c == '#' || c == '$' || c == '%' || c == '&' || c == '\'' || c == '*'
    ||| c == '+' || c == '-' || c == '.' || c == '^' || c == '_' || c == '`' || c == '|' || c == '~'
}

/// Whether `axum::http::HeaderName::from_bytes` accepts the UTF-8 bytes of
/// `name`: between 1 and 65535 bytes, each a token character (which are all
/// ASCII, so bytes and characters coincide).
pub open spec fn valid_header_name(name: Seq<char>) -> bool {
    1 <= name.len() <= 65535 && forall|i: int| 0 <= i < name.len() ==> is_token_char(#[trigger] name[i])
}

/// Asks `axum::http::HeaderName::from_bytes` whether `name` is a valid HTTP
/// header name. Its table `HEADER_CHARS` maps exactly the token characters
/// to non-zero bytes, and it refuses empty names and names over 65535 bytes;
/// the contract claims the answer is `valid_header_name`.
#[verifier::external_body]
pub(crate) fn is_header_name(name: &str) -> (r: bool)
    ensures
        r == valid_header_name(name@),
{
    axum::http::HeaderName::from_bytes(name.as_bytes()).is_ok()
}

} // verus!
