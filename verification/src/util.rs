//! File names and titles of uploads, the rules on remote addresses, and
//! cleanup guards for temporary files.
use vstd::prelude::*;

use crate::error::AppError;
use crate::links::UrlParts;
use crate::path::{file_name, path_file_name};
use crate::text::{
    chars_of, ends_with, eq_ignore_ascii_case, equals_ignore_ascii_case, has_suffix,
    last_index_of, last_pos, lemma_leading_count, lemma_trailing_count, leading_count, string_of,
    sub_vec, trim, trim_both, trim_chars, trim_start, TrimSet,
};

verus! {

// ---------------------------------------------------------------------------
// File names.
// ---------------------------------------------------------------------------

/// A character that `clean_filename` keeps: an ASCII letter or digit, `.`,
/// `-` or `_`.
pub open spec fn is_safe_filename_char(c: char) -> bool {
    ('a' <= c <= 'z') || ('A' <= c <= 'Z') || ('0' <= c <= '9') || c == '.' || c == '-' || c
        == '_'
}

/// `c` when it is safe, `_` otherwise.
pub open spec fn safe_filename_char(c: char) -> char {
    if is_safe_filename_char(c) {
        c
    } else {
        '_'
    }
}

/// The name that `clean_filename` starts from: the file name of `input` as a
/// path, or `fallback` when the path has none.
pub open spec fn filename_source(input: Seq<char>, fallback: Seq<char>) -> Seq<char> {
    match file_name(input) {
        Some(name) => name,
        None => fallback,
    }
}

/// The safe characters of a name, without leading or trailing `.` and `_`.
pub open spec fn normalized_filename(name: Seq<char>) -> Seq<char> {
    trim_both(name.map_values(|c: char| safe_filename_char(c)), TrimSet::DotUnderscore)
}

/// The cleaned file name. Every character of a normalized name is ASCII, so
/// its length in characters is its length in bytes.
pub open spec fn cleaned_filename(input: Seq<char>, fallback: Seq<char>, maximum_bytes: nat) -> Seq<
    char,
> {
    let normalized = normalized_filename(filename_source(input, fallback));
    if normalized.len() == 0 {
        fallback
    } else if normalized.len() <= maximum_bytes {
        normalized
    } else {
        let truncated = trim_both(normalized.take(maximum_bytes as int), TrimSet::DotUnderscore);
        if truncated.len() == 0 {
            fallback
        } else {
            truncated
        }
    }
}

/// A name made of safe characters that neither starts nor ends with `.` or `_`.
pub open spec fn is_clean_name(s: Seq<char>) -> bool {
    &&& s.len() > 0
    &&& forall|i: int| 0 <= i < s.len() ==> is_safe_filename_char(#[trigger] s[i])
    &&& s[0] != '.' && s[0] != '_'
    &&& s.last() != '.' && s.last() != '_'
}

/// The characters of `trim_both(s, set)` are those of `s` from the first one
/// outside `set` on.
proof fn lemma_trim_both_chars(s: Seq<char>, set: TrimSet)
    ensures
        trim_both(s, set).len() <= s.len(),
        leading_count(s, set) + trim_both(s, set).len() <= s.len(),
        forall|k: int|
            0 <= k < trim_both(s, set).len() ==> #[trigger] trim_both(s, set)[k] == s[k
                + leading_count(s, set)],
        trim_both(s, set).len() > 0 ==> !crate::text::trims(set, trim_both(s, set)[0]),
        trim_both(s, set).len() > 0 ==> !crate::text::trims(set, trim_both(s, set).last()),
{
    lemma_leading_count(s, set);
    let t = trim_start(s, set);
    lemma_trailing_count(t, set);
}

/// A trimmed name of safe characters is a clean name.
proof fn lemma_trimmed_safe_is_clean(s: Seq<char>)
    requires
        forall|i: int| 0 <= i < s.len() ==> is_safe_filename_char(#[trigger] s[i]),
        trim_both(s, TrimSet::DotUnderscore).len() > 0,
    ensures
        is_clean_name(trim_both(s, TrimSet::DotUnderscore)),
{
    lemma_trim_both_chars(s, TrimSet::DotUnderscore);
    let t = trim_both(s, TrimSet::DotUnderscore);
    assert forall|i: int| 0 <= i < t.len() implies is_safe_filename_char(#[trigger] t[i]) by {
        assert(t[i] == s[i + leading_count(s, TrimSet::DotUnderscore)]);
    }
}

/// Cleaning is idempotent on clean names: a clean name within the limit is
/// cleaned to itself, whatever the fallback. So cleaning a cleaned name gives
/// it back, unless the first cleaning fell back to a fallback that is not
/// itself clean and within the limit.
pub proof fn lemma_clean_name_is_fixed(name: Seq<char>, fallback: Seq<char>, maximum_bytes: nat)
    requires
        is_clean_name(name),
        name.len() <= maximum_bytes,
    ensures
        cleaned_filename(name, fallback, maximum_bytes) == name,
{
    assert forall|k: int| 0 <= k < name.len() implies #[trigger] name[k] != '/' by {
        assert(is_safe_filename_char(name[k]));
    }
    crate::text::lemma_first_pos_unique(name, '/', name.len() as int);
    let ps = crate::text::split(name, '/');
    assert(ps =~= seq![name]);
    assert(name != seq!['.']) by {
        assert(name[0] != '.');
    }
    assert(name != seq!['.', '.']) by {
        assert(name[0] != '.');
    }
    assert(ps.drop_last() =~= Seq::<Seq<char>>::empty());
    assert(crate::path::pieces_components(Seq::<Seq<char>>::empty()) =~= Seq::<crate::path::ComponentView>::empty());
    assert(crate::path::components(name) =~= seq![crate::path::ComponentView::Normal(name)]);
    assert(file_name(name) == Some(name));
    let mapped = name.map_values(|c: char| safe_filename_char(c));
    assert(mapped =~= name);
    lemma_leading_count(name, TrimSet::DotUnderscore);
    if leading_count(name, TrimSet::DotUnderscore) > 0 {
        assert(crate::text::trims(TrimSet::DotUnderscore, name[0]));
    }
    assert(trim_start(name, TrimSet::DotUnderscore) =~= name);
    lemma_trailing_count(name, TrimSet::DotUnderscore);
    if crate::text::trailing_count(name, TrimSet::DotUnderscore) > 0 {
        assert(crate::text::trims(TrimSet::DotUnderscore, name[name.len() - 1]));
    }
    assert(trim_both(name, TrimSet::DotUnderscore) =~= name);
}

/// A file name safe to store: the file name of `input` (or `fallback`), with
/// every character outside ASCII letters, digits, `.`, `-` and `_` replaced
/// by `_`, leading and trailing `.` and `_` removed, and cut to
/// `maximum_bytes` bytes (then trimmed again). Where nothing is left the
/// result is `fallback`; otherwise it is a clean name within the limit.
pub fn clean_filename(input: &str, fallback: &str, maximum_bytes: usize) -> (r: String)
    ensures
        r@ == cleaned_filename(input@, fallback@, maximum_bytes as nat),
        r@ == fallback@ || (is_clean_name(r@) && r@.len() <= maximum_bytes),
{
    let source: Vec<char> = match path_file_name(input) {
        Some(name) => name,
        None => chars_of(fallback),
    };
    let ghost mapped = source@.map_values(|c: char| safe_filename_char(c));
    let mut cleaned: Vec<char> = Vec::new();
    let mut i: usize = 0;
    while i < source.len()
        invariant
            i <= source@.len(),
            mapped == source@.map_values(|c: char| safe_filename_char(c)),
            cleaned@ == mapped.take(i as int),
        decreases source@.len() - i,
    {
        let c = source[i];
        let safe = ('a' <= c && c <= 'z') || ('A' <= c && c <= 'Z') || ('0' <= c && c <= '9') || c
            == '.' || c == '-' || c == '_';
        cleaned.push(if safe { c } else { '_' });
        assert(mapped.take(i + 1) == mapped.take(i as int).push(mapped[i as int]));
        i = i + 1;
    }
    assert(mapped.take(mapped.len() as int) == mapped);
    assert(forall|k: int| 0 <= k < mapped.len() ==> is_safe_filename_char(#[trigger] mapped[k]));
    let normalized = trim_chars(&cleaned, TrimSet::DotUnderscore);
    if normalized.len() == 0 {
        return fallback.to_owned();
    }
    proof {
        lemma_trimmed_safe_is_clean(mapped);
    }
    if normalized.len() <= maximum_bytes {
        return string_of(&normalized);
    }
    let head = sub_vec(&normalized, 0, maximum_bytes);
    assert(head@ == normalized@.take(maximum_bytes as int));
    let truncated = trim_chars(&head, TrimSet::DotUnderscore);
    if truncated.len() == 0 {
        fallback.to_owned()
    } else {
        proof {
            assert(forall|k: int|
                0 <= k < head@.len() ==> is_safe_filename_char(#[trigger] head@[k])) by {
                assert forall|k: int| 0 <= k < head@.len() implies is_safe_filename_char(
                    #[trigger] head@[k],
                ) by {
                    assert(head@[k] == normalized@[k]);
                }
            }
            lemma_trimmed_safe_is_clean(head@);
            lemma_trim_both_chars(head@, TrimSet::DotUnderscore);
        }
        string_of(&truncated)
    }
}

/// The stem of a file name (`Path::file_stem` on a name): the text before
/// its last `.`, unless that `.` is the first character or there is none.
pub open spec fn stem_of(name: Seq<char>) -> Seq<char> {
    let p = last_pos(name, '.');
    if p <= 0 {
        name
    } else {
        name.take(p)
    }
}

/// `c` with `_` and `-` turned into spaces.
pub open spec fn title_char(c: char) -> char {
    if c == '_' || c == '-' {
        ' '
    } else {
        c
    }
}

/// The title made of a file name: the stem of its file name (or the whole
/// text when the path has none), with `_` and `-` turned into spaces, trimmed.
pub open spec fn title_of(filename: Seq<char>) -> Seq<char> {
    let stem = match file_name(filename) {
        Some(name) => stem_of(name),
        None => filename,
    };
    trim(stem.map_values(|c: char| title_char(c)))
}

/// A title has no `_` or `-` left, and neither starts nor ends with
/// whitespace.
pub proof fn lemma_title_is_spaced(filename: Seq<char>)
    ensures
        forall|i: int| 0 <= i < title_of(filename).len() ==> #[trigger] title_of(filename)[i] != '_'
            && title_of(filename)[i] != '-',
        title_of(filename).len() > 0 ==> !crate::text::trims(TrimSet::Whitespace, title_of(filename)[0]),
        title_of(filename).len() > 0 ==> !crate::text::trims(TrimSet::Whitespace, title_of(filename).last()),
{
    let stem = match file_name(filename) {
        Some(name) => stem_of(name),
        None => filename,
    };
    let mapped = stem.map_values(|c: char| title_char(c));
    lemma_trim_both_chars(mapped, TrimSet::Whitespace);
    let t = title_of(filename);
    assert forall|i: int| 0 <= i < t.len() implies #[trigger] t[i] != '_' && t[i] != '-' by {
        assert(t[i] == mapped[i + leading_count(mapped, TrimSet::Whitespace)]);
    }
}

/// A default media title derived from an uploaded file name.
pub fn title_from_filename(filename: &str) -> (r: String)
    ensures
        r@ == title_of(filename@),
{
    let stem: Vec<char> = match path_file_name(filename) {
        Some(name) => {
            match last_index_of(&name, '.') {
                Some(p) => {
                    proof {
                        crate::text::lemma_last_pos(name@, '.');
                    }
                    if p == 0 {
                        name
                    } else {
                        sub_vec(&name, 0, p)
                    }
                },
                None => name,
            }
        },
        None => chars_of(filename),
    };
    let ghost mapped = stem@.map_values(|c: char| title_char(c));
    let mut spaced: Vec<char> = Vec::new();
    let mut i: usize = 0;
    while i < stem.len()
        invariant
            i <= stem@.len(),
            mapped == stem@.map_values(|c: char| title_char(c)),
            spaced@ == mapped.take(i as int),
        decreases stem@.len() - i,
    {
        let c = stem[i];
        spaced.push(if c == '_' || c == '-' { ' ' } else { c });
        assert(mapped.take(i + 1) == mapped.take(i as int).push(mapped[i as int]));
        i = i + 1;
    }
    assert(mapped.take(mapped.len() as int) == mapped);
    let trimmed = trim_chars(&spaced, TrimSet::Whitespace);
    string_of(&trimmed)
}

// ---------------------------------------------------------------------------
// Remote addresses.
// ---------------------------------------------------------------------------

/// An IP address: four octets, or eight 16-bit segments.
#[derive(Clone, Copy, Debug)]
pub enum IpAddress {
    V4([u8; 4]),
    V6([u16; 8]),
}

/// Whether an IPv4 address is private (10/8, 172.16/12, 192.168/16),
/// loopback (127/8), link-local (169.254/16), broadcast, unspecified,
/// documentation (192.0.2/24, 198.51.100/24, 203.0.113/24), multicast
/// (224/4), or in 0/8: the `Ipv4Addr` predicates the service refuses.
pub open spec fn non_public_v4(o: Seq<u8>) -> bool {
    let a = o[0];
    let b = o[1];
    let c = o[2];
    let d = o[3];
    ||| a == 10
    ||| (a == 172 && 16 <= b <= 31)
    ||| (a == 192 && b == 168)
    ||| a == 127
    ||| (a == 169 && b == 254)
    ||| (a == 255 && b == 255 && c == 255 && d == 255)
    ||| (a == 192 && b == 0 && c == 2)
    ||| (a == 198 && b == 51 && c == 100)
    ||| (a == 203 && b == 0 && c == 113)
    ||| (224 <= a <= 239)
    ||| a == 0
}

/// The IPv4 address an IPv6 address maps (`::ffff:a.b.c.d`), if it is one.
pub open spec fn ipv4_mapped(s: Seq<u16>) -> Option<Seq<u8>> {
    if s[0] == 0 && s[1] == 0 && s[2] == 0 && s[3] == 0 && s[4] == 0 && s[5] == 0xffff {
        Some(seq![(s[6] / 256) as u8, (s[6] % 256) as u8, (s[7] / 256) as u8, (s[7] % 256) as u8])
    } else {
        None
    }
}

/// Whether an IPv6 address is loopback, unspecified, unique local (fc00::/7),
/// unicast link-local (fe80::/10), multicast (ff00::/8), or maps a refused
/// IPv4 address.
pub open spec fn non_public_v6(s: Seq<u16>) -> bool {
    let zero_prefix = s[0] == 0 && s[1] == 0 && s[2] == 0 && s[3] == 0 && s[4] == 0 && s[5] == 0
        && s[6] == 0;
    ||| (zero_prefix && s[7] == 1)
    ||| (zero_prefix && s[7] == 0)
    ||| (0xfc00 <= s[0] <= 0xfdff)
    ||| (0xfe80 <= s[0] <= 0xfebf)
    ||| s[0] >= 0xff00
    ||| (ipv4_mapped(s) matches Some(o) && non_public_v4(o))
}

/// Whether the service refuses to fetch from `ip` unless private networks
/// are allowed.
pub open spec fn non_public(ip: IpAddress) -> bool {
    match ip {
        IpAddress::V4(o) => non_public_v4(o@),
        IpAddress::V6(s) => non_public_v6(s@),
    }
}

fn is_non_public_v4(o: [u8; 4]) -> (r: bool)
    ensures
        r == non_public_v4(o@),
{
    let a = o[0];
    let b = o[1];
    let c = o[2];
    let d = o[3];
    a == 10 || (a == 172 && 16 <= b && b <= 31) || (a == 192 && b == 168) || a == 127 || (a == 169
        && b == 254) || (a == 255 && b == 255 && c == 255 && d == 255) || (a == 192 && b == 0 && c
        == 2) || (a == 198 && b == 51 && c == 100) || (a == 203 && b == 0 && c == 113) || (224 <= a
        && a <= 239) || a == 0
}

fn is_non_public_v6(s: [u16; 8]) -> (r: bool)
    ensures
        r == non_public_v6(s@),
{
    let zero_prefix = s[0] == 0 && s[1] == 0 && s[2] == 0 && s[3] == 0 && s[4] == 0 && s[5] == 0
        && s[6] == 0;
    if (zero_prefix && s[7] == 1) || (zero_prefix && s[7] == 0) || (0xfc00 <= s[0] && s[0]
        <= 0xfdff) || (0xfe80 <= s[0] && s[0] <= 0xfebf) || s[0] >= 0xff00 {
        return true;
    }
    if s[0] == 0 && s[1] == 0 && s[2] == 0 && s[3] == 0 && s[4] == 0 && s[5] == 0xffff {
        let o: [u8; 4] = [
            (s[6] / 256) as u8,
            (s[6] % 256) as u8,
            (s[7] / 256) as u8,
            (s[7] % 256) as u8,
        ];
        assert(o@ == ipv4_mapped(s@).unwrap());
        is_non_public_v4(o)
    } else {
        false
    }
}

/// Whether the service refuses to fetch from `ip` unless private networks
/// are allowed.
pub fn is_non_public_ip(ip: &IpAddress) -> (r: bool)
    ensures
        r == non_public(*ip),
{
    match ip {
        IpAddress::V4(o) => is_non_public_v4(*o),
        IpAddress::V6(s) => is_non_public_v6(*s),
    }
}

/// The machine itself and the private networks are never fetched from
/// unless private networks are allowed: every IPv4 address in 127/8, 10/8,
/// 172.16/12, 192.168/16, 169.254/16 or 0/8, the IPv6 loopback and
/// unspecified addresses, every unique local (fc00::/7) and link-local
/// (fe80::/10) IPv6 address, and the IPv6 form (`::ffff:a.b.c.d`) of any
/// refused IPv4 address are refused.
pub proof fn lemma_private_addresses_refused(o: [u8; 4], s: [u16; 8])
    ensures
        (o@[0] == 127 || o@[0] == 10 || o@[0] == 0 || (o@[0] == 172 && 16 <= o@[1] <= 31) || (o@[0] == 192
            && o@[1] == 168) || (o@[0] == 169 && o@[1] == 254)) ==> non_public(IpAddress::V4(o)),
        (s@[0] == 0 && s@[1] == 0 && s@[2] == 0 && s@[3] == 0 && s@[4] == 0 && s@[5] == 0 && s@[6] == 0
            && s@[7] <= 1) ==> non_public(IpAddress::V6(s)),
        (0xfc00 <= s@[0] <= 0xfdff || 0xfe80 <= s@[0] <= 0xfebf) ==> non_public(IpAddress::V6(s)),
        (s@[0] == 0 && s@[1] == 0 && s@[2] == 0 && s@[3] == 0 && s@[4] == 0 && s@[5] == 0xffff
            && non_public(
            IpAddress::V4([(s@[6] / 256) as u8, (s@[6] % 256) as u8, (s@[7] / 256) as u8, (s@[7] % 256) as u8]),
        )) ==> non_public(IpAddress::V6(s)),
{
    let m: [u8; 4] = [(s@[6] / 256) as u8, (s@[6] % 256) as u8, (s@[7] / 256) as u8, (s@[7] % 256) as u8];
    assert(m@ =~= seq![(s@[6] / 256) as u8, (s@[6] % 256) as u8, (s@[7] / 256) as u8, (s@[7] % 256) as u8]);
}

/// Only plain HTTP(S) URLs naming a host and a port, without credentials,
/// pass the check, and a name of the local machine only where private
/// networks are allowed.
pub proof fn lemma_accepted_urls(url: UrlParts, allow_private_networks: bool)
    ensures
        remote_url_problem(url, allow_private_networks) is None <==> {
            &&& url.scheme@ == "http"@ || url.scheme@ == "https"@
            &&& url.username@.len() == 0 && !url.has_password
            &&& url.host is Some && url.port is Some
            &&& allow_private_networks || !(eq_ignore_ascii_case(url.host.unwrap()@, "localhost"@)
                || ends_with(url.host.unwrap()@, ".localhost"@))
        },
{
}

/// Whether `host` names the local machine: `localhost` in any case, or a
/// name ending in `.localhost`.
pub open spec fn is_localhost(host: Seq<char>) -> bool {
    eq_ignore_ascii_case(host, "localhost"@) || ends_with(host, ".localhost"@)
}

/// Whether `r` is a refusal of a remote source with the message `m`.
pub open spec fn rejected_with<T>(r: Result<T, AppError>, m: Seq<char>) -> bool {
    r matches Err(AppError::RemoteRejected(text)) && text@ == m
}

/// What `check_remote_url` answers for a parsed URL: the refusal message, or
/// the host and port to resolve.
pub open spec fn remote_url_problem(url: UrlParts, allow_private_networks: bool) -> Option<Seq<char>> {
    if !(url.scheme@ == "http"@ || url.scheme@ == "https"@) {
        Some("only HTTP and HTTPS URLs are allowed"@)
    } else if url.username@.len() > 0 || url.has_password {
        Some("URLs containing credentials are not allowed"@)
    } else if url.host is None {
        Some("URL has no host"@)
    } else if !allow_private_networks && is_localhost(url.host.unwrap()@) {
        Some("localhost is not allowed"@)
    } else if url.port is None {
        Some("URL has no usable port"@)
    } else {
        None
    }
}

/// The checks on a remote URL made before its host is resolved: HTTP or
/// HTTPS only, no credentials, a host that is not `localhost` (unless private
/// networks are allowed), and a known port. Gives the host and port to
/// resolve.
pub fn check_remote_url(url: &UrlParts, allow_private_networks: bool) -> (r: Result<
    (String, u16),
    AppError,
>)
    ensures
        match remote_url_problem(*url, allow_private_networks) {
            Some(m) => rejected_with(r, m),
            None => r matches Ok((host, port)) && host@ == url.host.unwrap()@ && port
                == url.port.unwrap(),
        },
{
    let scheme = chars_of(url.scheme.as_str());
    let http = scheme.len() == 4 && scheme[0] == 'h' && scheme[1] == 't' && scheme[2] == 't'
        && scheme[3] == 'p';
    let https = scheme.len() == 5 && scheme[0] == 'h' && scheme[1] == 't' && scheme[2] == 't'
        && scheme[3] == 'p' && scheme[4] == 's';
    proof {
        reveal_strlit("http");
        reveal_strlit("https");
        assert(http == (url.scheme@ == "http"@)) by {
            if url.scheme@ == "http"@ {
                assert(scheme@[0] == 'h' && scheme@[1] == 't' && scheme@[2] == 't' && scheme@[3]
                    == 'p');
            }
            if http {
                assert(scheme@ =~= "http"@);
            }
        }
        assert(https == (url.scheme@ == "https"@)) by {
            if url.scheme@ == "https"@ {
                assert(scheme@[0] == 'h' && scheme@[1] == 't' && scheme@[2] == 't' && scheme@[3]
                    == 'p' && scheme@[4] == 's');
            }
            if https {
                assert(scheme@ =~= "https"@);
            }
        }
    }
    if !(http || https) {
        return Err(AppError::RemoteRejected("only HTTP and HTTPS URLs are allowed".to_owned()));
    }
    let user = chars_of(url.username.as_str());
    if user.len() > 0 || url.has_password {
        return Err(
            AppError::RemoteRejected("URLs containing credentials are not allowed".to_owned()),
        );
    }
    let host = match &url.host {
        Some(h) => h,
        None => {
            return Err(AppError::RemoteRejected("URL has no host".to_owned()));
        },
    };
    if !allow_private_networks {
        let hv = chars_of(host.as_str());
        if equals_ignore_ascii_case(&hv, "localhost") || has_suffix(&hv, ".localhost") {
            return Err(AppError::RemoteRejected("localhost is not allowed".to_owned()));
        }
    }
    match url.port {
        Some(port) => Ok((host.clone(), port)),
        None => Err(AppError::RemoteRejected("URL has no usable port".to_owned())),
    }
}

/// Whether some address of `addresses` is refused.
pub open spec fn any_non_public(addresses: Seq<IpAddress>) -> bool {
    exists|i: int| 0 <= i < addresses.len() && non_public(#[trigger] addresses[i])
}

/// The checks on the addresses a remote host resolved to: there must be at
/// least one, and, unless private networks are allowed, none may be a
/// private, loopback, link-local, documentation, multicast or unspecified
/// address.
pub fn check_resolved_addresses(addresses: &Vec<IpAddress>, allow_private_networks: bool) -> (r:
    Result<(), AppError>)
    ensures
        addresses@.len() == 0 ==> rejected_with(r, "remote host did not resolve"@),
        addresses@.len() > 0 && !allow_private_networks && any_non_public(addresses@)
            ==> rejected_with(
            r,
            "private, loopback, link-local, documentation, multicast, or unspecified addresses are not allowed"@,
        ),
        addresses@.len() > 0 && (allow_private_networks || !any_non_public(addresses@)) ==> r is Ok,
{
    if addresses.len() == 0 {
        return Err(AppError::RemoteRejected("remote host did not resolve".to_owned()));
    }
    if !allow_private_networks {
        let mut i: usize = 0;
        while i < addresses.len()
            invariant
                i <= addresses@.len(),
                !allow_private_networks,
                forall|k: int| 0 <= k < i ==> !non_public(#[trigger] addresses@[k]),
            decreases addresses@.len() - i,
        {
            if is_non_public_ip(&addresses[i]) {
                assert(non_public(addresses@[i as int]));
                return Err(
                    AppError::RemoteRejected(
                        "private, loopback, link-local, documentation, multicast, or unspecified addresses are not allowed".to_owned(),
                    ),
                );
            }
            i = i + 1;
        }
    }
    Ok(())
}

// ---------------------------------------------------------------------------
// Cleanup guards.
// ---------------------------------------------------------------------------

/// What a cleanup guard removes.
#[derive(Clone, Copy, Debug, PartialEq, Eq, Structural)]
pub enum CleanupKind {
    File,
    Directory,
}

/// A temporary file or directory that is removed when the guard is dropped,
/// unless it was disarmed first. The removal itself is file-system work done
/// by whoever holds the guard; `pending_removal` says what is to be removed.
#[derive(Debug)]
pub struct CleanupPath {
    path: String,
    kind: CleanupKind,
    armed: bool,
}

impl CleanupPath {
    pub closed spec fn path_view(&self) -> Seq<char> {
        self.path@
    }

    pub closed spec fn kind_view(&self) -> CleanupKind {
        self.kind
    }

    pub closed spec fn is_armed(&self) -> bool {
        self.armed
    }

    /// A guard that removes the file at `path`.
    pub fn file(path: String) -> (r: CleanupPath)
        ensures
            r.path_view() == path@,
            r.kind_view() == CleanupKind::File,
            r.is_armed(),
    {
        CleanupPath { path, kind: CleanupKind::File, armed: true }
    }

    /// A guard that removes the directory at `path` with its contents.
    pub fn directory(path: String) -> (r: CleanupPath)
        ensures
            r.path_view() == path@,
            r.kind_view() == CleanupKind::Directory,
            r.is_armed(),
    {
        CleanupPath { path, kind: CleanupKind::Directory, armed: true }
    }

    /// Keeps the path: nothing is removed when the guard is dropped.
    pub fn disarm(&mut self)
        ensures
            !final(self).is_armed(),
            final(self).path_view() == old(self).path_view(),
            final(self).kind_view() == old(self).kind_view(),
    {
        self.armed = false;
    }

    /// What dropping the guard removes: the path and its kind while the guard
    /// is armed, nothing once it was disarmed.
    pub fn pending_removal(&self) -> (r: Option<(String, CleanupKind)>)
        ensures
            self.is_armed() ==> (r matches Some((p, k)) && p@ == self.path_view() && k
                == self.kind_view()),
            !self.is_armed() ==> r is None,
    {
        if self.armed {
            Some((self.path.clone(), self.kind))
        } else {
            None
        }
    }
}

} // verus!
