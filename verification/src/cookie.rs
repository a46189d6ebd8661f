//! Cookies: reading one from a `Cookie` header and writing a `Set-Cookie`
//! header value.
use vstd::prelude::*;

use crate::error::AppError;
use crate::text::{
    chars_of, push_signed_decimal, push_str, signed_decimal, split, split_chars, split_once,
    split_once_text, str_equal, string_of, trim, trim_chars, TrimSet,
};

verus! {

/// The settings of a cookie to set.
pub struct SetCookie<'a> {
    pub name: &'a str,
    pub value: &'a str,
    pub path: &'a str,
    pub domain: Option<&'a str>,
    pub max_age_seconds: Option<i64>,
    pub http_only: bool,
    pub secure: bool,
    pub same_site: &'a str,
}

/// Whether a header value byte is allowed by `HeaderValue::to_str`: visible
/// ASCII or a tab.
pub open spec fn is_visible_byte(b: u8) -> bool {
    (32 <= b < 127) || b == 9
}

/// The text of a header value when it is visible ASCII (`HeaderValue::to_str`).
pub open spec fn header_text(bytes: Seq<u8>) -> Option<Seq<char>> {
    if forall|i: int| 0 <= i < bytes.len() ==> is_visible_byte(#[trigger] bytes[i]) {
        Some(bytes.map_values(|b: u8| b as char))
    } else {
        None
    }
}

/// Reads a header value as text the way `HeaderValue::to_str` does.
pub fn visible_header_text(bytes: &[u8]) -> (r: Option<String>)
    ensures
        crate::text::opt_text(r) == header_text(bytes@),
{
    let mut out = String::new();
    let mut i: usize = 0;
    while i < bytes.len()
        invariant
            i <= bytes@.len(),
            forall|k: int| 0 <= k < i ==> is_visible_byte(#[trigger] bytes@[k]),
            out@ == bytes@.take(i as int).map_values(|b: u8| b as char),
        decreases bytes@.len() - i,
    {
        let b = bytes[i];
        if !((32 <= b && b < 127) || b == 9) {
            return None;
        }
        crate::text::push_char(&mut out, crate::text::char_from_ascii(b as u32));
        assert(bytes@.take(i + 1).map_values(|b: u8| b as char) == bytes@.take(i as int).map_values(
            |b: u8| b as char,
        ).push(b as char));
        i = i + 1;
    }
    assert(bytes@.take(bytes@.len() as int) == bytes@);
    Some(out)
}

/// The value of the first cookie named `name` in a `Cookie` header: the
/// header is split at `;`, each part trimmed and split at its first `=`.
pub open spec fn cookie_value(header: Seq<char>, name: Seq<char>, n: int) -> Option<Seq<char>>
    decreases n,
{
    if n <= 0 {
        None
    } else {
        match cookie_value(header, name, n - 1) {
            Some(v) => Some(v),
            None => match split_once(trim(split(header, ';')[n - 1]), '=') {
                Some((key, value)) => if key == name {
                    Some(value)
                } else {
                    None
                },
                None => None,
            },
        }
    }
}

/// The value of the cookie `name`, given the text of the request's `Cookie`
/// header (if it has one that is visible ASCII).
pub fn read(cookie_header: Option<&str>, name: &str) -> (r: Option<String>)
    ensures
        match cookie_header {
            Some(h) => crate::text::opt_text(r) == cookie_value(h@, name@, split(h@, ';').len() as int),
            None => r is None,
        },
{
    let header = match cookie_header {
        Some(h) => h,
        None => return None,
    };
    let v = chars_of(header);
    let parts = split_chars(&v, ';');
    let ghost pieces = split(header@, ';');
    assert(parts@.map_values(|p: Vec<char>| p@) == pieces);
    let mut i: usize = 0;
    while i < parts.len()
        invariant
            i <= parts@.len(),
            cookie_header == Some(header),
            parts@.map_values(|p: Vec<char>| p@) == pieces,
            pieces == split(header@, ';'),
            cookie_value(header@, name@, i as int) is None,
        decreases parts@.len() - i,
    {
        let trimmed = string_of(&trim_chars(&parts[i], TrimSet::Whitespace));
        assert(pieces[i as int] == parts@[i as int]@);
        assert(trimmed@ == trim(pieces[i as int]));
        match split_once_text(trimmed.as_str(), '=') {
            Some((key, value)) => {
                if str_equal(key.as_str(), name) {
                    proof {
                        assert(trimmed@ == trim(pieces[i as int]));
                        assert(cookie_value(header@, name@, i as int + 1) == Some(value@));
                        lemma_cookie_value_found(header@, name@, i as int + 1, pieces.len() as int);
                    }
                    return Some(value);
                }
            },
            None => {},
        }
        i = i + 1;
    }
    None
}

/// Once found, the cookie's value is the one of the whole header.
proof fn lemma_cookie_value_found(header: Seq<char>, name: Seq<char>, n: int, m: int)
    requires
        0 < n <= m,
        cookie_value(header, name, n) is Some,
    ensures
        cookie_value(header, name, m) == cookie_value(header, name, n),
    decreases m - n,
{
    if n < m {
        lemma_cookie_value_found(header, name, n, m - 1);
    }
}

/// The `Set-Cookie` text of a cookie: `name=value; Path=…; SameSite=…`,
/// then `; Domain=…` and `; Max-Age=…` when set, then `; HttpOnly` and
/// `; Secure` when on.
pub open spec fn set_cookie_text(s: SetCookie) -> Seq<char> {
    s.name@ + "="@ + s.value@ + "; Path="@ + s.path@ + "; SameSite="@ + s.same_site@ + (match s.domain {
        Some(d) => "; Domain="@ + d@,
        None => Seq::<char>::empty(),
    }) + (match s.max_age_seconds {
        Some(n) => "; Max-Age="@ + signed_decimal(n as int),
        None => Seq::<char>::empty(),
    }) + (if s.http_only {
        "; HttpOnly"@
    } else {
        Seq::<char>::empty()
    }) + (if s.secure {
        "; Secure"@
    } else {
        Seq::<char>::empty()
    })
}

/// Whether `m` stands somewhere in `t`.
pub open spec fn holds_text(t: Seq<char>, m: Seq<char>) -> bool {
    exists|i: int| 0 <= i && i + m.len() <= t.len() && #[trigger] t.subrange(i, i + m.len()) == m
}

/// A cookie given a lifetime says so, whatever its domain: its `Set-Cookie`
/// text holds `; Max-Age=` and the number of seconds.
pub proof fn lemma_cookie_keeps_max_age(settings: SetCookie, seconds: i64)
    requires
        settings.max_age_seconds == Some(seconds),
    ensures
        ({
            let t = set_cookie_text(settings);
            holds_text(t, "; Max-Age="@ + signed_decimal(seconds as int))
        }),
{
    let t = set_cookie_text(settings);
    let m = "; Max-Age="@ + signed_decimal(seconds as int);
    let head = settings.name@ + "="@ + settings.value@ + "; Path="@ + settings.path@ + "; SameSite="@
        + settings.same_site@ + (match settings.domain {
        Some(d) => "; Domain="@ + d@,
        None => Seq::<char>::empty(),
    });
    let i = head.len() as int;
    assert(t.subrange(i, i + m.len()) =~= m);
}

/// A cookie marked `HttpOnly` or `Secure` says so in its `Set-Cookie` text,
/// and its text always ends with the last of the attributes that are set.
pub proof fn lemma_cookie_keeps_flags(settings: SetCookie)
    ensures
        settings.http_only ==> holds_text(set_cookie_text(settings), "; HttpOnly"@),
        settings.secure ==> holds_text(set_cookie_text(settings), "; Secure"@),
        settings.secure ==> crate::text::ends_with(set_cookie_text(settings), "; Secure"@),
        settings.http_only && !settings.secure ==> crate::text::ends_with(
            set_cookie_text(settings),
            "; HttpOnly"@,
        ),
{
    let t = set_cookie_text(settings);
    let flags = (if settings.http_only {
        "; HttpOnly"@
    } else {
        Seq::<char>::empty()
    }) + (if settings.secure {
        "; Secure"@
    } else {
        Seq::<char>::empty()
    });
    let i = t.len() - flags.len();
    assert(t.skip(i) =~= flags);
    if settings.http_only {
        let m = "; HttpOnly"@;
        assert(t.subrange(i, i + m.len()) =~= m);
    }
    if settings.secure {
        let m = "; Secure"@;
        let j = t.len() - m.len();
        assert(t.subrange(j, j + m.len()) =~= m);
        assert(t.skip(j) =~= m);
    }
}

/// Setting a domain only adds `; Domain=<domain>` after the `SameSite`
/// attribute: everything else in the `Set-Cookie` text stays as it is
/// without one.
pub proof fn lemma_cookie_domain_inserted<'a>(settings: SetCookie<'a>, domain: &'a str)
    requires
        settings.domain is None,
    ensures
        ({
            let with_domain = (SetCookie {
                name: settings.name,
                value: settings.value,
                path: settings.path,
                domain: Some(domain),
                max_age_seconds: settings.max_age_seconds,
                http_only: settings.http_only,
                secure: settings.secure,
                same_site: settings.same_site,
            });
            let head = settings.name@ + "="@ + settings.value@ + "; Path="@ + settings.path@ + "; SameSite="@
                + settings.same_site@;
            set_cookie_text(with_domain) == head + "; Domain="@ + domain@ + set_cookie_text(settings).skip(
                head.len() as int,
            )
        }),
{
    let head = settings.name@ + "="@ + settings.value@ + "; Path="@ + settings.path@ + "; SameSite="@
        + settings.same_site@;
    let with_domain = (SetCookie {
        name: settings.name,
        value: settings.value,
        path: settings.path,
        domain: Some(domain),
        max_age_seconds: settings.max_age_seconds,
        http_only: settings.http_only,
        secure: settings.secure,
        same_site: settings.same_site,
    });
    let t = set_cookie_text(settings);
    assert(t.skip(head.len() as int) =~= (match settings.max_age_seconds {
        Some(n) => "; Max-Age="@ + signed_decimal(n as int),
        None => Seq::<char>::empty(),
    }) + (if settings.http_only {
        "; HttpOnly"@
    } else {
        Seq::<char>::empty()
    }) + (if settings.secure {
        "; Secure"@
    } else {
        Seq::<char>::empty()
    }));
    assert(set_cookie_text(with_domain) =~= head + "; Domain="@ + domain@ + t.skip(head.len() as int));
}

/// A cookie the service sets is read back: the browser keeps the text of
/// its `Set-Cookie` header before the first `;`, and reading the cookie of
/// that name from it, sent back as the `Cookie` header, gives the value set.
/// This holds for a name without `=` and a name and value without `;` whose
/// pair neither starts nor ends with whitespace (which reading trims).
pub proof fn lemma_cookie_read_back(settings: SetCookie)
    requires
        forall|k: int| 0 <= k < settings.name@.len() ==> #[trigger] settings.name@[k] != ';'
            && settings.name@[k] != '=',
        forall|k: int| 0 <= k < settings.value@.len() ==> #[trigger] settings.value@[k] != ';',
        trim(settings.name@ + "="@ + settings.value@) == settings.name@ + "="@ + settings.value@,
    ensures
        ({
            let header = crate::text::before_first(set_cookie_text(settings), ';');
            &&& header == settings.name@ + "="@ + settings.value@
            &&& cookie_value(header, settings.name@, split(header, ';').len() as int) == Some(
                settings.value@,
            )
        }),
{
    reveal_strlit("=");
    reveal_strlit("; Path=");
    let name = settings.name@;
    let value = settings.value@;
    let pair = name + "="@ + value;
    assert(pair =~= name + seq!['='] + value);
    let t = set_cookie_text(settings);
    assert forall|k: int| 0 <= k < pair.len() implies #[trigger] pair[k] != ';' by {
        if k < name.len() {
            assert(pair[k] == name[k]);
        } else if k > name.len() {
            assert(pair[k] == value[k - name.len() - 1]);
        }
    }
    assert(t.take(pair.len() as int) =~= pair);
    assert(t[pair.len() as int] == ';');
    crate::text::lemma_first_pos_unique(t, ';', pair.len() as int);
    assert(crate::text::before_first(t, ';') =~= pair);
    crate::text::lemma_first_pos_unique(pair, ';', pair.len() as int);
    assert(split(pair, ';') =~= seq![pair]);
    crate::text::lemma_split_once_at(name, '=', value);
    assert(cookie_value(pair, name, 0) is None);
    assert(cookie_value(pair, name, 1) == Some(value));
}

/// Whether a character may stand in a header value (`HeaderValue::from_str`
/// accepts every byte but the control characters other than tab).
pub open spec fn is_header_value_char(c: char) -> bool {
    ((c as u32) >= 32 && (c as u32) != 127) || c == '\t'
}

/// Whether every character of a text may stand in a header value.
pub open spec fn is_header_value(s: Seq<char>) -> bool {
    forall|i: int| 0 <= i < s.len() ==> is_header_value_char(#[trigger] s[i])
}

/// A text as a header value (`HeaderValue::from_str`); a control character
/// other than tab is an internal error.
pub fn header_value(text: &str) -> (r: Result<(), AppError>)
    ensures
        is_header_value(text@) ==> r is Ok,
        !is_header_value(text@) ==> (r matches Err(AppError::Internal(m)) && m@ == "failed to parse header value"@),
{
    let v = chars_of(text);
    let mut i: usize = 0;
    while i < v.len()
        invariant
            i <= v@.len(),
            v@ == text@,
            forall|k: int| 0 <= k < i ==> is_header_value_char(#[trigger] v@[k]),
        decreases v@.len() - i,
    {
        let n = v[i] as u32;
        if !((n >= 32 && n != 127) || v[i] == '\t') {
            return Err(AppError::Internal("failed to parse header value".to_owned()));
        }
        i = i + 1;
    }
    Ok(())
}

/// The `Set-Cookie` header value of a cookie; a value holding a control
/// character is an internal error.
pub fn append(settings: SetCookie) -> (r: Result<String, AppError>)
    ensures
        (forall|i: int| 0 <= i < set_cookie_text(settings).len() ==> is_header_value_char(
            #[trigger] set_cookie_text(settings)[i],
        )) ==> (r matches Ok(h) && h@ == set_cookie_text(settings)),
        !(forall|i: int| 0 <= i < set_cookie_text(settings).len() ==> is_header_value_char(
            #[trigger] set_cookie_text(settings)[i],
        )) ==> (r matches Err(AppError::Internal(m)) && m@ == "failed to parse header value"@),
{
    let mut cookie = settings.name.to_owned();
    push_str(&mut cookie, "=");
    push_str(&mut cookie, settings.value);
    push_str(&mut cookie, "; Path=");
    push_str(&mut cookie, settings.path);
    push_str(&mut cookie, "; SameSite=");
    push_str(&mut cookie, settings.same_site);
    if let Some(domain) = settings.domain {
        push_str(&mut cookie, "; Domain=");
        push_str(&mut cookie, domain);
    }
    if let Some(max_age) = settings.max_age_seconds {
        push_str(&mut cookie, "; Max-Age=");
        push_signed_decimal(&mut cookie, max_age);
    }
    if settings.http_only {
        push_str(&mut cookie, "; HttpOnly");
    }
    if settings.secure {
        push_str(&mut cookie, "; Secure");
    }
    assert(cookie@ =~= set_cookie_text(settings));
    let v = chars_of(cookie.as_str());
    let mut i: usize = 0;
    while i < v.len()
        invariant
            i <= v@.len(),
            v@ == set_cookie_text(settings),
            forall|k: int| 0 <= k < i ==> is_header_value_char(#[trigger] v@[k]),
        decreases v@.len() - i,
    {
        let n = v[i] as u32;
        if !((n >= 32 && n != 127) || v[i] == '\t') {
            return Err(AppError::Internal("failed to parse header value".to_owned()));
        }
        i = i + 1;
    }
    Ok(cookie)
}

} // verus!
