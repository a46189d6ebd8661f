//! Text processing around loading a configuration file: environment
//! placeholders, URL normalization, and the command line.
use vstd::prelude::*;

use crate::config::Config;
use crate::text::{
    chars_of, first_pos, is_alphanumeric, is_control, push_char, push_chars, push_str, str_equal,
    string_of, trim_end, trim_end_slashes, TrimSet,
};

verus! {

// ---------------------------------------------------------------------------
// Escaping for TOML basic strings.
// ---------------------------------------------------------------------------

/// The uppercase hexadecimal digit for `d` (`0 <= d < 16`).
pub open spec fn hex_upper(d: nat) -> char {
    if d < 10 {
        (48 + d) as char
    } else {
        (55 + d) as char
    }
}

/// Four uppercase hexadecimal digits of `n` (`n < 0x10000`).
pub open spec fn hex4(n: nat) -> Seq<char> {
    seq![hex_upper(n / 4096 % 16), hex_upper(n / 256 % 16), hex_upper(n / 16 % 16), hex_upper(n % 16)]
}

/// How one character is written inside a TOML basic string.
pub open spec fn toml_escape_char(c: char) -> Seq<char> {
    if c == '\\' {
        seq!['\\', '\\']
    } else if c == '"' {
        seq!['\\', '"']
    } else if c == '\n' {
        seq!['\\', 'n']
    } else if c == '\r' {
        seq!['\\', 'r']
    } else if c == '\t' {
        seq!['\\', 't']
    } else if is_control(c) {
        seq!['\\', 'u'] + hex4(c as nat)
    } else {
        seq![c]
    }
}

/// `s` escaped for a TOML basic string: backslash, quote, line feed, carriage
/// return and tab by their short escapes, other control characters as `\uXXXX`.
pub open spec fn toml_escape(s: Seq<char>) -> Seq<char>
    decreases s.len(),
{
    if s.len() == 0 {
        seq![]
    } else {
        toml_escape(s.drop_last()) + toml_escape_char(s.last())
    }
}

fn hex_upper_char(d: u32) -> (c: char)
    requires
        d < 16,
    ensures
        c == hex_upper(d as nat),
{
    if d < 10 {
        crate::text::char_from_ascii(48 + d)
    } else {
        crate::text::char_from_ascii(55 + d)
    }
}

fn push_toml_escaped(out: &mut String, c: char)
    ensures
        final(out)@ == old(out)@ + toml_escape_char(c),
{
    if c == '\\' {
        push_char(out, '\\');
        push_char(out, '\\');
    } else if c == '"' {
        push_char(out, '\\');
        push_char(out, '"');
    } else if c == '\n' {
        push_char(out, '\\');
        push_char(out, 'n');
    } else if c == '\r' {
        push_char(out, '\\');
        push_char(out, 'r');
    } else if c == '\t' {
        push_char(out, '\\');
        push_char(out, 't');
    } else if (c as u32) < 0x20 || (0x7F <= (c as u32) && (c as u32) <= 0x9F) {
        let n = c as u32;
        push_char(out, '\\');
        push_char(out, 'u');
        push_char(out, hex_upper_char(n / 4096 % 16));
        push_char(out, hex_upper_char(n / 256 % 16));
        push_char(out, hex_upper_char(n / 16 % 16));
        push_char(out, hex_upper_char(n % 16));
    } else {
        push_char(out, c);
    }
}

/// Escapes `value` for the inside of a TOML basic string.
pub fn escape_toml_string_content(value: &str) -> (r: String)
    ensures
        r@ == toml_escape(value@),
{
    let v = chars_of(value);
    let mut out = String::new();
    let mut i: usize = 0;
    while i < v.len()
        invariant
            i <= v@.len(),
            out@ == toml_escape(v@.take(i as int)),
        decreases v@.len() - i,
    {
        assert(v@.take(i + 1).drop_last() == v@.take(i as int));
        push_toml_escaped(&mut out, v[i]);
        i = i + 1;
    }
    assert(v@.take(v@.len() as int) == v@);
    out
}

// ---------------------------------------------------------------------------
// Environment placeholders.
// ---------------------------------------------------------------------------

/// Why a placeholder could not be replaced (abstract form).
pub enum PlaceholderProblem {
    /// A `${` outside a TOML basic string.
    OutsideString,
    /// A `${` without a closing `}`.
    Unterminated,
    /// A placeholder name that is empty or has a character other than an
    /// ASCII letter, digit or `_`.
    InvalidName(Seq<char>),
    /// A placeholder naming a variable that is not set.
    Missing(Seq<char>),
}

/// Why a placeholder could not be replaced.
#[derive(Clone, Debug)]
pub enum PlaceholderError {
    OutsideString,
    Unterminated,
    InvalidName(String),
    Missing(String),
}

impl PlaceholderError {
    pub open spec fn view(self) -> PlaceholderProblem {
        match self {
            PlaceholderError::OutsideString => PlaceholderProblem::OutsideString,
            PlaceholderError::Unterminated => PlaceholderProblem::Unterminated,
            PlaceholderError::InvalidName(n) => PlaceholderProblem::InvalidName(n@),
            PlaceholderError::Missing(n) => PlaceholderProblem::Missing(n@),
        }
    }

    /// A description for the operator.
    pub open spec fn text(self) -> Seq<char> {
        match self {
            PlaceholderError::OutsideString => "environment placeholders must appear inside TOML basic strings"@,
            PlaceholderError::Unterminated => "unterminated environment placeholder"@,
            PlaceholderError::InvalidName(name) => "invalid environment placeholder: ${"@ + name@ + "}"@,
            PlaceholderError::Missing(name) => "environment variable "@ + name@ + " is required"@,
        }
    }

    /// A description for the operator.
    pub fn message(&self) -> (m: String)
        ensures
            m@ == self.text(),
    {
        proof {
            reveal_strlit("}");
        }
        match self {
            PlaceholderError::OutsideString => {
                "environment placeholders must appear inside TOML basic strings".to_owned()
            },
            PlaceholderError::Unterminated => "unterminated environment placeholder".to_owned(),
            PlaceholderError::InvalidName(name) => {
                let mut m = "invalid environment placeholder: ${".to_owned();
                push_str(&mut m, name.as_str());
                push_char(&mut m, '}');
                m
            },
            PlaceholderError::Missing(name) => {
                let mut m = "environment variable ".to_owned();
                push_str(&mut m, name.as_str());
                push_str(&mut m, " is required");
                m
            },
        }
    }
}

/// The value of the first variable named `name` in `env`.
pub open spec fn env_lookup(env: Seq<(Seq<char>, Seq<char>)>, name: Seq<char>) -> Option<Seq<char>>
    decreases env.len(),
{
    if env.len() == 0 {
        None
    } else if env[0].0 == name {
        Some(env[0].1)
    } else {
        env_lookup(env.drop_first(), name)
    }
}

/// A placeholder name character: an ASCII letter or digit, or `_`.
pub open spec fn is_name_char(c: char) -> bool {
    is_alphanumeric(c) || c == '_'
}

/// A placeholder name: non-empty, of name characters.
pub open spec fn is_placeholder_name(n: Seq<char>) -> bool {
    n.len() > 0 && forall|i: int| 0 <= i < n.len() ==> is_name_char(#[trigger] n[i])
}

/// Prepends `p` to a successful result.
pub open spec fn prepend(p: Seq<char>, r: Result<Seq<char>, PlaceholderProblem>) -> Result<
    Seq<char>,
    PlaceholderProblem,
> {
    match r {
        Ok(x) => Ok(p + x),
        Err(e) => Err(e),
    }
}

proof fn lemma_prepend_prepend(a: Seq<char>, b: Seq<char>, r: Result<Seq<char>, PlaceholderProblem>)
    ensures
        prepend(a, prepend(b, r)) == prepend(a + b, r),
{
    if let Ok(x) = r {
        assert(a + (b + x) == (a + b) + x);
    }
}

/// Whether the scanner is inside a basic string after reading `c`.
pub open spec fn next_in_string(in_string: bool, escaped: bool, c: char) -> bool {
    if in_string {
        escaped || c != '"'
    } else {
        c == '"'
    }
}

/// Whether the next character is escaped after reading `c`.
pub open spec fn next_escaped(in_string: bool, escaped: bool, c: char) -> bool {
    in_string && !escaped && c == '\\'
}

/// The scanner's state after reading `s` from `state`: whether it is inside
/// a basic string, and whether the next character is escaped.
pub open spec fn scan_state(s: Seq<char>, state: (bool, bool)) -> (bool, bool)
    decreases s.len(),
{
    if s.len() == 0 {
        state
    } else {
        let before = scan_state(s.drop_last(), state);
        (next_in_string(before.0, before.1, s.last()), next_escaped(before.0, before.1, s.last()))
    }
}

proof fn lemma_scan_concat(a: Seq<char>, b: Seq<char>, state: (bool, bool))
    ensures
        scan_state(a + b, state) == scan_state(b, scan_state(a, state)),
    decreases b.len(),
{
    if b.len() == 0 {
        assert(a + b =~= a);
    } else {
        lemma_scan_concat(a, b.drop_last(), state);
        assert((a + b).drop_last() =~= a + b.drop_last());
        assert((a + b).last() == b.last());
    }
}

/// An escaped value never closes the basic string it is written into: the
/// scan that enters it inside a string, after no backslash, leaves it in the
/// same state, whatever the value holds.
pub proof fn lemma_escaped_value_stays_in_string(v: Seq<char>)
    ensures
        scan_state(toml_escape(v), (true, false)) == (true, false),
    decreases v.len(),
{
    if v.len() > 0 {
        lemma_escaped_value_stays_in_string(v.drop_last());
        let c = v.last();
        let e = toml_escape_char(c);
        lemma_scan_concat(toml_escape(v.drop_last()), e, (true, false));
        assert(forall|d: nat| d < 16 ==> #[trigger] hex_upper(d) != '"' && hex_upper(d) != '\\');
        reveal_with_fuel(scan_state, 7);
        if c != '\\' && c != '"' && c != '\n' && c != '\r' && c != '\t' && is_control(c) {
            let n = c as nat;
            assert(e =~= seq!['\\', 'u', hex_upper(n / 4096 % 16), hex_upper(n / 256 % 16), hex_upper(n / 16 % 16), hex_upper(n % 16)]);
        }
    }
}

/// Replaces every `${NAME}` placeholder of `s` by the TOML-escaped value of
/// the variable `NAME` in `env`. Placeholders are only allowed inside TOML
/// basic strings, which the scan follows (`"` opens and closes one, `\`
/// escapes the next character); the state on entry is given.
pub open spec fn interpolate(
    s: Seq<char>,
    env: Seq<(Seq<char>, Seq<char>)>,
    in_string: bool,
    escaped: bool,
) -> Result<Seq<char>, PlaceholderProblem>
    decreases s.len(),
{
    if s.len() == 0 {
        Ok(seq![])
    } else if s.len() >= 2 && s[0] == '$' && s[1] == '{' {
        if !in_string {
            Err(PlaceholderProblem::OutsideString)
        } else {
            let rest = s.skip(2);
            let p = first_pos(rest, '}');
            if p >= rest.len() {
                Err(PlaceholderProblem::Unterminated)
            } else if !is_placeholder_name(rest.take(p as int)) {
                Err(PlaceholderProblem::InvalidName(rest.take(p as int)))
            } else {
                match env_lookup(env, rest.take(p as int)) {
                    None => Err(PlaceholderProblem::Missing(rest.take(p as int))),
                    Some(value) => prepend(
                        toml_escape(value),
                        interpolate(rest.skip(p + 1int), env, true, false),
                    ),
                }
            }
        }
    } else {
        prepend(
            seq![s[0]],
            interpolate(
                s.drop_first(),
                env,
                next_in_string(in_string, escaped, s[0]),
                next_escaped(in_string, escaped, s[0]),
            ),
        )
    }
}

/// A text without `${` is left as it is by interpolation, whatever the
/// environment.
pub proof fn lemma_interpolation_keeps_plain_text(
    s: Seq<char>,
    env: Seq<(Seq<char>, Seq<char>)>,
    in_string: bool,
    escaped: bool,
)
    requires
        forall|i: int| 0 <= i < s.len() - 1 ==> !(#[trigger] s[i] == '$' && s[i + 1] == '{'),
    ensures
        interpolate(s, env, in_string, escaped) == Ok::<Seq<char>, PlaceholderProblem>(s),
    decreases s.len(),
{
    if s.len() == 0 {
        assert(s =~= seq![]);
    } else {
        if s.len() >= 2 {
            assert(!(s[0] == '$' && s[1] == '{'));
        }
        let t = s.drop_first();
        assert forall|i: int| 0 <= i < t.len() - 1 implies !(#[trigger] t[i] == '$' && t[i + 1] == '{') by {
            assert(t[i] == s[i + 1] && t[i + 1] == s[i + 2]);
        }
        lemma_interpolation_keeps_plain_text(
            t,
            env,
            next_in_string(in_string, escaped, s[0]),
            next_escaped(in_string, escaped, s[0]),
        );
        assert(seq![s[0]] + t =~= s);
    }
}

fn valid_placeholder_name(name: &Vec<char>) -> (r: bool)
    ensures
        r == is_placeholder_name(name@),
{
    let mut k: usize = 0;
    let mut valid = name.len() > 0;
    while k < name.len()
        invariant
            k <= name@.len(),
            valid <==> (name@.len() > 0 && forall|m: int|
                0 <= m < k ==> is_name_char(#[trigger] name@[m])),
        decreases name@.len() - k,
    {
        let c = name[k];
        if !(crate::text::is_alphanumeric_char(c) || c == '_') {
            valid = false;
        }
        k = k + 1;
    }
    valid
}

/// The abstract form of an environment snapshot.
pub open spec fn env_view(env: Seq<(String, String)>) -> Seq<(Seq<char>, Seq<char>)> {
    env.map_values(|p: (String, String)| (p.0@, p.1@))
}

fn lookup_environment(env: &Vec<(String, String)>, name: &Vec<char>) -> (r: Option<String>)
    ensures
        match env_lookup(env_view(env@), name@) {
            None => r is None,
            Some(v) => r matches Some(s) && s@ == v,
        },
{
    let ghost e = env_view(env@);
    let mut k: usize = 0;
    assert(e.skip(0) == e);
    while k < env.len()
        invariant
            k <= env@.len(),
            e == env_view(env@),
            env_lookup(e, name@) == env_lookup(e.skip(k as int), name@),
        decreases env@.len() - k,
    {
        let key = chars_of(env[k].0.as_str());
        assert(e.skip(k as int)[0] == (env@[k as int].0@, env@[k as int].1@));
        assert(e.skip(k as int).drop_first() == e.skip(k + 1));
        if crate::text::chars_equal(&key, name) {
            return Some(env[k].1.clone());
        }
        k = k + 1;
    }
    None
}

/// Replaces the environment placeholders of a configuration text by the
/// values in the snapshot `env` (name and value pairs).
pub fn interpolate_environment(input: &str, env: &Vec<(String, String)>) -> (r: Result<
    String,
    PlaceholderError,
>)
    ensures
        match r {
            Ok(out) => interpolate(input@, env_view(env@), false, false) == Ok::<
                Seq<char>,
                PlaceholderProblem,
            >(out@),
            Err(e) => interpolate(input@, env_view(env@), false, false) == Err::<
                Seq<char>,
                PlaceholderProblem,
            >(e.view()),
        },
{
    let v = chars_of(input);
    let ghost e = env_view(env@);
    let mut out = String::new();
    let mut i: usize = 0;
    let mut in_string = false;
    let mut escaped = false;
    assert(v@.skip(0) == v@);
    while i < v.len()
        invariant
            i <= v@.len(),
            v@ == input@,
            e == env_view(env@),
            interpolate(v@, e, false, false) == prepend(
                out@,
                interpolate(v@.skip(i as int), e, in_string, escaped),
            ),
        decreases v@.len() - i,
    {
        let ghost t = v@.skip(i as int);
        if i + 1 < v.len() && v[i] == '$' && v[i + 1] == '{' {
            assert(t[0] == '$' && t[1] == '{');
            if !in_string {
                return Err(PlaceholderError::OutsideString);
            }
            let end = crate::text::find_char(&v, i + 2, '}');
            assert(t.skip(2) == v@.skip(i + 2));
            if end >= v.len() {
                return Err(PlaceholderError::Unterminated);
            }
            let name = crate::text::sub_vec(&v, i + 2, end);
            let ghost rest = t.skip(2);
            assert(name@ == rest.take(end - i - 2));
            let valid = valid_placeholder_name(&name);
            if !valid {
                return Err(PlaceholderError::InvalidName(string_of(&name)));
            }
            match lookup_environment(env, &name) {
                None => {
                    return Err(PlaceholderError::Missing(string_of(&name)));
                },
                Some(value) => {
                    let escaped_value = escape_toml_string_content(value.as_str());
                    assert(rest.skip(end - i - 2 + 1) == v@.skip(end + 1));
                    proof {
                        lemma_prepend_prepend(
                            out@,
                            toml_escape(value@),
                            interpolate(v@.skip(end + 1), e, true, false),
                        );
                    }
                    assert(interpolate(t, e, in_string, escaped) == prepend(toml_escape(value@), interpolate(v@.skip(end + 1), e, true, false)));
                    push_str(&mut out, escaped_value.as_str());
                    i = end + 1;
                    escaped = false;
                    assert(interpolate(v@, e, false, false) == prepend(out@, interpolate(v@.skip(i as int), e, in_string, escaped)));
                },
            }
        } else {
            assert(!(t.len() >= 2 && t[0] == '$' && t[1] == '{'));
            let c = v[i];
            assert(t[0] == c);
            assert(t.drop_first() == v@.skip(i + 1));
            proof {
                lemma_prepend_prepend(
                    out@,
                    seq![c],
                    interpolate(
                        t.drop_first(),
                        e,
                        next_in_string(in_string, escaped, c),
                        next_escaped(in_string, escaped, c),
                    ),
                );
            }
            assert(interpolate(t, e, in_string, escaped) == prepend(seq![c], interpolate(
                        t.drop_first(),
                        e,
                        next_in_string(in_string, escaped, c),
                        next_escaped(in_string, escaped, c),
                    )));
            let ghost before = out@;
            push_char(&mut out, c);
            assert(out@ == before + seq![c]);
            let next_string = if in_string {
                escaped || c != '"'
            } else {
                c == '"'
            };
            let next_escape = in_string && !escaped && c == '\\';
            in_string = next_string;
            escaped = next_escape;
            i = i + 1;
            assert(interpolate(v@, e, false, false) == prepend(out@, interpolate(v@.skip(i as int), e, in_string, escaped)));
        }
    }
    assert(v@.skip(i as int).len() == 0);
    Ok(out)
}

// ---------------------------------------------------------------------------
// Normalization after parsing.
// ---------------------------------------------------------------------------

/// The normalized form of an optional support URL: trailing `/` removed, and
/// absent when nothing is left.
pub open spec fn normalized_support_url(url: Option<Seq<char>>) -> Option<Seq<char>> {
    match url {
        None => None,
        Some(u) => if trim_end(u, TrimSet::Slash).len() == 0 {
            None
        } else {
            Some(trim_end(u, TrimSet::Slash))
        },
    }
}

impl Config {
    /// Removes trailing `/` from the public base URL and the web links, and
    /// drops a support URL that is left empty; nothing else changes.
    pub fn normalize_urls(&mut self)
        ensures
            final(self).server.public_base_url@ == trim_end(
                old(self).server.public_base_url@,
                TrimSet::Slash,
            ),
            final(self).web.repository_url@ == trim_end(old(self).web.repository_url@, TrimSet::Slash),
            final(self).web.documentation_url@ == trim_end(
                old(self).web.documentation_url@,
                TrimSet::Slash,
            ),
            crate::links::same_text(
                final(self).web.support_url,
                normalized_support_url(crate::text::opt_text(old(self).web.support_url)),
            ),
            final(self).server.bind == old(self).server.bind,
            final(self).server.max_request_body_bytes == old(self).server.max_request_body_bytes,
            final(self).server.max_in_flight_requests == old(self).server.max_in_flight_requests,
            final(self).server.shutdown_grace_seconds == old(self).server.shutdown_grace_seconds,
            final(self).server.cors_allowed_origins == old(self).server.cors_allowed_origins,
            final(self).server.cors_allow_credentials == old(self).server.cors_allow_credentials,
            final(self).web.enabled == old(self).web.enabled,
            final(self).web.template_path == old(self).web.template_path,
            final(self).web.assets_directory == old(self).web.assets_directory,
            final(self).web.assets_route == old(self).web.assets_route,
            final(self).web.site_name == old(self).web.site_name,
            final(self).web.tagline == old(self).web.tagline,
            final(self).web.date_locale == old(self).web.date_locale,
            final(self).web.time_zone == old(self).web.time_zone,
            final(self).web.brand_color == old(self).web.brand_color,
            final(self).web.dashboard_reporting_days == old(self).web.dashboard_reporting_days,
            final(self).web.dashboard_refresh_seconds == old(self).web.dashboard_refresh_seconds,
            final(self).web.jobs_refresh_seconds == old(self).web.jobs_refresh_seconds,
            final(self).web.page_size_options == old(self).web.page_size_options,
            final(self).web.cache_control == old(self).web.cache_control,
            final(self).routes == old(self).routes,
            final(self).api == old(self).api,
            final(self).database == old(self).database,
            final(self).storage == old(self).storage,
            final(self).streaming == old(self).streaming,
            final(self).registration == old(self).registration,
            final(self).browser_auth == old(self).browser_auth,
            final(self).security == old(self).security,
            final(self).uploads == old(self).uploads,
            final(self).remote_imports == old(self).remote_imports,
            final(self).jobs == old(self).jobs,
            final(self).transcoding == old(self).transcoding,
            final(self).analytics == old(self).analytics,
            final(self).player == old(self).player,
            final(self).observability == old(self).observability,
    {
        self.server.public_base_url = trim_end_slashes(self.server.public_base_url.as_str());
        self.web.repository_url = trim_end_slashes(self.web.repository_url.as_str());
        self.web.documentation_url = trim_end_slashes(self.web.documentation_url.as_str());
        let support = match &self.web.support_url {
            None => None,
            Some(url) => {
                let trimmed = trim_end_slashes(url.as_str());
                if trimmed.as_str().is_empty() {
                    None
                } else {
                    Some(trimmed)
                }
            },
        };
        self.web.support_url = support;
    }
}

// ---------------------------------------------------------------------------
// The command line.
// ---------------------------------------------------------------------------

/// Why no configuration path could be determined (abstract form).
pub enum ArgumentProblem {
    /// `--config` was given more than once.
    Repeated,
    /// `--config` was the last argument.
    MissingValue,
    /// An argument other than `--config` and its value.
    Unsupported(Seq<char>),
    /// Neither `--config` nor the environment variable named a path.
    NoPath,
}

/// Why no configuration path could be determined.
#[derive(Clone, Debug)]
pub enum ArgumentError {
    Repeated,
    MissingValue,
    Unsupported(String),
    NoPath,
}

impl ArgumentError {
    pub open spec fn view(self) -> ArgumentProblem {
        match self {
            ArgumentError::Repeated => ArgumentProblem::Repeated,
            ArgumentError::MissingValue => ArgumentProblem::MissingValue,
            ArgumentError::Unsupported(a) => ArgumentProblem::Unsupported(a@),
            ArgumentError::NoPath => ArgumentProblem::NoPath,
        }
    }

    /// A description for the operator.
    pub open spec fn text(self) -> Seq<char> {
        match self {
            ArgumentError::Repeated => "--config may only be specified once"@,
            ArgumentError::MissingValue => "--config requires a path"@,
            ArgumentError::Unsupported(argument) => "unsupported command-line argument: "@ + argument@,
            ArgumentError::NoPath => "configuration path is required via --config or GULFSTREAM_CONFIG"@,
        }
    }

    /// A description for the operator.
    pub fn message(&self) -> (m: String)
        ensures
            m@ == self.text(),
    {
        match self {
            ArgumentError::Repeated => "--config may only be specified once".to_owned(),
            ArgumentError::MissingValue => "--config requires a path".to_owned(),
            ArgumentError::Unsupported(argument) => {
                let mut m = "unsupported command-line argument: ".to_owned();
                push_str(&mut m, argument.as_str());
                m
            },
            ArgumentError::NoPath => {
                "configuration path is required via --config or GULFSTREAM_CONFIG".to_owned()
            },
        }
    }
}

/// The path chosen by the arguments `args` (without the program name), the
/// path `found` so far, and the value of `GULFSTREAM_CONFIG`.
pub open spec fn choose_config_path(
    args: Seq<Seq<char>>,
    found: Option<Seq<char>>,
    environment: Option<Seq<char>>,
) -> Result<Seq<char>, ArgumentProblem>
    decreases args.len(),
{
    if args.len() == 0 {
        match found {
            Some(p) => Ok(p),
            None => match environment {
                Some(p) => Ok(p),
                None => Err(ArgumentProblem::NoPath),
            },
        }
    } else if args[0] == "--config"@ {
        if found is Some {
            Err(ArgumentProblem::Repeated)
        } else if args.len() < 2 {
            Err(ArgumentProblem::MissingValue)
        } else {
            choose_config_path(args.skip(2), Some(args[1]), environment)
        }
    } else {
        Err(ArgumentProblem::Unsupported(args[0]))
    }
}

/// Chooses the configuration file: `--config PATH` on the command line, else
/// the `GULFSTREAM_CONFIG` environment variable (`environment`).
pub fn configured_path(arguments: &Vec<String>, environment: Option<String>) -> (r: Result<
    String,
    ArgumentError,
>)
    ensures
        ({
            let args = arguments@.map_values(|a: String| a@);
            let env = crate::text::opt_text(environment);
            match r {
                Ok(p) => choose_config_path(args, None, env) == Ok::<Seq<char>, ArgumentProblem>(
                    p@,
                ),
                Err(e) => choose_config_path(args, None, env) == Err::<Seq<char>, ArgumentProblem>(
                    e.view(),
                ),
            }
        }),
{
    let ghost args = arguments@.map_values(|a: String| a@);
    let ghost env = crate::text::opt_text(environment);
    let mut found: Option<String> = None;
    let mut i: usize = 0;
    assert(args.skip(0) == args);
    while i < arguments.len()
        invariant
            i <= arguments@.len(),
            args == arguments@.map_values(|a: String| a@),
            env == crate::text::opt_text(environment),
            choose_config_path(args, None, env) == choose_config_path(
                args.skip(i as int),
                crate::text::opt_text(found),
                env,
            ),
        decreases arguments@.len() - i,
    {
        let ghost t = args.skip(i as int);
        assert(t[0] == arguments@[i as int]@);
        if str_equal(arguments[i].as_str(), "--config") {
            assert(t[0] == "--config"@);
            if found.is_some() {
                assert(choose_config_path(t, crate::text::opt_text(found), env) == Err::<Seq<char>, ArgumentProblem>(ArgumentProblem::Repeated));
                return Err(ArgumentError::Repeated);
            }
            if i + 1 >= arguments.len() {
                assert(t.len() < 2);
                assert(choose_config_path(t, crate::text::opt_text(found), env) == Err::<Seq<char>, ArgumentProblem>(ArgumentProblem::MissingValue));
                return Err(ArgumentError::MissingValue);
            }
            assert(t[1] == arguments@[i + 1]@);
            assert(t.skip(2) == args.skip(i + 2));
            found = Some(arguments[i + 1].clone());
            i = i + 2;
        } else {
            assert(t[0] != "--config"@);
            assert(choose_config_path(t, crate::text::opt_text(found), env) == Err::<Seq<char>, ArgumentProblem>(ArgumentProblem::Unsupported(t[0])));
            return Err(ArgumentError::Unsupported(arguments[i].clone()));
        }
    }
    assert(args.skip(i as int).len() == 0);
    match found {
        Some(p) => Ok(p),
        None => match environment {
            Some(p) => Ok(p),
            None => Err(ArgumentError::NoPath),
        },
    }
}

} // verus!
