//! The rules a configuration must satisfy before the server starts.
//!
//! `Config::validate` checks the sections in a fixed order and reports the
//! first violated rule; `config_problem` states that order as a specification.
use vstd::prelude::*;

use crate::config::{
    config_error, AnalyticsConfig, ApiConfig, BrowserAuthConfig, Config, ConfigError,
    CookieSameSite, DatabaseConfig, JobConfig, PlayerConfig, RegistrationConfig,
    RegistrationMode, RoutesConfig, SecurityConfig, SegmentFormat, ServerConfig, StorageConfig,
    StreamingConfig, TranscodingConfig, TranscodingProfile, UploadConfig, WebConfig,
};
use crate::links::{is_header_name, is_http_url, parse_url, valid_header_name};
use crate::path::{is_single_component, single_component};
use crate::text::{
    chars_of, contains, contains_char, contains_text, has_char, is_alphanumeric, is_alphanumeric_char,
    is_ascii_control, is_ascii_whitespace, is_hex_digit, split, split_chars, str_equal, trim, trim_str,
    utf8_len,
};

verus! {

// ---------------------------------------------------------------------------
// Rules on single values.
// ---------------------------------------------------------------------------

/// A piece of a route between separators: non-empty, neither `.` nor `..`.
pub open spec fn is_route_piece(p: Seq<char>) -> bool {
    p.len() > 0 && p != seq!['.'] && p != seq!['.', '.']
}

/// A mount route: starts with `/`, is not `/`, does not end with `/`, holds no
/// `?` or `#`, and every piece after the leading `/` is a route piece.
pub open spec fn is_valid_route(s: Seq<char>) -> bool {
    &&& s.len() > 1
    &&& s[0] == '/'
    &&& s.last() != '/'
    &&& !has_char(s, '?')
    &&& !has_char(s, '#')
    &&& forall|i: int| 1 <= i < split(s, '/').len() ==> is_route_piece(#[trigger] split(s, '/')[i])
}

/// `#` followed by exactly six hexadecimal digits.
pub open spec fn is_hex_color(s: Seq<char>) -> bool {
    &&& s.len() == 7
    &&& s[0] == '#'
    &&& forall|i: int| 1 <= i < 7 ==> is_hex_digit(#[trigger] s[i])
}

/// A secret of at least 32 bytes.
pub open spec fn is_secret(s: Seq<char>) -> bool {
    utf8_len(s) >= 32
}

/// A character allowed in a cookie name (RFC 6265 `token`).
pub open spec fn is_cookie_name_char(c: char) -> bool {
    let n = c as u32;
    n == 0x21 || (0x23 <= n <= 0x2B) || (0x2D <= n <= 0x3A) || (0x3C <= n <= 0x5B) || (0x5D <= n
        <= 0x7E)
}

/// A non-empty cookie name of token characters.
pub open spec fn is_cookie_name(s: Seq<char>) -> bool {
    s.len() > 0 && forall|i: int| 0 <= i < s.len() ==> is_cookie_name_char(#[trigger] s[i])
}

/// A character forbidden in a cookie path.
pub open spec fn is_cookie_path_breaker(c: char) -> bool {
    c == ';' || is_ascii_control(c) || is_ascii_whitespace(c)
}

/// A cookie path: starts with `/`, no `;`, control character or whitespace.
pub open spec fn is_cookie_path(s: Seq<char>) -> bool {
    s.len() > 0 && s[0] == '/' && forall|i: int|
        0 <= i < s.len() ==> !is_cookie_path_breaker(#[trigger] s[i])
}

/// A character allowed in a cookie domain.
pub open spec fn is_domain_char(c: char) -> bool {
    is_alphanumeric(c) || c == '.' || c == '-'
}

/// `s` without one leading `.`.
pub open spec fn without_leading_dot(s: Seq<char>) -> Seq<char> {
    if s.len() > 0 && s[0] == '.' {
        s.drop_first()
    } else {
        s
    }
}

/// A non-empty name of ASCII letters, digits, `.` and `-` that neither starts
/// nor ends with `-`.
pub open spec fn is_domain_name(d: Seq<char>) -> bool {
    &&& d.len() > 0
    &&& d[0] != '-'
    &&& d.last() != '-'
    &&& forall|i: int| 0 <= i < d.len() ==> is_domain_char(#[trigger] d[i])
}

/// A cookie domain: a domain name after an optional leading `.`.
pub open spec fn is_cookie_domain(s: Seq<char>) -> bool {
    is_domain_name(without_leading_dot(s))
}

/// A segment file name pattern: a single path component holding an FFmpeg
/// numeric placeholder (`%d` or `%0…`).
pub open spec fn is_segment_pattern(s: Seq<char>) -> bool {
    is_single_component(s) && (contains(s, seq!['%', 'd']) || contains(s, seq!['%', '0']))
}

/// Text that is empty or only whitespace.
pub open spec fn is_blank(s: Seq<char>) -> bool {
    trim(s).len() == 0
}

/// Whether the outcome of a check agrees with the problem it should report.
pub open spec fn reports(r: Result<(), ConfigError>, problem: Option<Seq<char>>) -> bool {
    match r {
        Ok(_) => problem is None,
        Err(e) => problem == Some(e.setting@),
    }
}

/// The first of two problems.
pub open spec fn either(a: Option<Seq<char>>, b: Option<Seq<char>>) -> Option<Seq<char>> {
    if a is Some {
        a
    } else {
        b
    }
}

// ---------------------------------------------------------------------------
// Character rules.
// ---------------------------------------------------------------------------

/// A per-character rule.
#[derive(Clone, Copy)]
pub enum CharRule {
    CookieName,
    CookiePath,
    Domain,
    Alphanumeric,
    HexDigit,
}

pub open spec fn rule_holds(rule: CharRule, c: char) -> bool {
    match rule {
        CharRule::CookieName => is_cookie_name_char(c),
        CharRule::CookiePath => !is_cookie_path_breaker(c),
        CharRule::Domain => is_domain_char(c),
        CharRule::Alphanumeric => is_alphanumeric(c),
        CharRule::HexDigit => is_hex_digit(c),
    }
}

fn rule_holds_for(rule: CharRule, c: char) -> (r: bool)
    ensures
        r == rule_holds(rule, c),
{
    let n = c as u32;
    match rule {
        CharRule::CookieName => n == 0x21 || (0x23 <= n && n <= 0x2B) || (0x2D <= n && n <= 0x3A)
            || (0x3C <= n && n <= 0x5B) || (0x5D <= n && n <= 0x7E),
        CharRule::CookiePath => !(c == ';' || n < 0x20 || n == 0x7F || c == ' ' || c == '\t' || c
            == '\n' || n == 0x0C || c == '\r'),
        CharRule::Domain => is_alphanumeric_char(c) || c == '.' || c == '-',
        CharRule::Alphanumeric => is_alphanumeric_char(c),
        CharRule::HexDigit => ('0' <= c && c <= '9') || ('a' <= c && c <= 'f') || ('A' <= c && c
            <= 'F'),
    }
}

/// Whether every character of `v[from..]` satisfies `rule`.
fn all_chars(v: &Vec<char>, from: usize, rule: CharRule) -> (r: bool)
    requires
        from <= v@.len(),
    ensures
        r == forall|i: int| from <= i < v@.len() ==> rule_holds(rule, #[trigger] v@[i]),
{
    let mut i = from;
    while i < v.len()
        invariant
            from <= i <= v@.len(),
            forall|k: int| from <= k < i ==> rule_holds(rule, #[trigger] v@[k]),
        decreases v@.len() - i,
    {
        if !rule_holds_for(rule, v[i]) {
            return false;
        }
        i = i + 1;
    }
    true
}

// ---------------------------------------------------------------------------
// Checks of single values.
// ---------------------------------------------------------------------------

pub fn validate_route(value: &str, field: &str) -> (r: Result<(), ConfigError>)
    ensures
        r is Ok <==> is_valid_route(value@),
        r matches Err(e) ==> e.setting@ == field@,
{
    let v = chars_of(value);
    if v.len() <= 1 || v[0] != '/' || v[v.len() - 1] == '/' || contains_char(&v, '?')
        || contains_char(&v, '#') {
        return Err(
            config_error(field, " must start with '/', must not be '/', and must not end with '/'"),
        );
    }
    let pieces = split_chars(&v, '/');
    let ghost ps = pieces@.map_values(|p: Vec<char>| p@);
    let mut i: usize = 1;
    while i < pieces.len()
        invariant
            ps == pieces@.map_values(|p: Vec<char>| p@),
            ps == split(v@, '/'),
            v@ == value@,
            1 <= i,
            forall|k: int| 1 <= k < i && k < ps.len() ==> is_route_piece(#[trigger] ps[k]),
        decreases pieces@.len() - i,
    {
        let p = &pieces[i];
        assert(ps[i as int] == p@);
        let bad = p.len() == 0 || (p.len() == 1 && p[0] == '.') || (p.len() == 2 && p[0] == '.'
            && p[1] == '.');
        assert(bad == !is_route_piece(p@)) by {
            if p@.len() == 1 && p@ == seq!['.'] {
                assert(p@[0] == '.');
            }
            if p@.len() == 1 && p@[0] == '.' {
                assert(p@ =~= seq!['.']);
            }
            if p@.len() == 2 && p@ == seq!['.', '.'] {
                assert(p@[0] == '.' && p@[1] == '.');
            }
            if p@.len() == 2 && p@[0] == '.' && p@[1] == '.' {
                assert(p@ =~= seq!['.', '.']);
            }
        }
        if bad {
            assert(!is_route_piece(split(value@, '/')[i as int]));
            return Err(config_error(field, " contains an invalid path component"));
        }
        i = i + 1;
    }
    Ok(())
}

pub fn validate_relative_route(value: &str, field: &str) -> (r: Result<(), ConfigError>)
    ensures
        r is Ok <==> is_valid_route(value@),
        r matches Err(e) ==> e.setting@ == field@,
{
    validate_route(value, field)
}

pub fn validate_hex_color(value: &str, field: &str) -> (r: Result<(), ConfigError>)
    ensures
        r is Ok <==> is_hex_color(value@),
        r matches Err(e) ==> e.setting@ == field@,
{
    let v = chars_of(value);
    if v.len() != 7 || v[0] != '#' || !all_chars(&v, 1, CharRule::HexDigit) {
        return Err(
            config_error(field, " must be a six-digit hexadecimal color such as #2563eb"),
        );
    }
    Ok(())
}

pub fn validate_absolute_http_url(value: &str, field: &str) -> (r: Result<(), ConfigError>)
    ensures
        r is Ok <==> is_http_url(value@),
        r matches Err(e) ==> e.setting@ == field@,
{
    match parse_url(value) {
        Err(_) => Err(config_error(field, " must be an absolute URL")),
        Ok(parts) => {
            if !(str_equal(parts.scheme.as_str(), "http") || str_equal(parts.scheme.as_str(), "https"))
                || parts.host.is_none() {
                Err(config_error(field, " must use HTTP or HTTPS and include a host"))
            } else {
                Ok(())
            }
        },
    }
}

pub fn validate_secret(value: &str, field: &str) -> (r: Result<(), ConfigError>)
    ensures
        r is Ok <==> is_secret(value@),
        r matches Err(e) ==> e.setting@ == field@,
{
    if crate::text::byte_len(value) < 32 {
        return Err(config_error(field, " must contain at least 32 bytes"));
    }
    Ok(())
}

pub fn validate_component(value: &str, field: &str) -> (r: Result<(), ConfigError>)
    ensures
        r is Ok <==> is_single_component(value@),
        r matches Err(e) ==> e.setting@ == field@,
{
    if !single_component(value) {
        return Err(config_error(field, " must be a single safe path component"));
    }
    Ok(())
}

pub fn validate_cookie_name(value: &str, field: &str) -> (r: Result<(), ConfigError>)
    ensures
        r is Ok <==> is_cookie_name(value@),
        r matches Err(e) ==> e.setting@ == field@,
{
    let v = chars_of(value);
    if v.len() == 0 || !all_chars(&v, 0, CharRule::CookieName) {
        return Err(config_error(field, " is not a valid cookie name"));
    }
    Ok(())
}

pub fn validate_cookie_path(value: &str, field: &str) -> (r: Result<(), ConfigError>)
    ensures
        r is Ok <==> is_cookie_path(value@),
        r matches Err(e) ==> e.setting@ == field@,
{
    let v = chars_of(value);
    if v.len() == 0 || v[0] != '/' || !all_chars(&v, 0, CharRule::CookiePath) {
        return Err(config_error(field, " is not a valid cookie path"));
    }
    Ok(())
}

pub fn validate_cookie_domain(value: &str, field: &str) -> (r: Result<(), ConfigError>)
    ensures
        r is Ok <==> is_cookie_domain(value@),
        r matches Err(e) ==> e.setting@ == field@,
{
    let v = chars_of(value);
    let start: usize = if v.len() > 0 && v[0] == '.' {
        1
    } else {
        0
    };
    let ghost d = without_leading_dot(v@);
    assert(d == v@.skip(start as int));
    if start == v.len() {
        assert(d.len() == 0);
        return Err(config_error(field, " is not a valid cookie domain"));
    }
    if v[start] == '-' {
        assert(d[0] == '-');
        return Err(config_error(field, " is not a valid cookie domain"));
    }
    if v[v.len() - 1] == '-' {
        assert(d.last() == v@.last());
        return Err(config_error(field, " is not a valid cookie domain"));
    }
    if !all_chars(&v, start, CharRule::Domain) {
        proof {
            let i = choose|i: int|
                start <= i < v@.len() && !rule_holds(CharRule::Domain, #[trigger] v@[i]);
            assert(d[i - start] == v@[i]);
            assert(!is_domain_char(d[i - start]));
        }
        return Err(config_error(field, " is not a valid cookie domain"));
    }
    assert forall|i: int| 0 <= i < d.len() implies is_domain_char(#[trigger] d[i]) by {
        assert(d[i] == v@[i + start]);
    }
    Ok(())
}

pub fn validate_segment_pattern(value: &str, field: &str) -> (r: Result<(), ConfigError>)
    ensures
        r is Ok <==> is_segment_pattern(value@),
        r matches Err(e) ==> e.setting@ == field@,
{
    validate_component(value, field)?;
    let v = chars_of(value);
    let has_d = contains_text(&v, "%d");
    let has_0 = contains_text(&v, "%0");
    proof {
        reveal_strlit("%d");
        reveal_strlit("%0");
        assert("%d"@ == seq!['%', 'd']);
        assert("%0"@ == seq!['%', '0']);
    }
    if !has_d && !has_0 {
        return Err(
            config_error(field, " must contain an FFmpeg numeric placeholder such as %06d"),
        );
    }
    Ok(())
}

/// Whether `value` is empty or only whitespace.
pub fn blank(value: &str) -> (r: bool)
    ensures
        r == is_blank(value@),
{
    let t = trim_str(value);
    t.as_str().is_empty()
}

// ---------------------------------------------------------------------------
// Sections.
// ---------------------------------------------------------------------------

/// Whether some entry of `items` is `"*"`.
pub open spec fn has_wildcard(items: Seq<String>) -> bool {
    exists|i: int| 0 <= i < items.len() && #[trigger] items[i]@ == "*"@
}

/// The first problem of the `server` section.
pub open spec fn server_problem(c: ServerConfig) -> Option<Seq<char>> {
    if !is_http_url(c.public_base_url@) {
        Some("server.public_base_url"@)
    } else if c.max_request_body_bytes == 0 || c.max_in_flight_requests == 0
        || c.shutdown_grace_seconds == 0 {
        Some("server"@)
    } else if (c.cors_allow_credentials && has_wildcard(c.cors_allowed_origins@)) || exists|i: int|
        0 <= i < c.cors_allowed_origins@.len() && #[trigger] c.cors_allowed_origins@[i]@ != "*"@
            && !is_http_url(c.cors_allowed_origins@[i]@) {
        Some("server.cors_allowed_origins"@)
    } else {
        None
    }
}

#[verifier::loop_isolation(false)]
fn check_server(c: &ServerConfig) -> (r: Result<(), ConfigError>)
    ensures
        reports(r, server_problem(*c)),
{
    validate_absolute_http_url(c.public_base_url.as_str(), "server.public_base_url")?;
    if c.max_request_body_bytes == 0 || c.max_in_flight_requests == 0 || c.shutdown_grace_seconds
        == 0 {
        return Err(
            config_error("server", ": limits and shutdown settings must be greater than zero"),
        );
    }
    let origins = &c.cors_allowed_origins;
    if c.cors_allow_credentials {
        let mut i: usize = 0;
        while i < origins.len()
            invariant
                i <= origins@.len(),
                origins@ == c.cors_allowed_origins@,
                forall|k: int| 0 <= k < i ==> #[trigger] origins@[k]@ != "*"@,
            decreases origins@.len() - i,
        {
            if str_equal(origins[i].as_str(), "*") {
                return Err(
                    config_error(
                        "server.cors_allowed_origins",
                        ": credentialed CORS cannot use a wildcard origin",
                    ),
                );
            }
            i = i + 1;
        }
    }
    let mut i: usize = 0;
    while i < origins.len()
        invariant
            i <= origins@.len(),
            origins@ == c.cors_allowed_origins@,
            forall|k: int|
                0 <= k < i ==> #[trigger] origins@[k]@ == "*"@ || is_http_url(origins@[k]@),
        decreases origins@.len() - i,
    {
        if !str_equal(origins[i].as_str(), "*") {
            validate_absolute_http_url(origins[i].as_str(), "server.cors_allowed_origins")?;
        }
        i = i + 1;
    }
    Ok(())
}

/// The routes in the order they are checked.
pub open spec fn route_values(c: RoutesConfig) -> Seq<Seq<char>> {
    seq![c.api@, c.web@, c.watch@, c.stream@, c.health_live@, c.health_ready@, c.openapi@]
}

/// The setting names of the routes, in the same order.
pub open spec fn route_fields() -> Seq<Seq<char>> {
    seq![
        "routes.api"@,
        "routes.web"@,
        "routes.watch"@,
        "routes.stream"@,
        "routes.health_live"@,
        "routes.health_ready"@,
        "routes.openapi"@,
    ]
}

/// The first problem among the routes from index `k` on: an invalid route
/// names its own setting; a route equal to an earlier one names `routes`.
pub open spec fn routes_problem_from(values: Seq<Seq<char>>, fields: Seq<Seq<char>>, k: int) -> Option<
    Seq<char>,
>
    decreases values.len() - k,
{
    if k < 0 || k >= values.len() {
        None
    } else if !is_valid_route(values[k]) {
        Some(fields[k])
    } else if exists|j: int| 0 <= j < k && #[trigger] values[j] == values[k] {
        Some("routes"@)
    } else {
        routes_problem_from(values, fields, k + 1)
    }
}

/// The first problem of the `routes` section.
pub open spec fn routes_problem(c: RoutesConfig) -> Option<Seq<char>> {
    routes_problem_from(route_values(c), route_fields(), 0)
}

#[verifier::loop_isolation(false)]
fn check_routes(c: &RoutesConfig) -> (r: Result<(), ConfigError>)
    ensures
        reports(r, routes_problem(*c)),
{
    let values: Vec<&str> = vec![
        c.api.as_str(),
        c.web.as_str(),
        c.watch.as_str(),
        c.stream.as_str(),
        c.health_live.as_str(),
        c.health_ready.as_str(),
        c.openapi.as_str(),
    ];
    let fields: Vec<&str> = vec![
        "routes.api",
        "routes.web",
        "routes.watch",
        "routes.stream",
        "routes.health_live",
        "routes.health_ready",
        "routes.openapi",
    ];
    let ghost vs = values@.map_values(|s: &str| s@);
    let ghost fs = fields@.map_values(|s: &str| s@);
    assert(vs == route_values(*c));
    assert(fs == route_fields());
    let mut k: usize = 0;
    while k < 7
        invariant
            k <= 7,
            values@.len() == 7,
            fields@.len() == 7,
            vs == values@.map_values(|s: &str| s@),
            fs == fields@.map_values(|s: &str| s@),
            routes_problem_from(vs, fs, 0) == routes_problem_from(vs, fs, k as int),
        decreases 7 - k,
    {
        assert(vs[k as int] == values@[k as int]@);
        assert(fs[k as int] == fields@[k as int]@);
        validate_route(values[k], fields[k])?;
        let mut j: usize = 0;
        while j < k
            invariant
                j <= k < 7,
                values@.len() == 7,
                vs == values@.map_values(|s: &str| s@),
                forall|m: int| 0 <= m < j ==> #[trigger] vs[m] != vs[k as int],
            decreases k - j,
        {
            if str_equal(values[j], values[k]) {
                assert(vs[j as int] == vs[k as int]);
                return Err(config_error("routes", ": configured routes must be unique"));
            }
            j = j + 1;
        }
        k = k + 1;
    }
    Ok(())
}

/// The first problem of the `api` section.
pub open spec fn api_problem(c: ApiConfig) -> Option<Seq<char>> {
    if c.default_page_size == 0 || c.maximum_page_size == 0 || c.default_page_size
        > c.maximum_page_size {
        Some("api"@)
    } else {
        None
    }
}

fn check_api(c: &ApiConfig) -> (r: Result<(), ConfigError>)
    ensures
        reports(r, api_problem(*c)),
{
    if c.default_page_size == 0 || c.maximum_page_size == 0 || c.default_page_size
        > c.maximum_page_size {
        return Err(
            config_error(
                "api",
                ": page sizes must be positive and default_page_size cannot exceed maximum_page_size",
            ),
        );
    }
    Ok(())
}

/// Whether a page size option is out of range or repeats an earlier one.
pub open spec fn bad_page_size(options: Seq<u32>, maximum: u32, i: int) -> bool {
    options[i] == 0 || options[i] > maximum || exists|j: int|
        0 <= j < i && #[trigger] options[j] == options[i]
}

/// The first problem of the `web` section (none when it is disabled).
pub open spec fn web_problem(c: WebConfig, api: ApiConfig) -> Option<Seq<char>> {
    if !c.enabled {
        None
    } else if is_blank(c.site_name@) || is_blank(c.tagline@) || is_blank(c.date_locale@) || is_blank(
        c.cache_control@,
    ) || c.dashboard_reporting_days <= 0 || c.dashboard_refresh_seconds == 0
        || c.jobs_refresh_seconds == 0 || c.page_size_options@.len() == 0 {
        Some("web"@)
    } else if !is_hex_color(c.brand_color@) {
        Some("web.brand_color"@)
    } else if exists|i: int|
        0 <= i < c.page_size_options@.len() && #[trigger] bad_page_size(
            c.page_size_options@,
            api.maximum_page_size,
            i,
        ) {
        Some("web.page_size_options"@)
    } else if !is_valid_route(c.assets_route@) {
        Some("web.assets_route"@)
    } else if !is_http_url(c.repository_url@) {
        Some("web.repository_url"@)
    } else if !is_http_url(c.documentation_url@) {
        Some("web.documentation_url"@)
    } else if c.support_url is Some && !is_http_url(c.support_url->0@) {
        Some("web.support_url"@)
    } else if c.template_path@.len() == 0 || c.assets_directory@.len() == 0 {
        Some("web"@)
    } else {
        None
    }
}

#[verifier::loop_isolation(false)]
fn check_web(c: &WebConfig, api: &ApiConfig) -> (r: Result<(), ConfigError>)
    ensures
        reports(r, web_problem(*c, *api)),
{
    if !c.enabled {
        return Ok(());
    }
    if blank(c.site_name.as_str()) || blank(c.tagline.as_str()) || blank(c.date_locale.as_str())
        || blank(c.cache_control.as_str()) || c.dashboard_reporting_days <= 0
        || c.dashboard_refresh_seconds == 0 || c.jobs_refresh_seconds == 0
        || c.page_size_options.len() == 0 {
        return Err(
            config_error(
                "web",
                ": text, cache, refresh, pagination, and reporting settings cannot be empty or non-positive",
            ),
        );
    }
    validate_hex_color(c.brand_color.as_str(), "web.brand_color")?;
    let options = &c.page_size_options;
    let mut i: usize = 0;
    while i < options.len()
        invariant
            i <= options@.len(),
            options@ == c.page_size_options@,
            forall|k: int|
                0 <= k < i ==> !#[trigger] bad_page_size(options@, api.maximum_page_size, k),
        decreases options@.len() - i,
    {
        if options[i] == 0 || options[i] > api.maximum_page_size {
            assert(bad_page_size(options@, api.maximum_page_size, i as int));
            return Err(
                config_error(
                    "web.page_size_options",
                    ": values must be positive and cannot exceed api.maximum_page_size",
                ),
            );
        }
        let mut j: usize = 0;
        while j < i
            invariant
                j <= i < options@.len(),
                forall|m: int| 0 <= m < j ==> #[trigger] options@[m] != options@[i as int],
            decreases i - j,
        {
            if options[j] == options[i] {
                assert(bad_page_size(options@, api.maximum_page_size, i as int));
                return Err(config_error("web.page_size_options", ": values must be unique"));
            }
            j = j + 1;
        }
        assert(!bad_page_size(options@, api.maximum_page_size, i as int));
        i = i + 1;
    }
    validate_relative_route(c.assets_route.as_str(), "web.assets_route")?;
    validate_absolute_http_url(c.repository_url.as_str(), "web.repository_url")?;
    validate_absolute_http_url(c.documentation_url.as_str(), "web.documentation_url")?;
    if let Some(url) = &c.support_url {
        validate_absolute_http_url(url.as_str(), "web.support_url")?;
    }
    if c.template_path.as_str().is_empty() || c.assets_directory.as_str().is_empty() {
        return Err(config_error("web", ": template and asset paths cannot be empty"));
    }
    Ok(())
}

/// The first problem of the `database` and `storage` sections.
pub open spec fn storage_problem(d: DatabaseConfig, s: StorageConfig) -> Option<Seq<char>> {
    if d.max_connections == 0 || d.busy_timeout_ms == 0 {
        Some("database"@)
    } else if !is_single_component(s.original_directory_name@) {
        Some("storage.original_directory_name"@)
    } else if !is_single_component(s.stream_directory_name@) {
        Some("storage.stream_directory_name"@)
    } else if !is_single_component(s.trash_directory_name@) {
        Some("storage.trash_directory_name"@)
    } else {
        None
    }
}

fn check_storage(d: &DatabaseConfig, s: &StorageConfig) -> (r: Result<(), ConfigError>)
    ensures
        reports(r, storage_problem(*d, *s)),
{
    if d.max_connections == 0 || d.busy_timeout_ms == 0 {
        return Err(
            config_error("database", ": connection and timeout settings must be greater than zero"),
        );
    }
    validate_component(s.original_directory_name.as_str(), "storage.original_directory_name")?;
    validate_component(s.stream_directory_name.as_str(), "storage.stream_directory_name")?;
    validate_component(s.trash_directory_name.as_str(), "storage.trash_directory_name")?;
    Ok(())
}

/// The first problem of the `registration` section.
pub open spec fn registration_problem(c: RegistrationConfig) -> Option<Seq<char>> {
    if c.mode == RegistrationMode::AdminToken && (c.admin_token is None || c.admin_token->0@.len()
        == 0) {
        Some("registration.admin_token"@)
    } else if c.default_storage_quota_bytes == 0 || c.maximum_email_bytes == 0
        || c.maximum_display_name_bytes == 0 || c.maximum_api_key_name_bytes == 0 {
        Some("registration"@)
    } else if !valid_header_name(c.admin_header_name@) {
        Some("registration.admin_header_name"@)
    } else {
        None
    }
}

fn check_registration(c: &RegistrationConfig) -> (r: Result<(), ConfigError>)
    ensures
        reports(r, registration_problem(*c)),
{
    if c.mode == RegistrationMode::AdminToken {
        let missing = match &c.admin_token {
            None => true,
            Some(token) => token.as_str().is_empty(),
        };
        if missing {
            return Err(
                config_error(
                    "registration.admin_token",
                    " is required when registration.mode is admin_token",
                ),
            );
        }
    }
    if c.default_storage_quota_bytes == 0 || c.maximum_email_bytes == 0
        || c.maximum_display_name_bytes == 0 || c.maximum_api_key_name_bytes == 0 {
        return Err(
            config_error("registration", ": quotas and field limits must be greater than zero"),
        );
    }
    if !is_header_name(c.admin_header_name.as_str()) {
        return Err(
            config_error("registration.admin_header_name", " must be a valid HTTP header name"),
        );
    }
    Ok(())
}

/// The first problem of the `browser_auth` section.
pub open spec fn browser_problem(c: BrowserAuthConfig) -> Option<Seq<char>> {
    if !is_secret(c.password_pepper@) {
        Some("browser_auth.password_pepper"@)
    } else if !is_secret(c.session_signing_key@) {
        Some("browser_auth.session_signing_key"@)
    } else if c.password_argon2_memory_kib == 0 || c.password_argon2_iterations == 0
        || c.password_argon2_parallelism == 0 || c.minimum_password_bytes == 0
        || c.maximum_password_bytes < c.minimum_password_bytes || c.session_ttl_seconds <= 0
        || c.session_idle_timeout_seconds <= 0 || c.session_idle_timeout_seconds
        > c.session_ttl_seconds || c.maximum_sessions_per_account == 0
        || c.maintenance_interval_seconds == 0 {
        Some("browser_auth"@)
    } else if !is_cookie_name(c.session_cookie_name@) {
        Some("browser_auth.session_cookie_name"@)
    } else if !is_cookie_path(c.session_cookie_path@) {
        Some("browser_auth.session_cookie_path"@)
    } else if c.session_cookie_domain is Some && !is_cookie_domain(c.session_cookie_domain->0@) {
        Some("browser_auth.session_cookie_domain"@)
    } else if !valid_header_name(c.csrf_header_name@) {
        Some("browser_auth.csrf_header_name"@)
    } else if c.session_cookie_same_site == CookieSameSite::Unrestricted
        && !c.session_cookie_secure {
        Some("browser_auth.session_cookie_secure"@)
    } else {
        None
    }
}

fn check_browser(c: &BrowserAuthConfig) -> (r: Result<(), ConfigError>)
    ensures
        reports(r, browser_problem(*c)),
{
    validate_secret(c.password_pepper.as_str(), "browser_auth.password_pepper")?;
    validate_secret(c.session_signing_key.as_str(), "browser_auth.session_signing_key")?;
    if c.password_argon2_memory_kib == 0 || c.password_argon2_iterations == 0
        || c.password_argon2_parallelism == 0 || c.minimum_password_bytes == 0
        || c.maximum_password_bytes < c.minimum_password_bytes || c.session_ttl_seconds <= 0
        || c.session_idle_timeout_seconds <= 0 || c.session_idle_timeout_seconds
        > c.session_ttl_seconds || c.maximum_sessions_per_account == 0
        || c.maintenance_interval_seconds == 0 {
        return Err(
            config_error(
                "browser_auth",
                ": authentication limits, Argon2 parameters, and intervals are invalid",
            ),
        );
    }
    validate_cookie_name(c.session_cookie_name.as_str(), "browser_auth.session_cookie_name")?;
    validate_cookie_path(c.session_cookie_path.as_str(), "browser_auth.session_cookie_path")?;
    if let Some(domain) = &c.session_cookie_domain {
        validate_cookie_domain(domain.as_str(), "browser_auth.session_cookie_domain")?;
    }
    if !is_header_name(c.csrf_header_name.as_str()) {
        return Err(
            config_error("browser_auth.csrf_header_name", " must be a valid HTTP header name"),
        );
    }
    if c.session_cookie_same_site == CookieSameSite::Unrestricted && !c.session_cookie_secure {
        return Err(
            config_error("browser_auth.session_cookie_secure", " must be true when SameSite is none"),
        );
    }
    Ok(())
}

/// Whether every character of `s` is an ASCII letter or digit.
pub open spec fn all_alphanumeric(s: Seq<char>) -> bool {
    forall|i: int| 0 <= i < s.len() ==> is_alphanumeric(#[trigger] s[i])
}

/// The first problem of the `security` section.
pub open spec fn security_problem(c: SecurityConfig) -> Option<Seq<char>> {
    if c.api_key_prefix@.len() == 0 || !all_alphanumeric(c.api_key_prefix@) {
        Some("security.api_key_prefix"@)
    } else if !is_secret(c.api_key_pepper@) {
        Some("security.api_key_pepper"@)
    } else if !is_secret(c.playback_signing_key@) {
        Some("security.playback_signing_key"@)
    } else if c.playback_token_ttl_seconds <= 0 || c.api_key_argon2_memory_kib == 0
        || c.api_key_argon2_iterations == 0 || c.api_key_argon2_parallelism == 0 {
        Some("security"@)
    } else {
        None
    }
}

fn check_security(c: &SecurityConfig) -> (r: Result<(), ConfigError>)
    ensures
        reports(r, security_problem(*c)),
{
    let prefix = chars_of(c.api_key_prefix.as_str());
    if prefix.len() == 0 || !all_chars(&prefix, 0, CharRule::Alphanumeric) {
        return Err(
            config_error("security.api_key_prefix", " must contain only ASCII letters and digits"),
        );
    }
    validate_secret(c.api_key_pepper.as_str(), "security.api_key_pepper")?;
    validate_secret(c.playback_signing_key.as_str(), "security.playback_signing_key")?;
    if c.playback_token_ttl_seconds <= 0 || c.api_key_argon2_memory_kib == 0
        || c.api_key_argon2_iterations == 0 || c.api_key_argon2_parallelism == 0 {
        return Err(
            config_error("security", ": token and Argon2 settings must be greater than zero"),
        );
    }
    Ok(())
}

/// Whether four cookie names are pairwise different.
pub open spec fn distinct4(a: Seq<char>, b: Seq<char>, c: Seq<char>, d: Seq<char>) -> bool {
    a != b && a != c && a != d && b != c && b != d && c != d
}

/// The first problem of the `analytics` section (`session_cookie_name` is
/// the browser session cookie, which must differ from the analytics cookies).
pub open spec fn analytics_problem(c: AnalyticsConfig, session_cookie_name: Seq<char>) -> Option<
    Seq<char>,
> {
    if !is_secret(c.viewer_hash_key@) {
        Some("analytics.viewer_hash_key"@)
    } else if c.default_reporting_days <= 0 || c.maximum_reporting_days <= 0
        || c.default_reporting_days > c.maximum_reporting_days || c.heartbeat_interval_seconds == 0
        || c.maximum_heartbeat_delta_ms <= 0 || c.visitor_cookie_max_age_seconds <= 0 {
        Some("analytics"@)
    } else if (c.raw_event_retention_days > 0 || c.playback_session_retention_days > 0)
        && c.maintenance_interval_seconds == 0 {
        Some("analytics.maintenance_interval_seconds"@)
    } else if !is_cookie_name(c.visitor_cookie_name@) {
        Some("analytics.visitor_cookie_name"@)
    } else if !is_cookie_path(c.visitor_cookie_path@) {
        Some("analytics.visitor_cookie_path"@)
    } else if !is_cookie_name(c.playback_cookie_name@) {
        Some("analytics.playback_cookie_name"@)
    } else if !is_cookie_name(c.playback_session_cookie_name@) {
        Some("analytics.playback_session_cookie_name"@)
    } else if !is_cookie_path(c.playback_session_cookie_path@) {
        Some("analytics.playback_session_cookie_path"@)
    } else if !distinct4(
        session_cookie_name,
        c.visitor_cookie_name@,
        c.playback_cookie_name@,
        c.playback_session_cookie_name@,
    ) {
        Some("cookie names"@)
    } else if c.cookie_same_site == CookieSameSite::Unrestricted && !c.cookie_secure {
        Some("analytics.cookie_secure"@)
    } else {
        None
    }
}

fn check_analytics(c: &AnalyticsConfig, session_cookie_name: &str) -> (r: Result<(), ConfigError>)
    ensures
        reports(r, analytics_problem(*c, session_cookie_name@)),
{
    validate_secret(c.viewer_hash_key.as_str(), "analytics.viewer_hash_key")?;
    if c.default_reporting_days <= 0 || c.maximum_reporting_days <= 0 || c.default_reporting_days
        > c.maximum_reporting_days || c.heartbeat_interval_seconds == 0
        || c.maximum_heartbeat_delta_ms <= 0 || c.visitor_cookie_max_age_seconds <= 0 {
        return Err(config_error("analytics", ": reporting and interval settings are invalid"));
    }
    if (c.raw_event_retention_days > 0 || c.playback_session_retention_days > 0)
        && c.maintenance_interval_seconds == 0 {
        return Err(
            config_error(
                "analytics.maintenance_interval_seconds",
                " must be positive when retention is enabled",
            ),
        );
    }
    validate_cookie_name(c.visitor_cookie_name.as_str(), "analytics.visitor_cookie_name")?;
    validate_cookie_path(c.visitor_cookie_path.as_str(), "analytics.visitor_cookie_path")?;
    validate_cookie_name(c.playback_cookie_name.as_str(), "analytics.playback_cookie_name")?;
    validate_cookie_name(
        c.playback_session_cookie_name.as_str(),
        "analytics.playback_session_cookie_name",
    )?;
    validate_cookie_path(
        c.playback_session_cookie_path.as_str(),
        "analytics.playback_session_cookie_path",
    )?;
    let a = session_cookie_name;
    let b = c.visitor_cookie_name.as_str();
    let d = c.playback_cookie_name.as_str();
    let e = c.playback_session_cookie_name.as_str();
    if str_equal(a, b) || str_equal(a, d) || str_equal(a, e) || str_equal(b, d) || str_equal(b, e)
        || str_equal(d, e) {
        return Err(config_error("cookie names", ": all configured cookie names must be unique"));
    }
    if c.cookie_same_site == CookieSameSite::Unrestricted && !c.cookie_secure {
        return Err(
            config_error("analytics.cookie_secure", " must be true when SameSite is none"),
        );
    }
    Ok(())
}

/// Whether `s` is one of `items`.
pub open spec fn listed(items: Seq<String>, s: Seq<char>) -> bool {
    exists|i: int| 0 <= i < items.len() && #[trigger] items[i]@ == s
}

/// The first problem of the `uploads` and `remote_imports` sections
/// (`max_request_body_bytes` bounds the upload size).
pub open spec fn uploads_problem(
    u: UploadConfig,
    r: crate::config::RemoteImportConfig,
    max_request_body_bytes: usize,
) -> Option<Seq<char>> {
    if u.minimum_source_bytes == 0 || u.maximum_source_bytes == 0 || u.maximum_text_field_bytes == 0
        || u.maximum_filename_bytes == 0 || r.maximum_source_bytes == 0
        || r.request_timeout_seconds == 0 || is_blank(r.user_agent@) {
        Some("uploads"@)
    } else if !is_single_component(u.default_filename@) || utf8_len(u.default_filename@)
        > u.maximum_filename_bytes {
        Some("uploads.default_filename"@)
    } else if !is_single_component(u.default_remote_filename@) || utf8_len(
        u.default_remote_filename@,
    ) > u.maximum_filename_bytes {
        Some("uploads.default_remote_filename"@)
    } else if is_blank(u.default_content_type@) || u.accepted_content_types@.len() == 0 || exists|
        i: int,
    |
        0 <= i < u.accepted_content_types@.len() && is_blank(
            #[trigger] u.accepted_content_types@[i]@,
        ) {
        Some("uploads.accepted_content_types"@)
    } else if !listed(u.accepted_content_types@, u.default_content_type@) {
        Some("uploads.default_content_type"@)
    } else if u.minimum_source_bytes > u.maximum_source_bytes || u.minimum_source_bytes
        > r.maximum_source_bytes || u.maximum_source_bytes > max_request_body_bytes {
        Some("uploads"@)
    } else {
        None
    }
}

fn check_filename_default(value: &str, field: &str, maximum: usize) -> (r: Result<(), ConfigError>)
    ensures
        r is Ok <==> (is_single_component(value@) && utf8_len(value@) <= maximum),
        r matches Err(e) ==> e.setting@ == field@,
{
    validate_component(value, field)?;
    if crate::text::byte_len(value) > maximum {
        return Err(config_error(field, " exceeds uploads.maximum_filename_bytes"));
    }
    Ok(())
}

#[verifier::loop_isolation(false)]
fn check_uploads(
    u: &UploadConfig,
    r: &crate::config::RemoteImportConfig,
    max_request_body_bytes: usize,
) -> (res: Result<(), ConfigError>)
    ensures
        reports(res, uploads_problem(*u, *r, max_request_body_bytes)),
{
    if u.minimum_source_bytes == 0 || u.maximum_source_bytes == 0 || u.maximum_text_field_bytes == 0
        || u.maximum_filename_bytes == 0 || r.maximum_source_bytes == 0
        || r.request_timeout_seconds == 0 || blank(r.user_agent.as_str()) {
        return Err(
            config_error(
                "uploads",
                ": upload and remote import sizes, fields, and timeouts must be positive",
            ),
        );
    }
    check_filename_default(
        u.default_filename.as_str(),
        "uploads.default_filename",
        u.maximum_filename_bytes,
    )?;
    check_filename_default(
        u.default_remote_filename.as_str(),
        "uploads.default_remote_filename",
        u.maximum_filename_bytes,
    )?;
    let accepted = &u.accepted_content_types;
    if blank(u.default_content_type.as_str()) || accepted.len() == 0 {
        return Err(
            config_error("uploads.accepted_content_types", ": content type settings cannot be empty"),
        );
    }
    let mut i: usize = 0;
    while i < accepted.len()
        invariant
            i <= accepted@.len(),
            forall|k: int| 0 <= k < i ==> !is_blank(#[trigger] accepted@[k]@),
        decreases accepted@.len() - i,
    {
        if blank(accepted[i].as_str()) {
            return Err(
                config_error(
                    "uploads.accepted_content_types",
                    ": content type settings cannot be empty",
                ),
            );
        }
        i = i + 1;
    }
    let mut found = false;
    let mut i: usize = 0;
    while i < accepted.len()
        invariant
            i <= accepted@.len(),
            found <==> exists|k: int| 0 <= k < i && #[trigger] accepted@[k]@ == u.default_content_type@,
        decreases accepted@.len() - i,
    {
        if str_equal(accepted[i].as_str(), u.default_content_type.as_str()) {
            found = true;
        }
        i = i + 1;
    }
    if !found {
        return Err(
            config_error(
                "uploads.default_content_type",
                " must be included in uploads.accepted_content_types",
            ),
        );
    }
    if u.minimum_source_bytes > u.maximum_source_bytes || u.minimum_source_bytes
        > r.maximum_source_bytes || u.maximum_source_bytes > max_request_body_bytes as u64 {
        return Err(config_error("uploads", ": configured upload size relationships are invalid"));
    }
    Ok(())
}

/// The first problem of the `streaming` section.
pub open spec fn streaming_problem(c: StreamingConfig) -> Option<Seq<char>> {
    if is_blank(c.player_cache_control@) {
        Some("streaming.player_cache_control"@)
    } else if is_blank(c.token_redirect_cache_control@) {
        Some("streaming.token_redirect_cache_control"@)
    } else if is_blank(c.playlist_cache_control@) {
        Some("streaming.playlist_cache_control"@)
    } else if is_blank(c.segment_cache_control@) {
        Some("streaming.segment_cache_control"@)
    } else if is_blank(c.source_cache_control@) {
        Some("streaming.source_cache_control"@)
    } else if is_blank(c.private_asset_cache_control@) {
        Some("streaming.private_asset_cache_control"@)
    } else {
        None
    }
}

fn check_not_blank(value: &str, field: &str) -> (r: Result<(), ConfigError>)
    ensures
        r is Ok <==> !is_blank(value@),
        r matches Err(e) ==> e.setting@ == field@,
{
    if blank(value) {
        return Err(config_error(field, " cannot be empty"));
    }
    Ok(())
}

fn check_streaming(c: &StreamingConfig) -> (r: Result<(), ConfigError>)
    ensures
        reports(r, streaming_problem(*c)),
{
    check_not_blank(c.player_cache_control.as_str(), "streaming.player_cache_control")?;
    check_not_blank(
        c.token_redirect_cache_control.as_str(),
        "streaming.token_redirect_cache_control",
    )?;
    check_not_blank(c.playlist_cache_control.as_str(), "streaming.playlist_cache_control")?;
    check_not_blank(c.segment_cache_control.as_str(), "streaming.segment_cache_control")?;
    check_not_blank(c.source_cache_control.as_str(), "streaming.source_cache_control")?;
    check_not_blank(
        c.private_asset_cache_control.as_str(),
        "streaming.private_asset_cache_control",
    )?;
    Ok(())
}

/// The first problem of the `jobs` section.
pub open spec fn jobs_problem(c: JobConfig) -> Option<Seq<char>> {
    if c.worker_count == 0 || c.poll_interval_ms == 0 || c.lease_seconds <= 0
        || c.lease_renewal_interval_seconds == 0 || c.maximum_attempts <= 0
        || c.retry_base_delay_seconds <= 0 {
        Some("jobs"@)
    } else if c.lease_renewal_interval_seconds > i64::MAX || c.lease_renewal_interval_seconds
        >= c.lease_seconds {
        Some("jobs.lease_renewal_interval_seconds"@)
    } else {
        None
    }
}

fn check_jobs(c: &JobConfig) -> (r: Result<(), ConfigError>)
    ensures
        reports(r, jobs_problem(*c)),
{
    if c.worker_count == 0 || c.poll_interval_ms == 0 || c.lease_seconds <= 0
        || c.lease_renewal_interval_seconds == 0 || c.maximum_attempts <= 0
        || c.retry_base_delay_seconds <= 0 {
        return Err(config_error("jobs", ": worker settings must be greater than zero"));
    }
    if c.lease_renewal_interval_seconds > i64::MAX as u64 || (c.lease_renewal_interval_seconds as i64)
        >= c.lease_seconds {
        return Err(
            config_error("jobs.lease_renewal_interval_seconds", " must be below jobs.lease_seconds"),
        );
    }
    Ok(())
}

/// Whether a transcoding profile's numbers and texts are acceptable.
pub open spec fn profile_settings_ok(p: TranscodingProfile) -> bool {
    &&& p.maximum_height != 0
    &&& p.video_bitrate_kbps != 0
    &&& p.maximum_video_bitrate_kbps != 0
    &&& p.video_buffer_kbps != 0
    &&& p.audio_bitrate_kbps != 0
    &&& p.frame_rate != 0
    &&& p.maximum_video_bitrate_kbps >= p.video_bitrate_kbps
    &&& !is_blank(p.video_codec@)
    &&& !is_blank(p.audio_codec@)
    &&& !is_blank(p.preset@)
    &&& !is_blank(p.profile@)
    &&& !is_blank(p.pixel_format@)
    &&& !is_blank(p.hls_video_codec@)
    &&& !is_blank(p.hls_audio_codec@)
}

/// The first problem among the profiles from index `k` on: a name that is not
/// a single path component names `transcoding.profiles.name`; bad settings or
/// a name used by an earlier profile name `transcoding.profiles`.
pub open spec fn profiles_problem_from(ps: Seq<TranscodingProfile>, k: int) -> Option<Seq<char>>
    decreases ps.len() - k,
{
    if k < 0 || k >= ps.len() {
        None
    } else if !is_single_component(ps[k].name@) {
        Some("transcoding.profiles.name"@)
    } else if !profile_settings_ok(ps[k]) || exists|j: int|
        0 <= j < k && #[trigger] ps[j].name@ == ps[k].name@ {
        Some("transcoding.profiles"@)
    } else {
        profiles_problem_from(ps, k + 1)
    }
}

/// The first problem of the `transcoding` section (none when it is disabled).
pub open spec fn transcoding_problem(c: TranscodingConfig) -> Option<Seq<char>> {
    if !c.enabled {
        None
    } else if c.ffmpeg_path@.len() == 0 || c.ffprobe_path@.len() == 0
        || c.segment_duration_seconds == 0 || c.command_timeout_seconds == 0 || c.hls_version == 0 {
        Some("transcoding"@)
    } else if c.segment_format == SegmentFormat::Fmp4 && c.hls_version < 7 {
        Some("transcoding.hls_version"@)
    } else if !is_single_component(c.master_playlist_filename@) {
        Some("transcoding.master_playlist_filename"@)
    } else if !is_single_component(c.variant_playlist_filename@) {
        Some("transcoding.variant_playlist_filename"@)
    } else if !is_single_component(c.fmp4_init_filename@) {
        Some("transcoding.fmp4_init_filename"@)
    } else if !is_segment_pattern(c.fmp4_segment_filename_pattern@) {
        Some("transcoding.fmp4_segment_filename_pattern"@)
    } else if !is_segment_pattern(c.mpegts_segment_filename_pattern@) {
        Some("transcoding.mpegts_segment_filename_pattern"@)
    } else if c.audio_sample_rate_hz == 0 || c.audio_channels == 0 || is_blank(
        c.hls_playlist_type@,
    ) || is_blank(c.scaling_flags@) || c.profiles@.len() == 0 {
        Some("transcoding"@)
    } else {
        profiles_problem_from(c.profiles@, 0)
    }
}

fn profile_settings_valid(p: &TranscodingProfile) -> (r: bool)
    ensures
        r == profile_settings_ok(*p),
{
    p.maximum_height != 0 && p.video_bitrate_kbps != 0 && p.maximum_video_bitrate_kbps != 0
        && p.video_buffer_kbps != 0 && p.audio_bitrate_kbps != 0 && p.frame_rate != 0
        && p.maximum_video_bitrate_kbps >= p.video_bitrate_kbps && !blank(p.video_codec.as_str())
        && !blank(p.audio_codec.as_str()) && !blank(p.preset.as_str()) && !blank(
        p.profile.as_str(),
    ) && !blank(p.pixel_format.as_str()) && !blank(p.hls_video_codec.as_str()) && !blank(
        p.hls_audio_codec.as_str(),
    )
}

#[verifier::loop_isolation(false)]
fn check_transcoding(c: &TranscodingConfig) -> (r: Result<(), ConfigError>)
    ensures
        reports(r, transcoding_problem(*c)),
{
    if !c.enabled {
        return Ok(());
    }
    if c.ffmpeg_path.as_str().is_empty() || c.ffprobe_path.as_str().is_empty()
        || c.segment_duration_seconds == 0 || c.command_timeout_seconds == 0 || c.hls_version == 0 {
        return Err(
            config_error(
                "transcoding",
                ": command paths, durations, timeout, and HLS version must be configured",
            ),
        );
    }
    if c.segment_format == SegmentFormat::Fmp4 && c.hls_version < 7 {
        return Err(
            config_error("transcoding.hls_version", " must be at least 7 for fMP4 segments"),
        );
    }
    validate_component(
        c.master_playlist_filename.as_str(),
        "transcoding.master_playlist_filename",
    )?;
    validate_component(
        c.variant_playlist_filename.as_str(),
        "transcoding.variant_playlist_filename",
    )?;
    validate_component(c.fmp4_init_filename.as_str(), "transcoding.fmp4_init_filename")?;
    validate_segment_pattern(
        c.fmp4_segment_filename_pattern.as_str(),
        "transcoding.fmp4_segment_filename_pattern",
    )?;
    validate_segment_pattern(
        c.mpegts_segment_filename_pattern.as_str(),
        "transcoding.mpegts_segment_filename_pattern",
    )?;
    if c.audio_sample_rate_hz == 0 || c.audio_channels == 0 || blank(c.hls_playlist_type.as_str())
        || blank(c.scaling_flags.as_str()) || c.profiles.len() == 0 {
        return Err(
            config_error(
                "transcoding",
                ": audio, HLS, scaling, and profile settings must be configured",
            ),
        );
    }
    let profiles = &c.profiles;
    let mut k: usize = 0;
    while k < profiles.len()
        invariant
            k <= profiles@.len(),
            profiles_problem_from(profiles@, 0) == profiles_problem_from(profiles@, k as int),
        decreases profiles@.len() - k,
    {
        let profile = &profiles[k];
        validate_component(profile.name.as_str(), "transcoding.profiles.name")?;
        if !profile_settings_valid(profile) {
            return Err(
                config_error(
                    "transcoding.profiles",
                    ": dimensions, frame rates, bitrates, and string values must be valid",
                ),
            );
        }
        let mut j: usize = 0;
        while j < k
            invariant
                j <= k < profiles@.len(),
                forall|m: int| 0 <= m < j ==> #[trigger] profiles@[m].name@ != profiles@[k as int].name@,
            decreases k - j,
        {
            if str_equal(profiles[j].name.as_str(), profile.name.as_str()) {
                return Err(config_error("transcoding.profiles", ": profile names must be unique"));
            }
            j = j + 1;
        }
        k = k + 1;
    }
    Ok(())
}

/// The first problem of the `player` section.
pub open spec fn player_problem(c: PlayerConfig) -> Option<Seq<char>> {
    if c.hls_javascript_url is Some && !is_http_url(c.hls_javascript_url->0@) {
        Some("player.hls_javascript_url"@)
    } else {
        None
    }
}

fn check_player(c: &PlayerConfig) -> (r: Result<(), ConfigError>)
    ensures
        reports(r, player_problem(*c)),
{
    if let Some(url) = &c.hls_javascript_url {
        validate_absolute_http_url(url.as_str(), "player.hls_javascript_url")?;
    }
    Ok(())
}

/// The first problem of a configuration, section by section in the order
/// `Config::validate` checks them; `None` when the configuration is valid.
pub open spec fn config_problem(c: Config) -> Option<Seq<char>> {
    either(
        server_problem(c.server),
        either(
            routes_problem(c.routes),
            either(
                api_problem(c.api),
                either(
                    web_problem(c.web, c.api),
                    either(
                        storage_problem(c.database, c.storage),
                        either(
                            registration_problem(c.registration),
                            either(
                                browser_problem(c.browser_auth),
                                either(
                                    security_problem(c.security),
                                    either(
                                        analytics_problem(
                                            c.analytics,
                                            c.browser_auth.session_cookie_name@,
                                        ),
                                        either(
                                            uploads_problem(
                                                c.uploads,
                                                c.remote_imports,
                                                c.server.max_request_body_bytes,
                                            ),
                                            either(
                                                streaming_problem(c.streaming),
                                                either(
                                                    jobs_problem(c.jobs),
                                                    either(
                                                        transcoding_problem(c.transcoding),
                                                        player_problem(c.player),
                                                    ),
                                                ),
                                            ),
                                        ),
                                    ),
                                ),
                            ),
                        ),
                    ),
                ),
            ),
        ),
    )
}

/// A configuration that validates is safe to run with: its four secrets
/// have at least 32 bytes, sessions time out when idle no later than they
/// expire, a cross-site session cookie is sent over HTTPS only, playback
/// tokens live for some time, the default page size lies within the
/// maximum, jobs get at least one attempt and a positive retry delay and
/// renew their lease before it runs out, and passwords have a non-empty
/// length range.
pub proof fn lemma_valid_config_is_safe(c: Config)
    requires
        config_problem(c) is None,
    ensures
        utf8_len(c.browser_auth.password_pepper@) >= 32 && utf8_len(c.browser_auth.session_signing_key@) >= 32,
        utf8_len(c.security.api_key_pepper@) >= 32 && utf8_len(c.security.playback_signing_key@) >= 32,
        0 < c.browser_auth.session_idle_timeout_seconds <= c.browser_auth.session_ttl_seconds,
        c.browser_auth.session_cookie_same_site == CookieSameSite::Unrestricted ==> c.browser_auth.session_cookie_secure,
        c.security.playback_token_ttl_seconds > 0,
        1 <= c.api.default_page_size <= c.api.maximum_page_size,
        c.jobs.maximum_attempts > 0 && c.jobs.retry_base_delay_seconds > 0,
        c.jobs.lease_renewal_interval_seconds > 0 && c.jobs.lease_renewal_interval_seconds < c.jobs.lease_seconds,
        1 <= c.browser_auth.minimum_password_bytes <= c.browser_auth.maximum_password_bytes,
{
    assert(api_problem(c.api) is None);
    assert(browser_problem(c.browser_auth) is None);
    assert(security_problem(c.security) is None);
    assert(jobs_problem(c.jobs) is None);
}

impl Config {
    /// Checks every rule a configuration must satisfy; reports the first
    /// violated rule by the setting at fault.
    pub fn validate(&self) -> (r: Result<(), ConfigError>)
        ensures
            reports(r, config_problem(*self)),
    {
        check_server(&self.server)?;
        check_routes(&self.routes)?;
        check_api(&self.api)?;
        check_web(&self.web, &self.api)?;
        check_storage(&self.database, &self.storage)?;
        check_registration(&self.registration)?;
        check_browser(&self.browser_auth)?;
        check_security(&self.security)?;
        check_analytics(&self.analytics, self.browser_auth.session_cookie_name.as_str())?;
        check_uploads(&self.uploads, &self.remote_imports, self.server.max_request_body_bytes)?;
        check_streaming(&self.streaming)?;
        check_jobs(&self.jobs)?;
        check_transcoding(&self.transcoding)?;
        check_player(&self.player)?;
        Ok(())
    }
}

} // verus!
