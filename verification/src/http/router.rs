//! The cross-origin policy of the HTTP service.
use vstd::prelude::*;

use crate::config::{BrowserAuthConfig, RegistrationConfig, ServerConfig};
use crate::cookie::{header_value, is_header_value};
use crate::links::{is_header_name, valid_header_name};
use crate::text::{str_equal, texts};

verus! {

/// Which origins may call the API from a browser.
#[derive(Clone, Debug)]
pub enum OriginPolicy {
    /// Any origin (a `*` is configured).
    Any,
    /// The configured origins.
    List(Vec<String>),
    /// No cross-origin calls (none configured).
    Unset,
}

/// The cross-origin policy: the allowed origins, the extra request headers
/// (the registration admin header and the CSRF header, besides
/// `Authorization`, `Content-Type`, `Accept` and `Range`), and whether
/// credentials are allowed.
#[derive(Clone, Debug)]
pub struct CorsPolicy {
    pub origins: OriginPolicy,
    pub admin_header: String,
    pub csrf_header: String,
    pub allow_credentials: bool,
}

/// The cross-origin policy of a configuration. The admin and CSRF header
/// names must be valid header names and listed origins valid header values.
pub fn cors_policy(server: &ServerConfig, registration: &RegistrationConfig, browser: &BrowserAuthConfig) -> (r: Result<CorsPolicy, String>)
    ensures
        !valid_header_name(registration.admin_header_name@) ==> (r matches Err(m) && m@ == "invalid HTTP header name"@),
        valid_header_name(registration.admin_header_name@) && !valid_header_name(browser.csrf_header_name@) ==> (r matches Err(
            m,
        ) && m@ == "invalid HTTP header name"@),
        valid_header_name(registration.admin_header_name@) && valid_header_name(browser.csrf_header_name@) ==> {
            let origins = texts(server.cors_allowed_origins@);
            if origins.contains("*"@) {
                r matches Ok(p) && p.origins is Any && p.admin_header@ == registration.admin_header_name@
                    && p.csrf_header@ == browser.csrf_header_name@ && p.allow_credentials
                    == server.cors_allow_credentials
            } else if origins.len() == 0 {
                r matches Ok(p) && p.origins is Unset && p.admin_header@ == registration.admin_header_name@
                    && p.csrf_header@ == browser.csrf_header_name@ && p.allow_credentials
                    == server.cors_allow_credentials
            } else if forall|i: int| 0 <= i < origins.len() ==> is_header_value(#[trigger] origins[i]) {
                r matches Ok(p) && (p.origins matches OriginPolicy::List(l) && texts(l@) == origins)
                    && p.admin_header@ == registration.admin_header_name@ && p.csrf_header@
                    == browser.csrf_header_name@ && p.allow_credentials == server.cors_allow_credentials
            } else {
                r matches Err(m) && m@ == "failed to parse header value"@
            }
        },
{
    if !is_header_name(registration.admin_header_name.as_str()) || !is_header_name(browser.csrf_header_name.as_str()) {
        return Err("invalid HTTP header name".to_owned());
    }
    let ghost origins = texts(server.cors_allowed_origins@);
    let mut any = false;
    let mut valid = true;
    let mut list: Vec<String> = Vec::new();
    let mut i: usize = 0;
    while i < server.cors_allowed_origins.len()
        invariant
            i <= server.cors_allowed_origins@.len(),
            origins == texts(server.cors_allowed_origins@),
            any <==> exists|k: int| 0 <= k < i && #[trigger] origins[k] == "*"@,
            valid <==> forall|k: int| 0 <= k < i ==> is_header_value(#[trigger] origins[k]),
            texts(list@) == origins.take(i as int),
        decreases server.cors_allowed_origins@.len() - i,
    {
        let origin = server.cors_allowed_origins[i].as_str();
        if str_equal(origin, "*") {
            any = true;
        }
        if header_value(origin).is_err() {
            valid = false;
        }
        crate::text::push_text(&mut list, origin);
        assert(origins.take(i + 1) == origins.take(i as int).push(origins[i as int]));
        i = i + 1;
    }
    assert(origins.take(origins.len() as int) == origins);
    proof {
        if origins.contains("*"@) {
            let k = choose|k: int| 0 <= k < origins.len() && origins[k] == "*"@;
            assert(origins[k] == "*"@);
        }
    }
    let policy = if any {
        OriginPolicy::Any
    } else if list.len() == 0 {
        OriginPolicy::Unset
    } else if !valid {
        return Err("failed to parse header value".to_owned());
    } else {
        OriginPolicy::List(list)
    };
    Ok(CorsPolicy {
        origins: policy,
        admin_header: registration.admin_header_name.as_str().to_owned(),
        csrf_header: browser.csrf_header_name.as_str().to_owned(),
        allow_credentials: server.cors_allow_credentials,
    })
}

} // verus!
