//! The browser session endpoints: the session cookie and logout.
use vstd::prelude::*;

use crate::config::BrowserAuthConfig;
use crate::cookie::SetCookie;
use crate::domain::{Account, AuthenticationMethod};
use crate::error::AppError;

verus! {

/// The answer to a login or a session refresh.
#[derive(Clone, Debug)]
pub struct SessionResponse {
    pub account: Account,
    pub csrf_token: String,
    pub expires_at: String,
}

/// The session cookie: the token (empty to clear it) with the configured
/// path, domain, flags and `SameSite` policy, living for the session's
/// lifetime (0 to clear it).
pub fn session_cookie<'a>(browser: &'a BrowserAuthConfig, token: &'a str, max_age_seconds: i64) -> (r: SetCookie<'a>)
    ensures
        r.name@ == browser.session_cookie_name@,
        r.value@ == token@,
        r.path@ == browser.session_cookie_path@,
        match r.domain {
            Some(d) => browser.session_cookie_domain matches Some(b) && d@ == b@,
            None => browser.session_cookie_domain is None,
        },
        r.max_age_seconds == Some(max_age_seconds),
        r.http_only == browser.session_cookie_http_only,
        r.secure == browser.session_cookie_secure,
        r.same_site@ == browser.session_cookie_same_site.text(),
{
    SetCookie {
        name: browser.session_cookie_name.as_str(),
        value: token,
        path: browser.session_cookie_path.as_str(),
        domain: match &browser.session_cookie_domain {
            Some(d) => Some(d.as_str()),
            None => None,
        },
        max_age_seconds: Some(max_age_seconds),
        http_only: browser.session_cookie_http_only,
        secure: browser.session_cookie_secure,
        same_site: browser.session_cookie_same_site.as_cookie_value(),
    }
}

/// The session a logout revokes: only a browser session can log out.
pub fn session_to_revoke(method: &AuthenticationMethod) -> (r: Result<String, AppError>)
    ensures
        match method {
            AuthenticationMethod::BrowserSession { session_id } => r matches Ok(s) && s@ == session_id@,
            AuthenticationMethod::ApiKey => r matches Err(AppError::Forbidden),
        },
{
    match method {
        AuthenticationMethod::BrowserSession { session_id } => Ok(session_id.as_str().to_owned()),
        AuthenticationMethod::ApiKey => Err(AppError::Forbidden),
    }
}

} // verus!
