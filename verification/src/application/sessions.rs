//! Logging in with an email address and a password.
use vstd::prelude::*;

use crate::application::accounts::{email_value, normalized_email};
use crate::config::{BrowserAuthConfig, RegistrationConfig};
use crate::error::AppError;
use crate::text::{byte_len, utf8_len};

verus! {

/// A login request.
#[derive(Clone, Debug)]
pub struct LoginRequest {
    pub email: String,
    pub password: String,
}

/// The checks of a login request before the account is looked up: an empty
/// or overlong password, or an email that is not valid, is unauthorized
/// (without saying which). Gives the normalized email to look up.
pub fn login_email(request: &LoginRequest, browser: &BrowserAuthConfig, registration: &RegistrationConfig) -> (r: Result<String, AppError>)
    ensures
        utf8_len(request.password@) == 0 || utf8_len(request.password@) > browser.maximum_password_bytes
            ==> r matches Err(AppError::Unauthorized),
        !(utf8_len(request.password@) == 0 || utf8_len(request.password@) > browser.maximum_password_bytes)
            ==> match email_value(request.email@, registration.maximum_email_bytes as nat) {
            Ok(email) => r matches Ok(e) && e@ == email,
            Err(_) => r matches Err(AppError::Unauthorized),
        },
{
    let length = byte_len(request.password.as_str());
    if length == 0 || length > browser.maximum_password_bytes {
        return Err(AppError::Unauthorized);
    }
    match normalized_email(request.email.as_str(), registration.maximum_email_bytes) {
        Ok(email) => Ok(email),
        Err(_) => Err(AppError::Unauthorized),
    }
}

/// The checks of a login once the account was found: an inactive account is
/// forbidden, a wrong password unauthorized.
pub fn check_login(account_status: &str, password_matches: bool) -> (r: Result<(), AppError>)
    ensures
        account_status@ != "active"@ ==> r matches Err(AppError::Forbidden),
        account_status@ == "active"@ && !password_matches ==> r matches Err(AppError::Unauthorized),
        account_status@ == "active"@ && password_matches ==> r is Ok,
{
    if !crate::text::str_equal(account_status, "active") {
        return Err(AppError::Forbidden);
    }
    if !password_matches {
        return Err(AppError::Unauthorized);
    }
    Ok(())
}

} // verus!
