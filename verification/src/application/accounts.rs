//! Accounts: registration, profile updates and API keys.
use vstd::prelude::*;

use crate::auth::AuthService;
use crate::config::{BrowserAuthConfig, RegistrationConfig, RegistrationMode};
use crate::domain::Account;
use crate::error::AppError;
use crate::text::{
    byte_len, chars_of, contains, contains_char, contains_text, decimal, ends_with, has_char,
    has_prefix, has_suffix, is_ascii_control, is_ascii_whitespace, push_str, rsplit_once,
    rsplit_once_text, starts_with, to_lowercase, trim, trim_str, unicode_lowercase, utf8_len,
};

verus! {

/// A registration request.
#[derive(Clone, Debug)]
pub struct RegisterAccount {
    pub email: String,
    pub display_name: String,
    pub password: String,
}

/// A profile update.
#[derive(Clone, Debug)]
pub struct UpdateAccount {
    pub display_name: String,
}

/// A request for a new API key.
#[derive(Clone, Debug)]
pub struct CreateApiKey {
    pub name: String,
}

/// `<field> is required`.
pub open spec fn required_message(field: Seq<char>) -> Seq<char> {
    field + " is required"@
}

/// `<field> exceeds the configured limit of <maximum> bytes`.
pub open spec fn limit_message(field: Seq<char>, maximum_bytes: nat) -> Seq<char> {
    field + " exceeds the configured limit of "@ + decimal(maximum_bytes) + " bytes"@
}

/// Builds `<field> exceeds the configured limit of <maximum> bytes`.
pub fn limit_text(field: &str, maximum_bytes: usize) -> (r: String)
    ensures
        r@ == limit_message(field@, maximum_bytes as nat),
{
    let mut m = field.to_owned();
    push_str(&mut m, " exceeds the configured limit of ");
    crate::text::push_decimal(&mut m, maximum_bytes as u64);
    push_str(&mut m, " bytes");
    m
}

/// What `normalized_required` gives: the trimmed value, or the message of
/// the bad request (empty, or longer than `maximum_bytes` bytes of UTF-8).
pub open spec fn required_value(value: Seq<char>, field: Seq<char>, maximum_bytes: nat) -> Result<Seq<char>, Seq<char>> {
    let t = trim(value);
    if t.len() == 0 {
        Err(required_message(field))
    } else if utf8_len(t) > maximum_bytes {
        Err(limit_message(field, maximum_bytes))
    } else {
        Ok(t)
    }
}

/// Whether `r` answers `expected`, an error standing for a bad request with
/// that message.
pub open spec fn answers_bad_request(r: Result<String, AppError>, expected: Result<Seq<char>, Seq<char>>) -> bool {
    match expected {
        Ok(v) => r matches Ok(s) && s@ == v,
        Err(m) => r matches Err(AppError::BadRequest(e)) && e@ == m,
    }
}

/// A required text field, trimmed, within its byte limit.
pub fn normalized_required(value: &str, field: &str, maximum_bytes: usize) -> (r: Result<String, AppError>)
    ensures
        answers_bad_request(r, required_value(value@, field@, maximum_bytes as nat)),
{
    let normalized = trim_str(value);
    if chars_of(normalized.as_str()).len() == 0 {
        let mut m = field.to_owned();
        push_str(&mut m, " is required");
        return Err(AppError::BadRequest(m));
    }
    if byte_len(normalized.as_str()) > maximum_bytes {
        return Err(AppError::BadRequest(limit_text(field, maximum_bytes)));
    }
    Ok(normalized)
}

/// A syntactically valid email address: no ASCII whitespace or control
/// character (in bytes: none of these bytes), and, split at the last `@`, a
/// non-empty local part without `@` and a non-empty domain that neither
/// starts nor ends with `.` and holds no `..`.
pub open spec fn is_email(s: Seq<char>) -> bool {
    &&& forall|i: int| 0 <= i < s.len() ==> !(is_ascii_whitespace(#[trigger] s[i]) || is_ascii_control(s[i]))
    &&& match rsplit_once(s, '@') {
        Some((local, domain)) => {
            &&& local.len() > 0
            &&& domain.len() > 0
            &&& !has_char(local, '@')
            &&& !starts_with(domain, "."@)
            &&& !ends_with(domain, "."@)
            &&& !contains(domain, ".."@)
        },
        None => false,
    }
}

/// Whether `value` is a syntactically valid email address.
pub fn is_valid_email(value: &str) -> (r: bool)
    ensures
        r == is_email(value@),
{
    let v = chars_of(value);
    let mut i: usize = 0;
    while i < v.len()
        invariant
            i <= v@.len(),
            v@ == value@,
            forall|k: int| 0 <= k < i ==> !(is_ascii_whitespace(#[trigger] v@[k]) || is_ascii_control(v@[k])),
        decreases v@.len() - i,
    {
        let c = v[i];
        let n = c as u32;
        if c == ' ' || c == '\t' || c == '\n' || n == 0x0C || c == '\r' || n < 0x20 || n == 0x7F {
            return false;
        }
        i = i + 1;
    }
    let (local, domain) = match rsplit_once_text(value, '@') {
        Some(parts) => parts,
        None => return false,
    };
    let lv = chars_of(local.as_str());
    let dv = chars_of(domain.as_str());
    lv.len() > 0 && dv.len() > 0 && !contains_char(&lv, '@') && !has_prefix(&dv, ".") && !has_suffix(&dv, ".") && !contains_text(&dv, "..")
}

/// What `normalized_email` gives: the trimmed, lowercased address, or the
/// message of the bad request.
pub open spec fn email_value(value: Seq<char>, maximum_bytes: nat) -> Result<Seq<char>, Seq<char>> {
    match required_value(value, "email"@, maximum_bytes) {
        Err(m) => Err(m),
        Ok(t) => {
            let email = unicode_lowercase(t);
            if is_email(email) {
                Ok(email)
            } else {
                Err("email must be syntactically valid"@)
            }
        },
    }
}

/// An email address as stored: trimmed, within the limit, lowercased and
/// syntactically valid.
pub fn normalized_email(value: &str, maximum_bytes: usize) -> (r: Result<String, AppError>)
    ensures
        answers_bad_request(r, email_value(value@, maximum_bytes as nat)),
{
    let trimmed = match normalized_required(value, "email", maximum_bytes) {
        Ok(t) => t,
        Err(e) => return Err(e),
    };
    let email = to_lowercase(trimmed.as_str());
    if !is_valid_email(email.as_str()) {
        return Err(AppError::BadRequest("email must be syntactically valid".to_owned()));
    }
    Ok(email)
}

/// `password must contain between <minimum> and <maximum> bytes`.
pub open spec fn password_message(minimum: nat, maximum: nat) -> Seq<char> {
    "password must contain between "@ + decimal(minimum) + " and "@ + decimal(maximum) + " bytes"@
}

/// A new password must have between the configured minimum and maximum
/// number of bytes.
pub fn validate_password(config: &BrowserAuthConfig, password: &str) -> (r: Result<(), AppError>)
    ensures
        r is Ok <==> config.minimum_password_bytes <= utf8_len(password@) <= config.maximum_password_bytes,
        r is Err ==> (r matches Err(AppError::BadRequest(m)) && m@ == password_message(
            config.minimum_password_bytes as nat,
            config.maximum_password_bytes as nat,
        )),
{
    let length = byte_len(password);
    if length < config.minimum_password_bytes || length > config.maximum_password_bytes {
        let mut m = "password must contain between ".to_owned();
        crate::text::push_decimal(&mut m, config.minimum_password_bytes as u64);
        push_str(&mut m, " and ");
        crate::text::push_decimal(&mut m, config.maximum_password_bytes as u64);
        push_str(&mut m, " bytes");
        return Err(AppError::BadRequest(m));
    }
    Ok(())
}

/// Whether registration is allowed: always when open, never when disabled,
/// and with an admin token only when the request's admin header carries the
/// configured token (an unset token refuses everyone).
pub fn authorize_registration(registration: &RegistrationConfig, auth: &AuthService, supplied: Option<&str>) -> (r: Result<(), AppError>)
    ensures
        r is Ok <==> match registration.mode {
            RegistrationMode::Open => true,
            RegistrationMode::Disabled => false,
            RegistrationMode::AdminToken => supplied is Some && registration.admin_token is Some
                && registration.admin_token.unwrap()@ == supplied.unwrap()@,
        },
        r is Err ==> r matches Err(AppError::Forbidden),
{
    match registration.mode {
        RegistrationMode::Open => Ok(()),
        RegistrationMode::Disabled => Err(AppError::Forbidden),
        RegistrationMode::AdminToken => {
            let supplied = match supplied {
                Some(s) => s,
                None => return Err(AppError::Forbidden),
            };
            let expected = match &registration.admin_token {
                Some(t) => t,
                None => return Err(AppError::Forbidden),
            };
            if auth.admin_token_matches(expected.as_str(), supplied) {
                Ok(())
            } else {
                Err(AppError::Forbidden)
            }
        },
    }
}

/// The storage quota of a new account, which must fit a SQLite integer.
pub fn account_quota(default_storage_quota_bytes: u64) -> (r: Result<i64, AppError>)
    ensures
        default_storage_quota_bytes <= i64::MAX ==> r == Ok::<i64, AppError>(default_storage_quota_bytes as i64),
        default_storage_quota_bytes > i64::MAX ==> (r matches Err(AppError::BadRequest(m)) && m@
            == "configured account quota exceeds SQLite integer range"@),
{
    if default_storage_quota_bytes > i64::MAX as u64 {
        return Err(
            AppError::BadRequest("configured account quota exceeds SQLite integer range".to_owned()),
        );
    }
    Ok(default_storage_quota_bytes as i64)
}

/// The account a registration creates: active, with nothing stored yet.
pub fn registered_account(id: String, email: String, display_name: String, quota: i64, timestamp: String) -> (r: Account)
    ensures
        r.id == id && r.email == email && r.display_name == display_name,
        r.status@ == "active"@,
        r.storage_quota_bytes == quota,
        r.storage_used_bytes == 0,
        r.created_at@ == timestamp@ && r.updated_at == timestamp,
{
    Account {
        id,
        email,
        display_name,
        status: "active".to_owned(),
        storage_quota_bytes: quota,
        storage_used_bytes: 0,
        created_at: timestamp.as_str().to_owned(),
        updated_at: timestamp,
    }
}

/// The checks of a registration request before the password is hashed: the
/// registration policy, then the email, the display name and the password.
/// Gives the normalized email and display name.
pub fn check_registration(
    registration: &RegistrationConfig,
    browser: &BrowserAuthConfig,
    auth: &AuthService,
    admin_header: Option<&str>,
    request: &RegisterAccount,
) -> (r: Result<(String, String), AppError>)
    ensures
        match authorize_registration_spec(registration, admin_header) {
            false => r matches Err(AppError::Forbidden),
            true => match email_value(request.email@, registration.maximum_email_bytes as nat) {
                Err(m) => r matches Err(AppError::BadRequest(e)) && e@ == m,
                Ok(email) => match required_value(
                    request.display_name@,
                    "display_name"@,
                    registration.maximum_display_name_bytes as nat,
                ) {
                    Err(m) => r matches Err(AppError::BadRequest(e)) && e@ == m,
                    Ok(name) => if browser.minimum_password_bytes <= utf8_len(request.password@)
                        <= browser.maximum_password_bytes {
                        r matches Ok((e, n)) && e@ == email && n@ == name
                    } else {
                        r matches Err(AppError::BadRequest(e)) && e@ == password_message(
                            browser.minimum_password_bytes as nat,
                            browser.maximum_password_bytes as nat,
                        )
                    },
                },
            },
        },
{
    if let Err(e) = authorize_registration(registration, auth, admin_header) {
        return Err(e);
    }
    let email = match normalized_email(request.email.as_str(), registration.maximum_email_bytes) {
        Ok(e) => e,
        Err(e) => return Err(e),
    };
    let display_name = match normalized_required(
        request.display_name.as_str(),
        "display_name",
        registration.maximum_display_name_bytes,
    ) {
        Ok(n) => n,
        Err(e) => return Err(e),
    };
    if let Err(e) = validate_password(browser, request.password.as_str()) {
        return Err(e);
    }
    Ok((email, display_name))
}

/// Whether the registration policy lets a request with the given admin
/// header through.
pub open spec fn authorize_registration_spec(registration: &RegistrationConfig, supplied: Option<&str>) -> bool {
    match registration.mode {
        RegistrationMode::Open => true,
        RegistrationMode::Disabled => false,
        RegistrationMode::AdminToken => supplied is Some && registration.admin_token is Some
            && registration.admin_token.unwrap()@ == supplied.unwrap()@,
    }
}

} // verus!
