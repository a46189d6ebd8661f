use gulfstream::application::accounts::{
    account_quota, is_valid_email, normalized_email, normalized_required, registered_account,
    validate_password,
};
use gulfstream::application::sessions::{check_login, login_email, LoginRequest};
use gulfstream::config::{BrowserAuthConfig, CookieSameSite, RegistrationConfig, RegistrationMode};
use gulfstream::error::AppError;

fn bad_request(result: Result<String, AppError>) -> String {
    match result {
        Err(AppError::BadRequest(message)) => message,
        other => panic!("unexpected {other:?}"),
    }
}

#[test]
fn required_fields_are_trimmed_and_bounded() {
    assert_eq!(normalized_required("  Ada  ", "display_name", 10).expect("valid"), "Ada");
    assert_eq!(bad_request(normalized_required("   ", "display_name", 10)), "display_name is required");
    assert_eq!(
        bad_request(normalized_required("Adaline Byron", "display_name", 5)),
        "display_name exceeds the configured limit of 5 bytes"
    );
    assert_eq!(bad_request(normalized_required("ééé", "name", 5)), "name exceeds the configured limit of 5 bytes");
}

#[test]
fn emails_are_normalized_and_checked() {
    assert_eq!(normalized_email("  Ada@Example.COM ", 254).expect("valid"), "ada@example.com");
    assert_eq!(normalized_email("ÉLODIE@EXAMPLE.FR", 254).expect("valid"), "élodie@example.fr");
    assert_eq!(bad_request(normalized_email("no-at-sign", 254)), "email must be syntactically valid");
    assert!(is_valid_email("a@b.c"));
    assert!(is_valid_email("a@b@c.d") == false);
    assert!(!is_valid_email("@b.c"));
    assert!(!is_valid_email("a@"));
    assert!(!is_valid_email("a@.b"));
    assert!(!is_valid_email("a@b."));
    assert!(!is_valid_email("a@b..c"));
    assert!(!is_valid_email("a b@c.d"));
    assert!(!is_valid_email("a\u{7f}@c.d"));
}

fn browser() -> BrowserAuthConfig {
    BrowserAuthConfig {
        password_pepper: "pepper".to_owned(),
        password_argon2_memory_kib: 8,
        password_argon2_iterations: 1,
        password_argon2_parallelism: 1,
        minimum_password_bytes: 8,
        maximum_password_bytes: 12,
        session_signing_key: "key".to_owned(),
        session_ttl_seconds: 60,
        session_idle_timeout_seconds: 60,
        maximum_sessions_per_account: 1,
        session_cookie_name: "s".to_owned(),
        session_cookie_path: "/".to_owned(),
        session_cookie_domain: None,
        session_cookie_secure: true,
        session_cookie_http_only: true,
        session_cookie_same_site: CookieSameSite::Strict,
        csrf_header_name: "x-csrf".to_owned(),
        maintenance_interval_seconds: 60,
    }
}

#[test]
fn passwords_must_fit_the_limits() {
    assert!(validate_password(&browser(), "12345678").is_ok());
    assert!(validate_password(&browser(), "123456789012").is_ok());
    assert!(matches!(
        validate_password(&browser(), "1234567"),
        Err(AppError::BadRequest(m)) if m == "password must contain between 8 and 12 bytes"
    ));
    assert!(validate_password(&browser(), "1234567890123").is_err());
}

#[test]
fn logins_hide_why_they_fail() {
    let registration = RegistrationConfig {
        mode: RegistrationMode::Open,
        admin_token: None,
        admin_header_name: "x-admin".to_owned(),
        default_storage_quota_bytes: 1,
        maximum_email_bytes: 254,
        maximum_display_name_bytes: 10,
        maximum_api_key_name_bytes: 10,
    };
    let request = |email: &str, password: &str| LoginRequest { email: email.to_owned(), password: password.to_owned() };
    assert_eq!(login_email(&request(" A@B.C ", "secret"), &browser(), &registration).expect("ok"), "a@b.c");
    assert!(matches!(login_email(&request("a@b.c", ""), &browser(), &registration), Err(AppError::Unauthorized)));
    assert!(matches!(login_email(&request("bad", "secret"), &browser(), &registration), Err(AppError::Unauthorized)));
    assert!(matches!(check_login("disabled", true), Err(AppError::Forbidden)));
    assert!(matches!(check_login("active", false), Err(AppError::Unauthorized)));
    assert!(check_login("active", true).is_ok());
}

#[test]
fn new_accounts_start_active_and_empty() {
    assert_eq!(account_quota(5).expect("fits"), 5);
    assert!(matches!(account_quota(u64::MAX), Err(AppError::BadRequest(_))));
    let account = registered_account("id".to_owned(), "a@b.c".to_owned(), "Ada".to_owned(), 5, "now".to_owned());
    assert_eq!(account.status, "active");
    assert_eq!(account.storage_used_bytes, 0);
    assert_eq!(account.created_at, account.updated_at);
}
