use gulfstream::auth::{
    bearer_token, check_playback_claims, keyed_hash, parse_api_key, session_is_over,
    sessions_to_remove, AuthService,
};
use gulfstream::config::{BrowserAuthConfig, CookieSameSite, SecurityConfig};
use gulfstream::error::AppError;

fn service() -> AuthService {
    AuthService::new(
        SecurityConfig {
            api_key_prefix: "gs".to_owned(),
            api_key_pepper: "pepper".to_owned(),
            api_key_argon2_memory_kib: 8,
            api_key_argon2_iterations: 1,
            api_key_argon2_parallelism: 1,
            playback_signing_key: "0123456789abcdef0123456789abcdef".to_owned(),
            playback_token_ttl_seconds: 300,
        },
        BrowserAuthConfig {
            password_pepper: "pepper".to_owned(),
            password_argon2_memory_kib: 8,
            password_argon2_iterations: 1,
            password_argon2_parallelism: 1,
            minimum_password_bytes: 8,
            maximum_password_bytes: 128,
            session_signing_key: "Jefe".to_owned(),
            session_ttl_seconds: 3600,
            session_idle_timeout_seconds: 600,
            maximum_sessions_per_account: 5,
            session_cookie_name: "gulfstream_session".to_owned(),
            session_cookie_path: "/".to_owned(),
            session_cookie_domain: None,
            session_cookie_secure: true,
            session_cookie_http_only: true,
            session_cookie_same_site: CookieSameSite::Lax,
            csrf_header_name: "x-csrf-token".to_owned(),
            maintenance_interval_seconds: 60,
        },
    )
}

#[test]
fn api_keys_are_split_into_identifier_and_secret() {
    let (id, secret) = parse_api_key("gs_abc_def_ghi", "gs").expect("valid key");
    assert_eq!((id.as_str(), secret.as_str()), ("abc", "def_ghi"));
    assert!(matches!(parse_api_key("xx_abc_def", "gs"), Err(AppError::Unauthorized)));
    assert!(parse_api_key("gs_abc", "gs").is_err());
    assert!(parse_api_key("gs__def", "gs").is_err());
    assert!(parse_api_key("gs_abc_", "gs").is_err());
    assert!(parse_api_key("gs", "gs").is_err());
}

#[test]
fn composed_api_keys_split_back() {
    let auth = service();
    let key = auth.compose_api_key("0123456789abcdef", "secret_with_underscore");
    assert_eq!(key, "gs_0123456789abcdef_secret_with_underscore");
    let (id, secret) = parse_api_key(&key, "gs").expect("valid key");
    assert_eq!((id.as_str(), secret.as_str()), ("0123456789abcdef", "secret_with_underscore"));
}

#[test]
fn bearer_tokens_are_read_from_the_header() {
    assert_eq!(bearer_token(Some("Bearer abc")), Some("abc".to_owned()));
    assert_eq!(bearer_token(Some("bEaReR a b")), Some("a b".to_owned()));
    assert_eq!(bearer_token(Some("Bearer ")), None);
    assert_eq!(bearer_token(Some("Basic abc")), None);
    assert_eq!(bearer_token(Some("Bearer")), None);
    assert_eq!(bearer_token(None), None);
}

#[test]
fn keyed_hashes_depend_on_key_purpose_and_value() {
    let value = keyed_hash(b"Jefe", b"session", "token");
    assert_eq!(value.len(), 64);
    assert!(value.chars().all(|c| c.is_ascii_hexdigit() && !c.is_ascii_uppercase()));
    assert_eq!(value, keyed_hash(b"Jefe", b"session", "token"));
    assert_ne!(value, keyed_hash(b"Jefe", b"csrf", "token"));
    assert_ne!(value, keyed_hash(b"Jeff", b"session", "token"));
    assert_ne!(value, keyed_hash(b"Jefe", b"session", "token2"));
}

#[test]
fn admin_tokens_and_csrf_tokens_are_compared() {
    let auth = service();
    assert!(auth.admin_token_matches("secret", "secret"));
    assert!(!auth.admin_token_matches("secret", "secreT"));
    assert!(!auth.admin_token_matches("secret", "secret2"));
    let stored = auth.csrf_token_hash("csrf-token");
    assert!(auth.check_csrf(Some("csrf-token"), &stored).is_ok());
    assert!(matches!(auth.check_csrf(Some("other"), &stored), Err(AppError::Forbidden)));
    assert!(matches!(auth.check_csrf(Some(""), &stored), Err(AppError::Forbidden)));
    assert!(matches!(auth.check_csrf(None, &stored), Err(AppError::Forbidden)));
    assert_ne!(auth.session_token_hash("csrf-token"), stored);
}

#[test]
fn signed_playback_tokens_verify() {
    let auth = service();
    let token = auth.sign_playback_token("media-1", "account-1", 1_000);
    let payload = auth.verify_playback_signature(&token).expect("valid signature");
    assert_eq!(
        String::from_utf8(payload).expect("utf-8"),
        "{\"media_id\":\"media-1\",\"account_id\":\"account-1\",\"expires_at\":1300}"
    );
    let mut tampered = token.clone();
    tampered.push('A');
    assert!(matches!(auth.verify_playback_signature(&tampered), Err(AppError::Unauthorized)));
    assert!(auth.verify_playback_signature("no-dot").is_err());
    assert!(check_playback_claims("media-1", "account-1", 1300, "media-1", "account-1", 1300).is_ok());
    assert!(check_playback_claims("media-1", "account-1", 1300, "media-1", "account-1", 1301).is_err());
    assert!(check_playback_claims("media-1", "account-1", 1300, "media-2", "account-1", 1).is_err());
}

#[test]
fn passwords_hash_and_verify() {
    let auth = service();
    let hash = auth.hash_account_password("correct horse", b"0123456789abcdef").expect("hash");
    assert!(hash.starts_with("$argon2id$"));
    assert!(auth.verify_account_password("correct horse", &hash).expect("verify"));
    assert!(!auth.verify_account_password("wrong horse", &hash).expect("verify"));
    assert!(matches!(auth.verify_account_password("x", "not a hash"), Err(AppError::Internal(_))));
    let key_hash = auth.hash_api_key_secret("s3cret", b"0123456789abcdef").expect("hash");
    assert!(auth.check_api_key_secret("active", "s3cret", &key_hash).is_ok());
    assert!(matches!(auth.check_api_key_secret("active", "nope", &key_hash), Err(AppError::Unauthorized)));
    assert!(matches!(auth.check_api_key_secret("suspended", "s3cret", &key_hash), Err(AppError::Forbidden)));
}

#[test]
fn sessions_expire_and_are_limited() {
    let second = 1_000_000_000_i64;
    assert!(!session_is_over(10 * second, 20 * second, 5 * second, 600));
    assert!(session_is_over(20 * second, 20 * second, 19 * second, 600));
    assert!(session_is_over(700 * second, 2000 * second, 100 * second, 600));
    assert_eq!(sessions_to_remove(5, 5), 1);
    assert_eq!(sessions_to_remove(7, 5), 3);
    assert_eq!(sessions_to_remove(2, 5), 0);
}
