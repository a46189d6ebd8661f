use gulfstream::application::media::remote_payload_json;
use gulfstream::auth::AuthService;
use gulfstream::config::{BrowserAuthConfig, CookieSameSite, SecurityConfig};
use gulfstream::error::AppError;

fn service() -> AuthService {
    AuthService::new(
        SecurityConfig {
            api_key_prefix: "gs".to_owned(),
            api_key_pepper: "pepper".to_owned(),
            api_key_argon2_memory_kib: 8,
            api_key_argon2_iterations: 1,
            api_key_argon2_parallelism: 1,
            playback_signing_key: "0123456789abcdef0123456789abcdef".to_owned(),
            playback_token_ttl_seconds: 300,
        },
        BrowserAuthConfig {
            password_pepper: "pepper".to_owned(),
            password_argon2_memory_kib: 8,
            password_argon2_iterations: 1,
            password_argon2_parallelism: 1,
            minimum_password_bytes: 8,
            maximum_password_bytes: 128,
            session_signing_key: "Jefe".to_owned(),
            session_ttl_seconds: 3600,
            session_idle_timeout_seconds: 600,
            maximum_sessions_per_account: 5,
            session_cookie_name: "gulfstream_session".to_owned(),
            session_cookie_path: "/".to_owned(),
            session_cookie_domain: None,
            session_cookie_secure: true,
            session_cookie_http_only: true,
            session_cookie_same_site: CookieSameSite::Lax,
            csrf_header_name: "x-csrf-token".to_owned(),
            maintenance_interval_seconds: 60,
        },
    )
}

#[test]
fn import_payloads_are_json_with_escapes() {
    assert_eq!(remote_payload_json("https://x.test/v.mp4"), "{\"url\":\"https://x.test/v.mp4\"}");
    assert_eq!(
        remote_payload_json("a\"b\\c\n\u{1}é"),
        "{\"url\":\"a\\\"b\\\\c\\n\\u0001é\"}"
    );
}

#[test]
fn playback_tokens_are_base64url_payload_and_signature() {
    let auth = service();
    let token = auth.sign_playback_token("media-1", "account-1", 1_000);
    assert_eq!(
        token,
        "eyJtZWRpYV9pZCI6Im1lZGlhLTEiLCJhY2NvdW50X2lkIjoiYWNjb3VudC0xIiwiZXhwaXJlc19hdCI6MTMwMH0.Mx_WKraIrCzPClaCJ1k8MK2_FpODF38NdX9SgPERSYU"
    );
    let padded = token.replacen('.', "=.", 1);
    assert!(matches!(auth.verify_playback_signature(&padded), Err(AppError::Unauthorized)));
}
