use gulfstream::cookie::{append, read, visible_header_text, SetCookie};
use gulfstream::config::RoutesConfig;
use gulfstream::error::AppError;
use gulfstream::http::web::runtime_routes;
use gulfstream::runtime::{validate_player_template, validate_web_template};

#[test]
fn cookies_are_read_from_the_header() {
    assert_eq!(read(Some("a=1; session=abc; b=2"), "session"), Some("abc".to_owned()));
    assert_eq!(read(Some("session=first; session=second"), "session"), Some("first".to_owned()));
    assert_eq!(read(Some("  session = x"), "session"), None);
    assert_eq!(read(Some("token=a=b"), "token"), Some("a=b".to_owned()));
    assert_eq!(read(None, "session"), None);
    assert_eq!(visible_header_text(b"a=1"), Some("a=1".to_owned()));
    assert_eq!(visible_header_text(b"a=\x80"), None);
}

#[test]
fn set_cookie_values_are_written_in_order() {
    let cookie = append(SetCookie {
        name: "session",
        value: "abc",
        path: "/",
        domain: Some("example.com"),
        max_age_seconds: Some(-1),
        http_only: true,
        secure: true,
        same_site: "Lax",
    })
    .expect("valid");
    assert_eq!(cookie, "session=abc; Path=/; SameSite=Lax; Domain=example.com; Max-Age=-1; HttpOnly; Secure");
    let minimal = append(SetCookie {
        name: "a",
        value: "",
        path: "/x",
        domain: None,
        max_age_seconds: None,
        http_only: false,
        secure: false,
        same_site: "Strict",
    })
    .expect("valid");
    assert_eq!(minimal, "a=; Path=/x; SameSite=Strict");
    let invalid = append(SetCookie {
        name: "a",
        value: "line\nbreak",
        path: "/",
        domain: None,
        max_age_seconds: None,
        http_only: false,
        secure: false,
        same_site: "Lax",
    });
    assert!(matches!(invalid, Err(AppError::Internal(m)) if m == "failed to parse header value"));
}

#[test]
fn cookies_set_are_read_back() {
    let header = append(SetCookie {
        name: "gulfstream_session",
        value: "0123abcd",
        path: "/",
        domain: None,
        max_age_seconds: Some(3600),
        http_only: true,
        secure: true,
        same_site: "Lax",
    })
    .expect("valid");
    let pair = header.split(';').next().expect("pair");
    assert_eq!(pair, "gulfstream_session=0123abcd");
    assert_eq!(read(Some(pair), "gulfstream_session"), Some("0123abcd".to_owned()));
}

#[test]
fn templates_must_hold_their_markers() {
    let player = "{{TITLE}}{{DESCRIPTION}}{{HLS_SCRIPT}}{{STREAM_URL_JSON}}{{EVENT_URL_JSON}}{{SOURCE_MODE_JSON}}{{HEARTBEAT_MILLISECONDS}}<video>";
    assert!(validate_player_template(player).is_ok());
    assert_eq!(
        validate_player_template("{{TITLE}}<video>").unwrap_err(),
        "player template is missing required marker {{DESCRIPTION}}"
    );
    assert_eq!(
        validate_web_template("").unwrap_err(),
        "web template is missing required marker {{PAGE_TITLE}}"
    );
}

#[test]
fn runtime_routes_are_derived_from_the_mounts() {
    let routes = runtime_routes(&RoutesConfig {
        api: "/api".to_owned(),
        web: "/app".to_owned(),
        watch: "/watch".to_owned(),
        stream: "/stream".to_owned(),
        health_live: "/live".to_owned(),
        health_ready: "/ready".to_owned(),
        openapi: "/openapi".to_owned(),
    });
    assert_eq!(routes.dashboard, "/app");
    assert_eq!(routes.upload, "/app/upload");
    assert_eq!(routes.api_media_playback_token_template, "/api/media/{media_id}/playback-tokens");
    assert_eq!(routes.api_analytics_time_series, "/api/analytics/time-series");
}
