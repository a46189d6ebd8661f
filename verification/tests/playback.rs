use gulfstream::application::media::MediaRecord;
use gulfstream::config::{RoutesConfig, StreamingConfig};
use gulfstream::error::AppError;
use gulfstream::http::playback::{
    access_route, cache_control, check_owner, content_range, content_type_for_asset,
    ensure_ready, html_escape, parse_range, player_source, playback_asset_cookie_path,
    playback_redemption_cookie_path, render_player, served_range, validate_component,
    AccessRoute,
};

#[test]
fn range_parser_supports_standard_and_suffix_ranges() {
    let standard = b"bytes=10-19";
    assert_eq!(
        parse_range(Some(standard.as_slice()), 100).expect("valid range"),
        Some((10, 19))
    );
    let open = b"bytes=90-";
    assert_eq!(
        parse_range(Some(open.as_slice()), 100).expect("valid range"),
        Some((90, 99))
    );
    let suffix = b"bytes=-10";
    assert_eq!(
        parse_range(Some(suffix.as_slice()), 100).expect("valid range"),
        Some((90, 99))
    );
}

#[test]
fn range_parser_rejects_multiple_or_out_of_bounds_ranges() {
    let multiple = b"bytes=0-1,4-5";
    assert!(parse_range(Some(multiple.as_slice()), 100).is_err());
    let outside = b"bytes=100-101";
    assert!(parse_range(Some(outside.as_slice()), 100).is_err());
}

#[test]
fn range_parser_edge_cases() {
    assert_eq!(parse_range(None, 0).expect("no header"), None);
    assert!(matches!(parse_range(Some(b"bytes=0-".as_slice()), 0), Err(AppError::RangeNotSatisfiable)));
    assert_eq!(parse_range(Some(b"bytes=5-500".as_slice()), 100).expect("clamped"), Some((5, 99)));
    assert_eq!(parse_range(Some(b"bytes=-500".as_slice()), 100).expect("whole"), Some((0, 99)));
    assert!(parse_range(Some(b"bytes=-0".as_slice()), 100).is_err());
    assert!(parse_range(Some(b"bytes=9-3".as_slice()), 100).is_err());
    assert!(parse_range(Some(b"items=1-2".as_slice()), 100).is_err());
    assert!(parse_range(Some(b"bytes=1-2\x01".as_slice()), 100).is_err());
    assert_eq!(parse_range(Some(b"bytes=+1-+2".as_slice()), 100).expect("signed"), Some((1, 2)));
}

#[test]
fn served_ranges_and_headers() {
    let whole = served_range(None, 100);
    assert_eq!((whole.start, whole.end, whole.partial, whole.length), (0, 99, false, 100));
    let empty = served_range(None, 0);
    assert_eq!((empty.start, empty.end, empty.length), (0, 0, 0));
    let part = served_range(Some((10, 19)), 100);
    assert_eq!((part.start, part.end, part.partial, part.length), (10, 19, true, 10));
    assert_eq!(content_range(10, 19, 100), "bytes 10-19/100");
}

fn record(visibility: &str, status: &str) -> MediaRecord {
    MediaRecord {
        id: "m1".to_owned(),
        account_id: "a1".to_owned(),
        original_object_key: Some("a1/m1/original/clip.mp4".to_owned()),
        source_filename: "clip.mp4".to_owned(),
        source_mime_type: Some("video/mp4".to_owned()),
        source_size_bytes: 10,
        storage_bytes: 10,
        title: "A <b>clip</b>".to_owned(),
        description: "Tom & Jerry's".to_owned(),
        visibility: visibility.to_owned(),
        status: status.to_owned(),
    }
}

fn routes() -> RoutesConfig {
    RoutesConfig {
        api: "/api/v1".to_owned(),
        web: "/app".to_owned(),
        watch: "/watch".to_owned(),
        stream: "/stream".to_owned(),
        health_live: "/health/live".to_owned(),
        health_ready: "/health/ready".to_owned(),
        openapi: "/openapi.yaml".to_owned(),
    }
}

#[test]
fn media_and_asset_checks() {
    assert!(ensure_ready(&record("public", "ready")).is_ok());
    assert!(matches!(ensure_ready(&record("public", "queued")), Err(AppError::MediaNotReady)));
    assert!(validate_component("segment-00001.m4s").is_ok());
    assert!(validate_component("name/").is_ok());
    assert!(validate_component("..").is_err());
    assert!(validate_component("a/b").is_err());
    assert!(validate_component("/etc").is_err());
    assert!(validate_component("").is_err());
    assert_eq!(content_type_for_asset("index.m3u8"), "application/vnd.apple.mpegurl");
    assert_eq!(content_type_for_asset("s.m4s"), "video/iso.segment");
    assert_eq!(content_type_for_asset("s.ts"), "video/mp2t");
    assert_eq!(content_type_for_asset("init.mp4"), "video/mp4");
    assert_eq!(content_type_for_asset("x.bin"), "application/octet-stream");
}

#[test]
fn access_depends_on_visibility_and_credentials() {
    assert!(matches!(access_route(&record("public", "ready"), true, None), AccessRoute::Open));
    assert!(matches!(access_route(&record("private", "ready"), true, None), AccessRoute::Account));
    assert!(matches!(
        access_route(&record("private", "ready"), false, Some("t".to_owned())),
        AccessRoute::Token(token) if token == "t"
    ));
    assert!(matches!(access_route(&record("private", "ready"), false, None), AccessRoute::Refused));
    assert!(check_owner(&record("private", "ready"), "a1").is_ok());
    assert!(matches!(check_owner(&record("private", "ready"), "a2"), Err(AppError::Forbidden)));
    let streaming = StreamingConfig {
        player_cache_control: "no-store".to_owned(),
        token_redirect_cache_control: "no-store".to_owned(),
        playlist_cache_control: "max-age=5".to_owned(),
        segment_cache_control: "max-age=3600".to_owned(),
        source_cache_control: "max-age=60".to_owned(),
        private_asset_cache_control: "private, no-store".to_owned(),
        enable_range_requests: true,
    };
    assert_eq!(cache_control(&streaming, &record("private", "ready"), "max-age=5"), "private, no-store");
    assert_eq!(cache_control(&streaming, &record("public", "ready"), "max-age=5"), "max-age=5");
}

#[test]
fn player_page_is_filled_in() {
    assert_eq!(html_escape("<a href=\"x\">Tom & 'Jerry'</a>"), "&lt;a href=&quot;x&quot;&gt;Tom &amp; &#39;Jerry&#39;&lt;/a&gt;");
    assert_eq!(playback_redemption_cookie_path(&routes(), "m1"), "/watch/m1");
    assert_eq!(playback_asset_cookie_path(&routes(), "m1"), "/stream/m1/");
    let (mode, url) = player_source(&routes(), "m1", 2, true).expect("hls");
    assert_eq!((mode, url.as_str()), ("hls", "/stream/m1/master.m3u8"));
    let (mode, url) = player_source(&routes(), "m1", 0, true).expect("file");
    assert_eq!((mode, url.as_str()), ("file", "/stream/m1/source"));
    assert!(matches!(player_source(&routes(), "m1", 0, false), Err(AppError::MediaNotReady)));
    let template = "<h1>{{TITLE}}</h1><p>{{DESCRIPTION}}</p>{{HLS_SCRIPT}}<video></video><script>play({{STREAM_URL_JSON}}, {{EVENT_URL_JSON}}, {{SOURCE_MODE_JSON}}, {{HEARTBEAT_MILLISECONDS}});</script>";
    let page = render_player(template, &record("public", "ready"), "hls", "/stream/m1/master.m3u8", "/api/v1/playback/s1/events", Some("https://cdn.example/hls.js"), 15);
    assert_eq!(
        page,
        "<h1>A &lt;b&gt;clip&lt;/b&gt;</h1><p>Tom &amp; Jerry&#39;s</p><script src=\"https://cdn.example/hls.js\"></script><video></video><script>play(\"/stream/m1/master.m3u8\", \"/api/v1/playback/s1/events\", \"hls\", 15000);</script>"
    );
}
