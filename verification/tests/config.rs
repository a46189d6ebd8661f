use gulfstream::http::web::render;
use gulfstream::config::load::{configured_path, escape_toml_string_content, interpolate_environment, ArgumentError, PlaceholderError};
use gulfstream::config::{
    AnalyticsConfig, ApiConfig, BrowserAuthConfig, Config, CookieSameSite, DatabaseConfig,
    JobConfig, ObservabilityConfig, PlayerConfig, RegistrationConfig, RegistrationMode,
    RemoteImportConfig, RoutesConfig, SecurityConfig, SegmentFormat, ServerConfig,
    SqliteJournalMode, SqliteSynchronous, StorageConfig, StreamingConfig, TranscodingConfig,
    TranscodingProfile, UploadConfig, WebConfig,
};
use gulfstream::domain::Visibility;

fn s(value: &str) -> String {
    value.to_owned()
}

fn valid() -> Config {
    Config {
        server: ServerConfig {
            bind: s("127.0.0.1:8080"),
            public_base_url: s("https://video.example.com"),
            max_request_body_bytes: 1 << 30,
            max_in_flight_requests: 512,
            shutdown_grace_seconds: 30,
            cors_allowed_origins: vec![],
            cors_allow_credentials: false,
        },
        routes: RoutesConfig {
            api: s("/api/v1"),
            web: s("/app"),
            watch: s("/watch"),
            stream: s("/stream"),
            health_live: s("/health/live"),
            health_ready: s("/health/ready"),
            openapi: s("/openapi.yaml"),
        },
        api: ApiConfig { default_page_size: 25, maximum_page_size: 100 },
        web: WebConfig {
            enabled: true,
            template_path: s("web/index.html"),
            assets_directory: s("web/assets"),
            assets_route: s("/assets"),
            site_name: s("Gulfstream"),
            tagline: s("Video hosting"),
            repository_url: s("https://example.com/repo"),
            documentation_url: s("https://example.com/docs"),
            support_url: None,
            date_locale: s("en-US"),
            time_zone: None,
            brand_color: s("#2563eb"),
            dashboard_reporting_days: 30,
            dashboard_refresh_seconds: 30,
            jobs_refresh_seconds: 10,
            page_size_options: vec![10, 25, 50],
            cache_control: s("no-cache"),
        },
        database: DatabaseConfig {
            url: s("sqlite://data/gulfstream.db"),
            max_connections: 8,
            busy_timeout_ms: 5000,
            journal_mode: SqliteJournalMode::Wal,
            synchronous: SqliteSynchronous::Normal,
        },
        storage: StorageConfig {
            root: s("data/media"),
            temporary_root: s("data/tmp"),
            original_directory_name: s("original"),
            stream_directory_name: s("stream"),
            trash_directory_name: s("trash"),
            preserve_deleted_media: false,
        },
        streaming: StreamingConfig {
            player_cache_control: s("no-store"),
            token_redirect_cache_control: s("no-store"),
            playlist_cache_control: s("max-age=5"),
            segment_cache_control: s("max-age=3600"),
            source_cache_control: s("max-age=60"),
            private_asset_cache_control: s("private, no-store"),
            enable_range_requests: true,
        },
        registration: RegistrationConfig {
            mode: RegistrationMode::Open,
            admin_token: None,
            admin_header_name: s("x-admin-token"),
            default_storage_quota_bytes: 10_000_000_000,
            maximum_email_bytes: 254,
            maximum_display_name_bytes: 120,
            maximum_api_key_name_bytes: 80,
        },
        browser_auth: BrowserAuthConfig {
            password_pepper: s("0123456789abcdef0123456789abcdef"),
            password_argon2_memory_kib: 19456,
            password_argon2_iterations: 2,
            password_argon2_parallelism: 1,
            minimum_password_bytes: 12,
            maximum_password_bytes: 256,
            session_signing_key: s("abcdef0123456789abcdef0123456789"),
            session_ttl_seconds: 86400,
            session_idle_timeout_seconds: 3600,
            maximum_sessions_per_account: 10,
            session_cookie_name: s("gulfstream_session"),
            session_cookie_path: s("/"),
            session_cookie_domain: None,
            session_cookie_secure: true,
            session_cookie_http_only: true,
            session_cookie_same_site: CookieSameSite::Lax,
            csrf_header_name: s("x-csrf-token"),
            maintenance_interval_seconds: 600,
        },
        security: SecurityConfig {
            api_key_prefix: s("gs"),
            api_key_pepper: s("fedcba9876543210fedcba9876543210"),
            api_key_argon2_memory_kib: 19456,
            api_key_argon2_iterations: 2,
            api_key_argon2_parallelism: 1,
            playback_signing_key: s("00112233445566778899aabbccddeeff"),
            playback_token_ttl_seconds: 3600,
        },
        uploads: UploadConfig {
            minimum_source_bytes: 1,
            maximum_source_bytes: 1 << 30,
            maximum_text_field_bytes: 10_000,
            maximum_filename_bytes: 240,
            default_filename: s("upload"),
            default_remote_filename: s("remote"),
            default_content_type: s("video/mp4"),
            default_visibility: Visibility::Private,
            accepted_content_types: vec![s("video/mp4")],
        },
        remote_imports: RemoteImportConfig {
            enabled: true,
            allow_private_networks: false,
            maximum_source_bytes: 1 << 30,
            request_timeout_seconds: 300,
            maximum_redirects: 5,
            user_agent: s("gulfstream"),
            use_system_proxy: false,
        },
        jobs: JobConfig {
            worker_count: 2,
            poll_interval_ms: 1000,
            lease_seconds: 300,
            lease_renewal_interval_seconds: 60,
            maximum_attempts: 3,
            retry_base_delay_seconds: 30,
        },
        transcoding: TranscodingConfig {
            enabled: true,
            ffmpeg_path: s("ffmpeg"),
            ffprobe_path: s("ffprobe"),
            command_timeout_seconds: 3600,
            segment_duration_seconds: 6,
            segment_format: SegmentFormat::Fmp4,
            hls_version: 7,
            master_playlist_filename: s("master.m3u8"),
            variant_playlist_filename: s("index.m3u8"),
            fmp4_init_filename: s("init.mp4"),
            fmp4_segment_filename_pattern: s("segment-%05d.m4s"),
            mpegts_segment_filename_pattern: s("segment-%05d.ts"),
            hls_playlist_type: s("vod"),
            hls_flags: vec![s("independent_segments")],
            scaling_flags: s("lanczos"),
            audio_sample_rate_hz: 48000,
            audio_channels: 2,
            ffmpeg_threads: 0,
            retain_original: true,
            allow_upscale: false,
            extra_input_arguments: vec![],
            extra_output_arguments: vec![],
            profiles: vec![TranscodingProfile {
                name: s("720p"),
                maximum_height: 720,
                video_codec: s("libx264"),
                video_bitrate_kbps: 2500,
                maximum_video_bitrate_kbps: 3000,
                video_buffer_kbps: 5000,
                audio_codec: s("aac"),
                audio_bitrate_kbps: 128,
                preset: s("veryfast"),
                profile: s("high"),
                pixel_format: s("yuv420p"),
                frame_rate: 30,
                hls_video_codec: s("avc1.640028"),
                hls_audio_codec: s("mp4a.40.2"),
            }],
        },
        analytics: AnalyticsConfig {
            enabled: true,
            viewer_hash_key: s("99887766554433221100ffeeddccbbaa"),
            visitor_cookie_name: s("gulfstream_visitor"),
            visitor_cookie_path: s("/"),
            playback_cookie_name: s("gulfstream_playback"),
            playback_session_cookie_name: s("gulfstream_playback_session"),
            playback_session_cookie_path: s("/"),
            cookie_secure: true,
            cookie_same_site: CookieSameSite::Lax,
            visitor_cookie_max_age_seconds: 31_536_000,
            heartbeat_interval_seconds: 15,
            maximum_heartbeat_delta_ms: 30_000,
            default_reporting_days: 30,
            maximum_reporting_days: 366,
            raw_event_retention_days: 90,
            playback_session_retention_days: 90,
            maintenance_interval_seconds: 3600,
            record_byte_events: true,
        },
        player: PlayerConfig { template_path: s("player/index.html"), hls_javascript_url: None },
        observability: ObservabilityConfig { log_filter: s("info"), json_logs: false },
    }
}

#[test]
fn a_complete_configuration_is_valid() {
    let config = valid();
    if let Err(error) = config.validate() {
        panic!("{}: {}", error.setting, error.message);
    }
}

fn rejected_setting(config: Config) -> String {
    config.validate().expect_err("configuration must be rejected").setting
}

#[test]
fn invalid_settings_are_reported_by_name() {
    let mut config = valid();
    config.routes.api = s("api/v1");
    assert_eq!(rejected_setting(config), "routes.api");
    let mut config = valid();
    config.server.public_base_url = s("ftp://example.com");
    assert_eq!(rejected_setting(config), "server.public_base_url");
    let mut config = valid();
    config.security.playback_signing_key = s("short");
    assert_eq!(rejected_setting(config), "security.playback_signing_key");
    let mut config = valid();
    config.web.brand_color = s("#12345");
    assert_eq!(rejected_setting(config), "web.brand_color");
    let mut config = valid();
    config.registration.admin_header_name = s("x admin");
    assert_eq!(rejected_setting(config), "registration.admin_header_name");
    let mut config = valid();
    config.browser_auth.csrf_header_name = s("x-csrf:token");
    assert_eq!(rejected_setting(config), "browser_auth.csrf_header_name");
}

#[test]
fn environment_placeholders_are_replaced_in_strings() {
    let env = vec![(s("HOME_DIR"), s("/srv/\"media\""))];
    let text = interpolate_environment("root = \"${HOME_DIR}/data\"\n", &env).expect("interpolated");
    assert_eq!(text, "root = \"/srv/\\\"media\\\"/data\"\n");
    assert!(matches!(interpolate_environment("root = ${HOME_DIR}\n", &env), Err(PlaceholderError::OutsideString)));
    assert!(matches!(interpolate_environment("root = \"${MISSING}\"\n", &env), Err(PlaceholderError::Missing(name)) if name == "MISSING"));
    assert!(matches!(interpolate_environment("root = \"${HOME_DIR\"\n", &env), Err(_)));
    assert_eq!(escape_toml_string_content("a\\b\"c\nd"), "a\\\\b\\\"c\\nd");
}

#[test]
fn plain_text_and_escaped_values_keep_their_strings() {
    let env = vec![(s("SECRET"), s("x\"\\\u{7}y"))];
    let plain = "[server]\nbind = \"127.0.0.1:8080\" # $ { not a placeholder\n";
    assert_eq!(interpolate_environment(plain, &env).expect("unchanged"), plain);
    let text = interpolate_environment("key = \"${SECRET}\" # ${SECRET}", &env);
    assert!(matches!(text, Err(PlaceholderError::OutsideString)));
    let text = interpolate_environment("key = \"${SECRET}\"", &env).expect("interpolated");
    assert_eq!(text, "key = \"x\\\"\\\\\\u0007y\"");
}

#[test]
fn the_configuration_path_comes_from_arguments_or_environment() {
    assert_eq!(configured_path(&vec![s("--config"), s("a.toml")], Some(s("b.toml"))).expect("path"), "a.toml");
    assert_eq!(configured_path(&vec![], Some(s("b.toml"))).expect("path"), "b.toml");
    assert!(matches!(configured_path(&vec![], None), Err(ArgumentError::NoPath)));
    assert!(matches!(configured_path(&vec![s("--config")], None), Err(ArgumentError::MissingValue)));
    assert!(matches!(configured_path(&vec![s("-v")], None), Err(ArgumentError::Unsupported(a)) if a == "-v"));
    assert!(matches!(
        configured_path(&vec![s("--config"), s("a"), s("--config"), s("b")], None),
        Err(ArgumentError::Repeated)
    ));
}

#[test]
fn runtime_settings_cannot_close_their_script() {
    let mut config = valid();
    config.web.enabled = true;
    let html = render(
        "<script>{{RUNTIME_CONFIG_JSON}}</script>",
        &config,
        "T",
        "p",
        "{\"x\":\"</script><b>\"}",
    )
    .expect("rendered");
    assert_eq!(html, "<script>{\"x\":\"\\u003c/script>\\u003cb>\"}</script>");
}
