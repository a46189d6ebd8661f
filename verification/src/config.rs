//! The service configuration: its model, the rules a configuration must
//! satisfy, and the text processing that precedes parsing it.
use vstd::prelude::*;

use crate::domain::Visibility;

pub mod load;
pub mod validation;

verus! {

/// The complete configuration of a Gulfstream server.
#[derive(Clone, Debug)]
pub struct Config {
    pub server: ServerConfig,
    pub routes: RoutesConfig,
    pub api: ApiConfig,
    pub web: WebConfig,
    pub database: DatabaseConfig,
    pub storage: StorageConfig,
    pub streaming: StreamingConfig,
    pub registration: RegistrationConfig,
    pub browser_auth: BrowserAuthConfig,
    pub security: SecurityConfig,
    pub uploads: UploadConfig,
    pub remote_imports: RemoteImportConfig,
    pub jobs: JobConfig,
    pub transcoding: TranscodingConfig,
    pub analytics: AnalyticsConfig,
    pub player: PlayerConfig,
    pub observability: ObservabilityConfig,
}

/// Listener, limits and cross-origin settings.
#[derive(Clone, Debug)]
pub struct ServerConfig {
    /// The socket address to listen on, as written (`host:port`).
    pub bind: String,
    pub public_base_url: String,
    pub max_request_body_bytes: usize,
    pub max_in_flight_requests: usize,
    pub shutdown_grace_seconds: u64,
    pub cors_allowed_origins: Vec<String>,
    pub cors_allow_credentials: bool,
}

/// Where each part of the service is mounted.
#[derive(Clone, Debug)]
pub struct RoutesConfig {
    pub api: String,
    pub web: String,
    pub watch: String,
    pub stream: String,
    pub health_live: String,
    pub health_ready: String,
    pub openapi: String,
}

/// Pagination limits of the JSON API.
#[derive(Clone, Copy, Debug)]
pub struct ApiConfig {
    pub default_page_size: u32,
    pub maximum_page_size: u32,
}

/// The browser interface.
#[derive(Clone, Debug)]
pub struct WebConfig {
    pub enabled: bool,
    pub template_path: String,
    pub assets_directory: String,
    pub assets_route: String,
    pub site_name: String,
    pub tagline: String,
    pub repository_url: String,
    pub documentation_url: String,
    pub support_url: Option<String>,
    pub date_locale: String,
    pub time_zone: Option<String>,
    pub brand_color: String,
    pub dashboard_reporting_days: i64,
    pub dashboard_refresh_seconds: u64,
    pub jobs_refresh_seconds: u64,
    pub page_size_options: Vec<u32>,
    pub cache_control: String,
}

/// The SQLite database.
#[derive(Clone, Debug)]
pub struct DatabaseConfig {
    pub url: String,
    pub max_connections: u32,
    pub busy_timeout_ms: u64,
    pub journal_mode: SqliteJournalMode,
    pub synchronous: SqliteSynchronous,
}

/// SQLite `journal_mode` pragma values.
#[derive(Clone, Copy, Debug)]
pub enum SqliteJournalMode {
    Delete,
    Truncate,
    Persist,
    Memory,
    Wal,
    Off,
}

impl SqliteJournalMode {
    /// The pragma value in SQL.
    pub fn as_sql(self) -> (s: &'static str)
        ensures
            s@ == match self {
                SqliteJournalMode::Delete => "DELETE"@,
                SqliteJournalMode::Truncate => "TRUNCATE"@,
                SqliteJournalMode::Persist => "PERSIST"@,
                SqliteJournalMode::Memory => "MEMORY"@,
                SqliteJournalMode::Wal => "WAL"@,
                SqliteJournalMode::Off => "OFF"@,
            },
    {
        match self {
            SqliteJournalMode::Delete => "DELETE",
            SqliteJournalMode::Truncate => "TRUNCATE",
            SqliteJournalMode::Persist => "PERSIST",
            SqliteJournalMode::Memory => "MEMORY",
            SqliteJournalMode::Wal => "WAL",
            SqliteJournalMode::Off => "OFF",
        }
    }
}

/// SQLite `synchronous` pragma values.
#[derive(Clone, Copy, Debug)]
pub enum SqliteSynchronous {
    Off,
    Normal,
    Full,
    Extra,
}

impl SqliteSynchronous {
    /// The pragma value in SQL.
    pub fn as_sql(self) -> (s: &'static str)
        ensures
            s@ == match self {
                SqliteSynchronous::Off => "OFF"@,
                SqliteSynchronous::Normal => "NORMAL"@,
                SqliteSynchronous::Full => "FULL"@,
                SqliteSynchronous::Extra => "EXTRA"@,
            },
    {
        match self {
            SqliteSynchronous::Off => "OFF",
            SqliteSynchronous::Normal => "NORMAL",
            SqliteSynchronous::Full => "FULL",
            SqliteSynchronous::Extra => "EXTRA",
        }
    }
}

/// Where media files live.
#[derive(Clone, Debug)]
pub struct StorageConfig {
    pub root: String,
    pub temporary_root: String,
    pub original_directory_name: String,
    pub stream_directory_name: String,
    pub trash_directory_name: String,
    pub preserve_deleted_media: bool,
}

/// Playback response settings.
#[derive(Clone, Debug)]
pub struct StreamingConfig {
    pub player_cache_control: String,
    pub token_redirect_cache_control: String,
    pub playlist_cache_control: String,
    pub segment_cache_control: String,
    pub source_cache_control: String,
    pub private_asset_cache_control: String,
    pub enable_range_requests: bool,
}

/// Who may create accounts, and account limits.
#[derive(Clone, Debug)]
pub struct RegistrationConfig {
    pub mode: RegistrationMode,
    pub admin_token: Option<String>,
    pub admin_header_name: String,
    pub default_storage_quota_bytes: u64,
    pub maximum_email_bytes: usize,
    pub maximum_display_name_bytes: usize,
    pub maximum_api_key_name_bytes: usize,
}

/// Registration policies.
#[derive(Clone, Copy, Debug, PartialEq, Eq, Structural)]
pub enum RegistrationMode {
    Open,
    AdminToken,
    Disabled,
}

impl RegistrationMode {
    pub open spec fn text(self) -> Seq<char> {
        match self {
            RegistrationMode::Open => "open"@,
            RegistrationMode::AdminToken => "admin_token"@,
            RegistrationMode::Disabled => "disabled"@,
        }
    }

    pub fn as_str(self) -> (s: &'static str)
        ensures
            s@ == self.text(),
    {
        match self {
            RegistrationMode::Open => "open",
            RegistrationMode::AdminToken => "admin_token",
            RegistrationMode::Disabled => "disabled",
        }
    }
}

/// Browser sessions and account passwords.
#[derive(Clone, Debug)]
pub struct BrowserAuthConfig {
    pub password_pepper: String,
    pub password_argon2_memory_kib: u32,
    pub password_argon2_iterations: u32,
    pub password_argon2_parallelism: u32,
    pub minimum_password_bytes: usize,
    pub maximum_password_bytes: usize,
    pub session_signing_key: String,
    pub session_ttl_seconds: i64,
    pub session_idle_timeout_seconds: i64,
    pub maximum_sessions_per_account: u32,
    pub session_cookie_name: String,
    pub session_cookie_path: String,
    pub session_cookie_domain: Option<String>,
    pub session_cookie_secure: bool,
    pub session_cookie_http_only: bool,
    pub session_cookie_same_site: CookieSameSite,
    pub csrf_header_name: String,
    pub maintenance_interval_seconds: u64,
}

/// API keys and playback tokens.
#[derive(Clone, Debug)]
pub struct SecurityConfig {
    pub api_key_prefix: String,
    pub api_key_pepper: String,
    pub api_key_argon2_memory_kib: u32,
    pub api_key_argon2_iterations: u32,
    pub api_key_argon2_parallelism: u32,
    pub playback_signing_key: String,
    pub playback_token_ttl_seconds: i64,
}

/// Direct uploads.
#[derive(Clone, Debug)]
pub struct UploadConfig {
    pub minimum_source_bytes: u64,
    pub maximum_source_bytes: u64,
    pub maximum_text_field_bytes: usize,
    pub maximum_filename_bytes: usize,
    pub default_filename: String,
    pub default_remote_filename: String,
    pub default_content_type: String,
    pub default_visibility: Visibility,
    pub accepted_content_types: Vec<String>,
}

/// Imports from remote URLs.
#[derive(Clone, Debug)]
pub struct RemoteImportConfig {
    pub enabled: bool,
    pub allow_private_networks: bool,
    pub maximum_source_bytes: u64,
    pub request_timeout_seconds: u64,
    pub maximum_redirects: usize,
    pub user_agent: String,
    pub use_system_proxy: bool,
}

/// Background job workers.
#[derive(Clone, Copy, Debug)]
pub struct JobConfig {
    pub worker_count: usize,
    pub poll_interval_ms: u64,
    pub lease_seconds: i64,
    pub lease_renewal_interval_seconds: u64,
    pub maximum_attempts: i64,
    pub retry_base_delay_seconds: i64,
}

/// HLS transcoding with FFmpeg.
#[derive(Clone, Debug)]
pub struct TranscodingConfig {
    pub enabled: bool,
    pub ffmpeg_path: String,
    pub ffprobe_path: String,
    pub command_timeout_seconds: u64,
    pub segment_duration_seconds: u32,
    pub segment_format: SegmentFormat,
    pub hls_version: u32,
    pub master_playlist_filename: String,
    pub variant_playlist_filename: String,
    pub fmp4_init_filename: String,
    pub fmp4_segment_filename_pattern: String,
    pub mpegts_segment_filename_pattern: String,
    pub hls_playlist_type: String,
    pub hls_flags: Vec<String>,
    pub scaling_flags: String,
    pub audio_sample_rate_hz: u32,
    pub audio_channels: u32,
    pub ffmpeg_threads: u32,
    pub retain_original: bool,
    pub allow_upscale: bool,
    pub extra_input_arguments: Vec<String>,
    pub extra_output_arguments: Vec<String>,
    pub profiles: Vec<TranscodingProfile>,
}

/// HLS segment containers.
#[derive(Clone, Copy, Debug, PartialEq, Eq, Structural)]
pub enum SegmentFormat {
    Fmp4,
    MpegTs,
}

/// One output rendition.
#[derive(Clone, Debug)]
pub struct TranscodingProfile {
    pub name: String,
    pub maximum_height: u32,
    pub video_codec: String,
    pub video_bitrate_kbps: u32,
    pub maximum_video_bitrate_kbps: u32,
    pub video_buffer_kbps: u32,
    pub audio_codec: String,
    pub audio_bitrate_kbps: u32,
    pub preset: String,
    pub profile: String,
    pub pixel_format: String,
    pub frame_rate: u32,
    pub hls_video_codec: String,
    pub hls_audio_codec: String,
}

/// Playback analytics.
#[derive(Clone, Debug)]
pub struct AnalyticsConfig {
    pub enabled: bool,
    pub viewer_hash_key: String,
    pub visitor_cookie_name: String,
    pub visitor_cookie_path: String,
    pub playback_cookie_name: String,
    pub playback_session_cookie_name: String,
    pub playback_session_cookie_path: String,
    pub cookie_secure: bool,
    pub cookie_same_site: CookieSameSite,
    pub visitor_cookie_max_age_seconds: i64,
    pub heartbeat_interval_seconds: u64,
    pub maximum_heartbeat_delta_ms: i64,
    pub default_reporting_days: i64,
    pub maximum_reporting_days: i64,
    pub raw_event_retention_days: u64,
    pub playback_session_retention_days: u64,
    pub maintenance_interval_seconds: u64,
    pub record_byte_events: bool,
}

/// Cookie `SameSite` policies.
#[derive(Clone, Copy, Debug, PartialEq, Eq, Structural)]
pub enum CookieSameSite {
    Strict,
    Lax,
    /// `SameSite=None`: sent with cross-site requests too.
    Unrestricted,
}

impl CookieSameSite {
    pub open spec fn text(self) -> Seq<char> {
        match self {
            CookieSameSite::Strict => "Strict"@,
            CookieSameSite::Lax => "Lax"@,
            CookieSameSite::Unrestricted => "None"@,
        }
    }

    /// The attribute value in a `Set-Cookie` header.
    pub fn as_cookie_value(self) -> (s: &'static str)
        ensures
            s@ == self.text(),
    {
        match self {
            CookieSameSite::Strict => "Strict",
            CookieSameSite::Lax => "Lax",
            CookieSameSite::Unrestricted => "None",
        }
    }
}

/// The standalone player page.
#[derive(Clone, Debug)]
pub struct PlayerConfig {
    pub template_path: String,
    pub hls_javascript_url: Option<String>,
}

/// Logging.
#[derive(Clone, Debug)]
pub struct ObservabilityConfig {
    pub log_filter: String,
    pub json_logs: bool,
}

/// A configuration that was rejected: the setting at fault and why.
#[derive(Clone, Debug)]
pub struct ConfigError {
    /// The setting (or section) at fault, such as `server.public_base_url`.
    pub setting: String,
    /// A description for the operator.
    pub message: String,
}

/// A `ConfigError` for `setting` whose message is `setting` followed by `detail`.
pub fn config_error(setting: &str, detail: &str) -> (e: ConfigError)
    ensures
        e.setting@ == setting@,
{
    let mut message = setting.to_owned();
    crate::text::push_str(&mut message, detail);
    ConfigError { setting: setting.to_owned(), message }
}

} // verus!
