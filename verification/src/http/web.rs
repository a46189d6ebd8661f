//! The browser interface: the root redirect, its pages, and the routes it
//! is told about.
use vstd::prelude::*;

use crate::config::{Config, RoutesConfig, WebConfig};
use crate::cookie::{header_value, is_header_value};
use crate::encoding::{json_string, json_string_literal};
use crate::error::AppError;
use crate::http::playback::html_escaped;
use crate::text::{push_str, replace_all, replace_text};

verus! {

/// Where `/` leads: the browser interface when it is enabled, the API
/// description otherwise.
pub fn root_destination(config: &Config) -> (r: &String)
    ensures
        config.web.enabled ==> r@ == config.routes.web@,
        !config.web.enabled ==> r@ == config.routes.openapi@,
{
    if config.web.enabled {
        &config.routes.web
    } else {
        &config.routes.openapi
    }
}

/// The `Location` of a redirect, which must be a valid header value.
pub fn redirect(location: &str) -> (r: Result<String, AppError>)
    ensures
        is_header_value(location@) ==> (r matches Ok(l) && l@ == location@),
        !is_header_value(location@) ==> (r matches Err(AppError::Internal(m)) && m@ == "failed to parse header value"@),
{
    match header_value(location) {
        Ok(()) => Ok(location.to_owned()),
        Err(e) => Err(e),
    }
}

/// Escapes text for HTML.
pub fn html_escape(value: &str) -> (r: String)
    ensures
        r@ == html_escaped(value@),
{
    crate::http::playback::html_escape(value)
}

/// `s` with every `<` written as the JSON escape `\u003c`.
pub open spec fn script_safe(s: Seq<char>) -> Seq<char> {
    replace_all(s, "<"@, "\\u003c"@)
}

/// The runtime settings written into a page hold no `<`, so they cannot
/// close the script element they stand in.
pub proof fn lemma_script_safe_has_no_tag_open(s: Seq<char>)
    ensures
        forall|i: int| 0 <= i < script_safe(s).len() ==> #[trigger] script_safe(s)[i] != '<',
    decreases s.len(),
{
    reveal_strlit("<");
    reveal_strlit("\\u003c");
    let rep = "\\u003c"@;
    if s.len() > 0 {
        if crate::text::starts_with(s, "<"@) {
            lemma_script_safe_has_no_tag_open(s.skip(1));
            let rest = script_safe(s.skip(1));
            assert forall|i: int| 0 <= i < (rep + rest).len() implies #[trigger] (rep + rest)[i] != '<' by {
                if i >= rep.len() {
                    assert((rep + rest)[i] == rest[i - rep.len()]);
                }
            }
        } else {
            assert("<"@ =~= seq!['<']);
            if s[0] == '<' {
                assert(s.take(1) =~= "<"@);
            }
            lemma_script_safe_has_no_tag_open(s.drop_first());
            let rest = script_safe(s.drop_first());
            assert forall|i: int| 0 <= i < (seq![s[0]] + rest).len() implies #[trigger] (seq![s[0]] + rest)[i] != '<' by {
                if i >= 1 {
                    assert((seq![s[0]] + rest)[i] == rest[i - 1]);
                }
            }
        }
    }
}

/// A page of the browser interface: the template with its markers replaced,
/// in order, by the escaped page title, the JSON string of the page
/// identifier, the escaped site name, tagline and asset base, and the
/// runtime settings document with `<` escaped.
pub open spec fn web_page(
    template: Seq<char>,
    title: Seq<char>,
    page_id: Seq<char>,
    web: WebConfig,
    routes: RoutesConfig,
    runtime_json: Seq<char>,
) -> Seq<char> {
    let s1 = replace_all(template, "{{PAGE_TITLE}}"@, html_escaped(title));
    let s2 = replace_all(s1, "{{PAGE_ID_JSON}}"@, json_string(page_id));
    let s3 = replace_all(s2, "{{SITE_NAME}}"@, html_escaped(web.site_name@));
    let s4 = replace_all(s3, "{{TAGLINE}}"@, html_escaped(web.tagline@));
    let s5 = replace_all(s4, "{{ASSET_BASE}}"@, html_escaped(routes.web@ + web.assets_route@));
    replace_all(s5, "{{RUNTIME_CONFIG_JSON}}"@, script_safe(runtime_json))
}

/// Renders a page of the browser interface, given its template and the
/// JSON document of the runtime settings. Pages are not found when the
/// interface is disabled; the configured `Cache-Control` must be a valid
/// header value.
pub fn render(
    template: &str,
    config: &Config,
    title: &str,
    page_id: &str,
    runtime_json: &str,
) -> (r: Result<String, AppError>)
    ensures
        !config.web.enabled ==> (r matches Err(AppError::NotFound(m)) && m@ == "web interface is disabled"@),
        config.web.enabled && is_header_value(config.web.cache_control@) ==> (r matches Ok(html) && html@
            == web_page(template@, title@, page_id@, config.web, config.routes, runtime_json@)),
        config.web.enabled && !is_header_value(config.web.cache_control@) ==> (r matches Err(
            AppError::Internal(m),
        ) && m@ == "failed to parse header value"@),
{
    proof {
        reveal_strlit("{{PAGE_TITLE}}");
        reveal_strlit("{{PAGE_ID_JSON}}");
        reveal_strlit("{{SITE_NAME}}");
        reveal_strlit("{{TAGLINE}}");
        reveal_strlit("{{ASSET_BASE}}");
        reveal_strlit("{{RUNTIME_CONFIG_JSON}}");
        reveal_strlit("<");
    }
    if !config.web.enabled {
        return Err(AppError::NotFound("web interface is disabled".to_owned()));
    }
    let mut asset_base = config.routes.web.as_str().to_owned();
    push_str(&mut asset_base, config.web.assets_route.as_str());
    let runtime = replace_text(runtime_json, "<", "\\u003c");
    let s1 = replace_text(template, "{{PAGE_TITLE}}", html_escape(title).as_str());
    let s2 = replace_text(s1.as_str(), "{{PAGE_ID_JSON}}", json_string_literal(page_id).as_str());
    let s3 = replace_text(s2.as_str(), "{{SITE_NAME}}", html_escape(config.web.site_name.as_str()).as_str());
    let s4 = replace_text(s3.as_str(), "{{TAGLINE}}", html_escape(config.web.tagline.as_str()).as_str());
    let s5 = replace_text(s4.as_str(), "{{ASSET_BASE}}", html_escape(asset_base.as_str()).as_str());
    let html = replace_text(s5.as_str(), "{{RUNTIME_CONFIG_JSON}}", runtime.as_str());
    match header_value(config.web.cache_control.as_str()) {
        Ok(()) => Ok(html),
        Err(e) => Err(e),
    }
}

/// The routes the browser interface is told about.
#[derive(Clone, Debug)]
pub struct RuntimeRoutes {
    pub dashboard: String,
    pub register: String,
    pub login: String,
    pub upload: String,
    pub media: String,
    pub jobs: String,
    pub analytics: String,
    pub account: String,
    pub api_accounts: String,
    pub api_login: String,
    pub api_session: String,
    pub api_logout: String,
    pub api_account: String,
    pub api_keys: String,
    pub api_media: String,
    pub api_media_imports: String,
    pub api_media_item_template: String,
    pub api_media_jobs_template: String,
    pub api_media_retry_template: String,
    pub api_media_playback_token_template: String,
    pub api_jobs: String,
    pub api_dashboard: String,
    pub api_analytics_summary: String,
    pub api_analytics_time_series: String,
}

fn suffixed(base: &str, suffix: &str) -> (r: String)
    ensures
        r@ == base@ + suffix@,
{
    let mut s = base.to_owned();
    push_str(&mut s, suffix);
    s
}

/// The pages of the browser interface below its route, and the API
/// endpoints below the API route (`{media_id}` marks where a media
/// identifier goes).
pub fn runtime_routes(routes: &RoutesConfig) -> (r: RuntimeRoutes)
    ensures
        r.dashboard@ == routes.web@,
        r.register@ == routes.web@ + "/register"@,
        r.login@ == routes.web@ + "/login"@,
        r.upload@ == routes.web@ + "/upload"@,
        r.media@ == routes.web@ + "/media"@,
        r.jobs@ == routes.web@ + "/jobs"@,
        r.analytics@ == routes.web@ + "/analytics"@,
        r.account@ == routes.web@ + "/account"@,
        r.api_accounts@ == routes.api@ + "/accounts"@,
        r.api_login@ == routes.api@ + "/auth/login"@,
        r.api_session@ == routes.api@ + "/auth/session"@,
        r.api_logout@ == routes.api@ + "/auth/logout"@,
        r.api_account@ == routes.api@ + "/account"@,
        r.api_keys@ == routes.api@ + "/account/api-keys"@,
        r.api_media@ == routes.api@ + "/media"@,
        r.api_media_imports@ == routes.api@ + "/media/imports"@,
        r.api_media_item_template@ == routes.api@ + "/media/{media_id}"@,
        r.api_media_jobs_template@ == routes.api@ + "/media/{media_id}/jobs"@,
        r.api_media_retry_template@ == routes.api@ + "/media/{media_id}/retry"@,
        r.api_media_playback_token_template@ == routes.api@ + "/media/{media_id}/playback-tokens"@,
        r.api_jobs@ == routes.api@ + "/jobs"@,
        r.api_dashboard@ == routes.api@ + "/dashboard"@,
        r.api_analytics_summary@ == routes.api@ + "/analytics/summary"@,
        r.api_analytics_time_series@ == routes.api@ + "/analytics/time-series"@,
{
    let web = routes.web.as_str();
    let api = routes.api.as_str();
    RuntimeRoutes {
        dashboard: web.to_owned(),
        register: suffixed(web, "/register"),
        login: suffixed(web, "/login"),
        upload: suffixed(web, "/upload"),
        media: suffixed(web, "/media"),
        jobs: suffixed(web, "/jobs"),
        analytics: suffixed(web, "/analytics"),
        account: suffixed(web, "/account"),
        api_accounts: suffixed(api, "/accounts"),
        api_login: suffixed(api, "/auth/login"),
        api_session: suffixed(api, "/auth/session"),
        api_logout: suffixed(api, "/auth/logout"),
        api_account: suffixed(api, "/account"),
        api_keys: suffixed(api, "/account/api-keys"),
        api_media: suffixed(api, "/media"),
        api_media_imports: suffixed(api, "/media/imports"),
        api_media_item_template: suffixed(api, "/media/{media_id}"),
        api_media_jobs_template: suffixed(api, "/media/{media_id}/jobs"),
        api_media_retry_template: suffixed(api, "/media/{media_id}/retry"),
        api_media_playback_token_template: suffixed(api, "/media/{media_id}/playback-tokens"),
        api_jobs: suffixed(api, "/jobs"),
        api_dashboard: suffixed(api, "/dashboard"),
        api_analytics_summary: suffixed(api, "/analytics/summary"),
        api_analytics_time_series: suffixed(api, "/analytics/time-series"),
    }
}

} // verus!
