//! The media endpoints: listing filters and playback links.
use vstd::prelude::*;

use crate::config::{RoutesConfig, ServerConfig};
use crate::domain::{MediaStatus, Visibility};
use crate::error::AppError;
use crate::text::push_str;

verus! {

/// The query of a media listing.
#[derive(Clone, Debug)]
pub struct ListMediaQuery {
    pub status: Option<String>,
    pub visibility: Option<String>,
    pub search: Option<String>,
    pub page: Option<u32>,
    pub page_size: Option<u32>,
}

/// A playback token with the link that redeems it.
#[derive(Clone, Debug)]
pub struct PlaybackTokenResponse {
    pub token: String,
    pub expires_in_seconds: i64,
    pub watch_url: String,
}

/// A status filter, when given, must name a media status.
pub fn validate_status(value: Option<&str>) -> (r: Result<(), AppError>)
    ensures
        r is Ok <==> (value is None || MediaStatus::from_text(value.unwrap()@) is Some),
        r is Err ==> (r matches Err(AppError::BadRequest(m)) && m@ == "invalid media status filter"@),
{
    if let Some(status) = value {
        if MediaStatus::parse(status).is_none() {
            return Err(AppError::BadRequest("invalid media status filter".to_owned()));
        }
    }
    Ok(())
}

/// A visibility filter, when given, must name a visibility.
pub fn validate_visibility(value: Option<&str>) -> (r: Result<(), AppError>)
    ensures
        r is Ok <==> (value is None || Visibility::from_text(value.unwrap()@) is Some),
        r is Err ==> (r matches Err(AppError::BadRequest(m)) && m@ == "invalid visibility filter"@),
{
    if let Some(visibility) = value {
        if Visibility::parse(visibility).is_none() {
            return Err(AppError::BadRequest("invalid visibility filter".to_owned()));
        }
    }
    Ok(())
}

/// The public link that redeems a playback token:
/// `<public base URL><watch route>/<media id>?token=<token>`.
pub fn watch_url(server: &ServerConfig, routes: &RoutesConfig, media_id: &str, token: &str) -> (r: String)
    ensures
        r@ == server.public_base_url@ + routes.watch@ + "/"@ + media_id@ + "?token="@ + token@,
{
    let mut s = server.public_base_url.as_str().to_owned();
    push_str(&mut s, routes.watch.as_str());
    push_str(&mut s, "/");
    push_str(&mut s, media_id);
    push_str(&mut s, "?token=");
    push_str(&mut s, token);
    s
}

} // verus!
