//! Request handling that does not touch the network: pagination, playback
//! decisions, filters and pages of the browser interface.
pub mod health;
pub mod jobs;
pub mod media;
pub mod pagination;
pub mod playback;
pub mod router;
pub mod sessions;
pub mod web;
