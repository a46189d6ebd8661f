//! The use cases of the service: accounts, sessions, media, uploads, jobs,
//! analytics and the dashboard, as the decisions taken around the database.
pub mod accounts;
pub mod analytics;
pub mod dashboard;
pub mod jobs;
pub mod media;
pub mod page;
pub mod sessions;
pub mod uploads;
