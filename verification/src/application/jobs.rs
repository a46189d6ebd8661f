//! The job listing of an account.
use vstd::prelude::*;

verus! {

/// The filter of a job listing.
#[derive(Clone, Debug)]
pub struct JobFilter {
    pub status: Option<String>,
    pub kind: Option<String>,
    pub page: u32,
    pub page_size: u32,
    pub offset: i64,
}

/// A job as listed, with the title of its media.
#[derive(Clone, Debug)]
pub struct JobListItem {
    pub id: String,
    pub media_id: String,
    pub media_title: String,
    pub kind: String,
    pub status: String,
    pub attempts: i64,
    pub maximum_attempts: i64,
    pub run_after: String,
    pub error_message: Option<String>,
    pub created_at: String,
    pub updated_at: String,
}

} // verus!
