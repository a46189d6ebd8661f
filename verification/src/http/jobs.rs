//! The job listing endpoint: its filters.
use vstd::prelude::*;

use crate::domain::{JobKind, JobStatus};
use crate::error::AppError;

verus! {

/// The query of a job listing.
#[derive(Clone, Debug)]
pub struct ListJobsQuery {
    pub status: Option<String>,
    pub kind: Option<String>,
    pub page: Option<u32>,
    pub page_size: Option<u32>,
}

/// A status filter, when given, must name a job status.
pub fn validate_status(value: Option<&str>) -> (r: Result<(), AppError>)
    ensures
        r is Ok <==> (value is None || JobStatus::from_text(value.unwrap()@) is Some),
        r is Err ==> (r matches Err(AppError::BadRequest(m)) && m@ == "invalid job status filter"@),
{
    if let Some(status) = value {
        if JobStatus::parse(status).is_none() {
            return Err(AppError::BadRequest("invalid job status filter".to_owned()));
        }
    }
    Ok(())
}

/// A kind filter, when given, must name a job kind.
pub fn validate_kind(value: Option<&str>) -> (r: Result<(), AppError>)
    ensures
        r is Ok <==> (value is None || JobKind::from_text(value.unwrap()@) is Some),
        r is Err ==> (r matches Err(AppError::BadRequest(m)) && m@ == "invalid job kind filter"@),
{
    if let Some(kind) = value {
        if JobKind::parse(kind).is_none() {
            return Err(AppError::BadRequest("invalid job kind filter".to_owned()));
        }
    }
    Ok(())
}

} // verus!
