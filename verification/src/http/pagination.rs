//! Page and page size of list requests.
use vstd::prelude::*;

use crate::config::ApiConfig;

verus! {

/// A normalized page request.
#[derive(Clone, Copy, Debug)]
pub struct Pagination {
    pub page: u32,
    pub page_size: u32,
}

impl Pagination {
    /// The page (at least 1, default 1) and page size (the configured default
    /// when absent, clamped to `1..=maximum_page_size`).
    pub fn from_query(page: Option<u32>, page_size: Option<u32>, config: &ApiConfig) -> (r: Pagination)
        requires
            config.maximum_page_size >= 1,
        ensures
            r.page == match page {
                Some(p) => if p >= 1 { p } else { 1 },
                None => 1,
            },
            r.page_size == ({
                let requested = match page_size {
                    Some(s) => s,
                    None => config.default_page_size,
                };
                if requested < 1 {
                    1
                } else if requested > config.maximum_page_size {
                    config.maximum_page_size
                } else {
                    requested
                }
            }),
    {
        let requested_page = match page {
            Some(p) => p,
            None => 1,
        };
        let requested_size = match page_size {
            Some(s) => s,
            None => config.default_page_size,
        };
        let size = if requested_size < 1 {
            1
        } else if requested_size > config.maximum_page_size {
            config.maximum_page_size
        } else {
            requested_size
        };
        Pagination { page: if requested_page >= 1 { requested_page } else { 1 }, page_size: size }
    }

    /// The number of items before this page: `(page - 1) * page_size`, with
    /// page 0 treated as page 1. The product must fit in an `i64`.
    pub fn offset(self) -> (r: i64)
        requires
            (if self.page >= 1 { self.page - 1 } else { 0 }) * self.page_size <= i64::MAX,
        ensures
            r == (if self.page >= 1 { self.page - 1 } else { 0 }) * self.page_size,
    {
        let before: u32 = if self.page >= 1 { self.page - 1 } else { 0 };
        assert(0 <= before as int * self.page_size as int) by (nonlinear_arith)
            requires
                0 <= before,
                0 <= self.page_size,
        ;
        (before as i64) * (self.page_size as i64)
    }
}

} // verus!
