//! A page of a listing.
use vstd::prelude::*;

verus! {

/// A page of items with its position and the total number of items.
#[derive(Clone, Debug)]
pub struct Page<T> {
    pub items: Vec<T>,
    pub page: u32,
    pub page_size: u32,
    pub total: i64,
}

impl<T> Page<T> {
    pub fn new(items: Vec<T>, page: u32, page_size: u32, total: i64) -> (r: Self)
        ensures
            r.items == items,
            r.page == page,
            r.page_size == page_size,
            r.total == total,
    {
        Page { items, page, page_size, total }
    }
}

} // verus!
