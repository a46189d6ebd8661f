//! The dashboard: counts by status and recent analytics.
use vstd::prelude::*;

use crate::domain::{Account, AnalyticsTotals};

verus! {

/// How many items have a status.
#[derive(Clone, Debug)]
pub struct StatusCount {
    pub status: String,
    pub count: i64,
}

/// The dashboard of an account.
#[derive(Clone, Debug)]
pub struct Dashboard {
    pub account: Account,
    pub media_total: i64,
    pub media_by_status: Vec<StatusCount>,
    pub jobs_total: i64,
    pub jobs_by_status: Vec<StatusCount>,
    pub analytics_from: String,
    pub analytics_to: String,
    pub analytics: AnalyticsTotals,
}

/// The sum of the counts of the first `n` statuses.
pub open spec fn count_sum(counts: Seq<StatusCount>, n: int) -> int
    decreases n,
{
    if n <= 0 {
        0
    } else {
        count_sum(counts, n - 1) + counts[n - 1].count
    }
}

/// Whether every partial sum of the counts fits an `i64`.
pub open spec fn sums_fit(counts: Seq<StatusCount>) -> bool {
    forall|n: int| 0 <= n <= counts.len() ==> i64::MIN <= #[trigger] count_sum(counts, n) <= i64::MAX
}

/// The total over all statuses.
pub fn status_total(counts: &Vec<StatusCount>) -> (r: i64)
    requires
        sums_fit(counts@),
    ensures
        r == count_sum(counts@, counts@.len() as int),
{
    let mut total: i64 = 0;
    let mut i: usize = 0;
    while i < counts.len()
        invariant
            i <= counts@.len(),
            sums_fit(counts@),
            total == count_sum(counts@, i as int),
        decreases counts@.len() - i,
    {
        assert(i64::MIN <= count_sum(counts@, i + 1) <= i64::MAX);
        total = total + counts[i].count;
        i = i + 1;
    }
    total
}

/// The first day (as a day number) of the dashboard's analytics period,
/// which ends on `today` and spans `reporting_days` days.
pub fn dashboard_period_start(today: i64, reporting_days: i64) -> (r: i64)
    requires
        i64::MIN <= today - (reporting_days - 1) <= i64::MAX,
        reporting_days > i64::MIN,
    ensures
        r == today - (reporting_days - 1),
{
    today - (reporting_days - 1)
}

} // verus!
