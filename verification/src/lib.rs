//! Verified core of a blockchain explorer backend: block ingestion into an
//! idempotent keyed store, and the contract-source verification scheduler.

use vstd::prelude::*;

pub mod hexstr;
pub mod ingest;
pub mod models;
pub mod store;
pub mod verification;

verus! {

/// Default page number for paginated queries.
pub fn default_page() -> (r: i64)
    ensures
        r == 1,
{
    1
}

/// Default page size for paginated queries.
pub fn default_limit() -> (r: i64)
    ensures
        r == 20,
{
    20
}

/// Offset into a result set for one-based page `page` with `limit` rows per page.
pub fn page_offset(page: i64, limit: i64) -> (r: i64)
    requires
        1 <= page,
        0 <= limit,
        (page - 1) * limit <= i64::MAX,
    ensures
        r == (page - 1) * limit,
{
    proof {
        assert((page - 1) * limit >= 0) by (nonlinear_arith)
            requires
                1 <= page,
                0 <= limit,
        ;
    }
    (page - 1) * limit
}

} // verus!
