//! Paging of the gallery.

use vstd::prelude::*;

verus! {

/// Page size when none is asked for.
pub const DEFAULT_PAGE: i64 = 20;

/// Largest page served.
pub const MAX_PAGE: i64 = 100;

/// The paging a gallery request asks for.
#[derive(Debug, Clone, Copy, PartialEq, Eq)]
pub struct PaginationParams {
    pub limit: Option<i64>,
    pub offset: Option<i64>,
}

/// The page actually served: the asked size (20 by default) capped at 100,
/// and the asked offset (0 by default).
pub open spec fn page_of(params: PaginationParams) -> (i64, i64) {
    let asked = match params.limit {
        Some(l) => l,
        None => DEFAULT_PAGE,
    };
    let limit = if asked < MAX_PAGE {
        asked
    } else {
        MAX_PAGE
    };
    let offset = match params.offset {
        Some(o) => o,
        None => 0,
    };
    (limit, offset)
}

/// The page served: the offset is the one asked for (0 when none is
/// given), whatever limit is asked; the size is the one asked for (20 when
/// none is given) when it is below 100, and 100 otherwise.
pub proof fn lemma_page(params: PaginationParams, other_limit: Option<i64>)
    ensures
        params.offset matches Some(o) ==> page_of(params).1 == o,
        params.offset is None ==> page_of(params).1 == 0,
        page_of(params).1 == page_of(PaginationParams { limit: other_limit, offset: params.offset }).1,
        params.limit is None ==> page_of(params).0 == 20,
        params.limit matches Some(l) ==> (l < 100 ==> page_of(params).0 == l) && (l >= 100
            ==> page_of(params).0 == 100),
{
}

/// The limit and offset of the gallery query; the limit is never above 100.
pub fn gallery_window(params: &PaginationParams) -> (page: (i64, i64))
    ensures
        page == page_of(*params),
        page.0 <= MAX_PAGE,
{
    let asked = match params.limit {
        Some(l) => l,
        None => DEFAULT_PAGE,
    };
    let limit = if asked < MAX_PAGE {
        asked
    } else {
        MAX_PAGE
    };
    let offset = match params.offset {
        Some(o) => o,
        None => 0,
    };
    (limit, offset)
}

} // verus!
