//! Parsed request intent: paging, search, filter, includes and sort, as the
//! boundary hands them to the statement builders.

use vstd::prelude::*;

verus! {

/// The default page where a request names none.
pub const DEFAULT_PAGE: u32 = 1;

/// The default page size where a request names none.
pub const DEFAULT_PER_PAGE: u32 = 10;

/// The largest page size a request can obtain.
pub const MAX_PER_PAGE: u32 = 100;

/// What a list request asked for, every field optional and untrusted.
#[derive(Debug, Clone)]
pub struct QueryParams {
    pub page: Option<u32>,
    pub per_page: Option<u32>,
    /// Free-text search term.
    pub search: Option<String>,
    /// A flat JSON object of field name to scalar, as text.
    pub filter: Option<String>,
    /// Comma list of relation names to join in.
    pub includes: Option<String>,
    /// Accepted from the boundary but not interpreted.
    pub exclude: Option<String>,
    pub sort_by: Option<String>,
    pub sort_order: Option<String>,
    /// Comma list of field names that `search_value` should look in.
    pub search_fields: Option<String>,
    /// Search term that takes priority over `search`.
    pub search_value: Option<String>,
}

/// The page actually used: the requested one, raised to 1 where the request
/// gave 0 or nothing.
pub open spec fn effective_page_spec(p: QueryParams) -> u32 {
    match p.page {
        Some(n) => if n >= 1 {
            n
        } else {
            1u32
        },
        None => DEFAULT_PAGE,
    }
}

/// The page size actually used: the requested one clamped into
/// [1, `MAX_PER_PAGE`], or the default where the request gave nothing.
pub open spec fn effective_per_page_spec(p: QueryParams) -> u32 {
    match p.per_page {
        Some(n) => if n > MAX_PER_PAGE {
            MAX_PER_PAGE
        } else if n < 1 {
            1u32
        } else {
            n
        },
        None => DEFAULT_PER_PAGE,
    }
}

impl QueryParams {
    /// A request that asks for nothing in particular: first page, ten rows,
    /// newest first.
    pub fn new() -> (r: QueryParams)
        ensures
            r.page == Some(1u32),
            r.per_page == Some(10u32),
            r.search is None,
            r.filter is None,
            r.includes is None,
            r.exclude is None,
            r.sort_by matches Some(s) && s@ == "created_at"@,
            r.sort_order matches Some(s) && s@ == "desc"@,
            r.search_fields is None,
            r.search_value is None,
    {
        QueryParams {
            page: Some(1),
            per_page: Some(10),
            search: None,
            filter: None,
            includes: None,
            exclude: None,
            sort_by: Some("created_at".to_owned()),
            sort_order: Some("desc".to_owned()),
            search_fields: None,
            search_value: None,
        }
    }

    /// The page used for this request.
    pub fn effective_page(&self) -> (r: u32)
        ensures
            r == effective_page_spec(*self),
            r >= 1,
    {
        match self.page {
            Some(n) => if n >= 1 {
                n
            } else {
                1
            },
            None => DEFAULT_PAGE,
        }
    }

    /// The page size used for this request, always in [1, `MAX_PER_PAGE`].
    pub fn effective_per_page(&self) -> (r: u32)
        ensures
            r == effective_per_page_spec(*self),
            1 <= r <= MAX_PER_PAGE,
    {
        match self.per_page {
            Some(n) => if n > MAX_PER_PAGE {
                MAX_PER_PAGE
            } else if n < 1 {
                1
            } else {
                n
            },
            None => DEFAULT_PER_PAGE,
        }
    }

    /// How many rows the pages before this one hold.
    pub fn offset(&self) -> (r: u64)
        ensures
            r == (effective_page_spec(*self) - 1) * effective_per_page_spec(*self),
    {
        let page = self.effective_page();
        let per_page = self.effective_per_page();
        proof {
            vstd::arithmetic::mul::lemma_mul_upper_bound(
                page - 1,
                u32::MAX as int,
                per_page as int,
                100,
            );
        }
        (page as u64 - 1) * (per_page as u64)
    }
}

impl Default for QueryParams {
    /// The same request as `QueryParams::new`.
    fn default() -> (r: QueryParams)
        ensures
            r.page == Some(1u32),
            r.per_page == Some(10u32),
            r.search is None,
            r.filter is None,
            r.includes is None,
            r.exclude is None,
            r.sort_by matches Some(s) && s@ == "created_at"@,
            r.sort_order matches Some(s) && s@ == "desc"@,
            r.search_fields is None,
            r.search_value is None,
    {
        QueryParams::new()
    }
}

} // verus!
