//! Pagination: the total-page count and the first/previous/next/last link
//! strings of a list response.

use vstd::prelude::*;
use vstd::string::StringExecFns;
use crate::strutil::dec_str;

verus! {

/// The paging actually used for a response.
#[derive(Debug, Clone, PartialEq, Eq, Structural)]
pub struct PageContext {
    pub page: u32,
    pub per_page: u32,
    pub total_pages: u32,
}

/// Navigation links of a list response. `previous` and `next` are absent at
/// the first and last page respectively.
#[derive(Debug, Clone)]
pub struct PaginationLinks {
    pub first: String,
    pub previous: Option<String>,
    pub next: Option<String>,
    pub last: String,
}

/// A page of results together with the total row count, paging and links.
#[derive(Debug)]
pub struct PaginatedResponse<T> {
    pub count: u64,
    pub page_context: PageContext,
    pub links: PaginationLinks,
    pub results: Vec<T>,
}

/// The least number of pages of size `per` that hold `count` rows.
pub open spec fn ceil_div(count: nat, per: nat) -> int {
    (count + per - 1) / (per as int)
}

/// How many pages a count of rows makes: the ceiling of `count / per_page`,
/// held to `u32` by saturation.
pub open spec fn total_pages_of(count: u64, per_page: u32) -> u32 {
    if ceil_div(count as nat, per_page as nat) > u32::MAX {
        u32::MAX
    } else {
        ceil_div(count as nat, per_page as nat) as u32
    }
}

/// The total-page count is exactly the ceiling of `count / per_page`
/// wherever that ceiling is representable.
pub proof fn lemma_total_pages_is_ceil(count: u64, per_page: u32)
    requires
        per_page >= 1,
        ceil_div(count as nat, per_page as nat) <= u32::MAX,
    ensures
        total_pages_of(count, per_page) as int == ceil_div(count as nat, per_page as nat),
{
}

/// Computes the page count, exactly as `total_pages_of` describes.
pub fn total_pages(count: u64, per_page: u32) -> (r: u32)
    requires
        per_page >= 1,
    ensures
        r == total_pages_of(count, per_page),
        count == 0 ==> r == 0,
{
    if count == 0 {
        proof {
            vstd::arithmetic::div_mod::lemma_basic_div(per_page - 1, per_page as int);
        }
        0
    } else {
        let tp: u64 = (count - 1) / (per_page as u64) + 1;
        proof {
            let c = count as int;
            let p = per_page as int;
            vstd::arithmetic::div_mod::lemma_fundamental_div_mod(c - 1, p);
            let q = (c - 1) / p;
            let m = (c - 1) % p;
            vstd::arithmetic::div_mod::lemma_mod_bound(c - 1, p);
            assert((q + 1) * p == q * p + p) by (nonlinear_arith);
            vstd::arithmetic::div_mod::lemma_fundamental_div_mod_converse(
                c + p - 1,
                p,
                q + 1,
                m,
            );
            vstd::arithmetic::div_mod::lemma_div_is_ordered(0, c - 1, p);
        }
        if tp > u32::MAX as u64 {
            u32::MAX
        } else {
            tp as u32
        }
    }
}

/// The link to one page: `base?page=N&perPage=M`.
pub open spec fn link_str(base: Seq<char>, page: nat, per_page: nat) -> Seq<char> {
    base + "?page="@ + dec_str(page) + "&perPage="@ + dec_str(per_page)
}

fn make_link(base: &str, page: u32, per_page: u32) -> (r: String)
    ensures
        r@ == link_str(base@, page as nat, per_page as nat),
{
    let r = String::from_str(base)
        .concat("?page=")
        .concat(crate::strutil::u64_to_string(page as u64).as_str())
        .concat("&perPage=")
        .concat(crate::strutil::u64_to_string(per_page as u64).as_str());
    proof {
        assert(r@ =~= link_str(base@, page as nat, per_page as nat));
    }
    r
}

/// Builds the four navigation links of a page: `previous` exactly where a
/// page lies before this one, `next` exactly where one lies after it.
pub fn make_pagination_links(page: u32, total_pages: u32, per_page: u32, base_url: &str) -> (r:
    PaginationLinks)
    ensures
        r.first@ == link_str(base_url@, 1, per_page as nat),
        r.last@ == link_str(base_url@, total_pages as nat, per_page as nat),
        r.previous is Some <==> page > 1,
        r.previous matches Some(p) ==> p@ == link_str(
            base_url@,
            (page - 1) as nat,
            per_page as nat,
        ),
        r.next is Some <==> page < total_pages,
        r.next matches Some(n) ==> n@ == link_str(base_url@, (page + 1) as nat, per_page as nat),
{
    let first = make_link(base_url, 1, per_page);
    let last = make_link(base_url, total_pages, per_page);
    let previous = if page > 1 {
        Some(make_link(base_url, page - 1, per_page))
    } else {
        None
    };
    let next = if page < total_pages {
        Some(make_link(base_url, page + 1, per_page))
    } else {
        None
    };
    PaginationLinks { first, previous, next, last }
}

/// Wraps a fetched page into the response envelope: the total, the paging
/// actually used, the navigation links, and the rows in fetched order.
pub fn paginate_results<T>(
    count: u64,
    page: u32,
    per_page: u32,
    base_url: &str,
    results: Vec<T>,
) -> (r: PaginatedResponse<T>)
    requires
        per_page >= 1,
    ensures
        r.count == count,
        r.page_context.page == page,
        r.page_context.per_page == per_page,
        r.page_context.total_pages == total_pages_of(count, per_page),
        r.results == results,
        r.links.first@ == link_str(base_url@, 1, per_page as nat),
        r.links.last@ == link_str(base_url@, total_pages_of(count, per_page) as nat, per_page as nat),
        r.links.previous is Some <==> page > 1,
        r.links.previous matches Some(p) ==> p@ == link_str(
            base_url@,
            (page - 1) as nat,
            per_page as nat,
        ),
        r.links.next is Some <==> page < total_pages_of(count, per_page),
        r.links.next matches Some(n) ==> n@ == link_str(
            base_url@,
            (page + 1) as nat,
            per_page as nat,
        ),
{
    let tp = total_pages(count, per_page);
    let links = make_pagination_links(page, tp, per_page, base_url);
    PaginatedResponse {
        count,
        page_context: PageContext { page, per_page, total_pages: tp },
        links,
        results,
    }
}

/// At any page within range, the `previous` link is absent exactly at the
/// first page and the `next` link exactly at the last.
pub proof fn lemma_edge_links(page: u32, total_pages: u32, per_page: u32, links: PaginationLinks)
    requires
        1 <= page <= total_pages,
        links.previous is Some <==> page > 1,
        links.next is Some <==> page < total_pages,
    ensures
        links.previous is None <==> page == 1,
        links.next is None <==> page == total_pages,
{
}

} // verus!
