use base_api::pagination::{make_pagination_links, paginate_results, total_pages};
use base_api::params::QueryParams;

#[test]
fn page_size_is_clamped() {
    let mut params = QueryParams::new();
    params.per_page = Some(1000);
    assert_eq!(params.effective_per_page(), 100);
    params.per_page = Some(0);
    assert_eq!(params.effective_per_page(), 1);
    params.per_page = Some(37);
    assert_eq!(params.effective_per_page(), 37);
    params.per_page = None;
    assert_eq!(params.effective_per_page(), 10);
}

#[test]
fn page_defaults_and_offset() {
    let mut params = QueryParams::new();
    assert_eq!(params.effective_page(), 1);
    assert_eq!(params.offset(), 0);
    params.page = Some(0);
    assert_eq!(params.effective_page(), 1);
    params.page = Some(3);
    params.per_page = Some(20);
    assert_eq!(params.offset(), 40);
}

#[test]
fn total_pages_is_the_ceiling() {
    assert_eq!(total_pages(12, 5), 3);
    assert_eq!(total_pages(10, 5), 2);
    assert_eq!(total_pages(11, 5), 3);
    assert_eq!(total_pages(1, 100), 1);
    assert_eq!(total_pages(0, 7), 0);
}

#[test]
fn edge_links_follow_the_page() {
    let first_page = make_pagination_links(1, 5, 10, "/api/v1/users");
    assert!(first_page.previous.is_none());
    assert_eq!(
        first_page.next.as_deref(),
        Some("/api/v1/users?page=2&perPage=10")
    );

    let last_page = make_pagination_links(5, 5, 10, "/api/v1/users");
    assert!(last_page.next.is_none());
    assert_eq!(
        last_page.previous.as_deref(),
        Some("/api/v1/users?page=4&perPage=10")
    );

    let middle = make_pagination_links(3, 5, 10, "/api/v1/users");
    assert!(middle.previous.is_some() && middle.next.is_some());
}

#[test]
fn twelve_rows_in_pages_of_five_page_two() {
    let page = paginate_results(12, 2, 5, "/api/v1/items", vec!["a", "b", "c", "d", "e"]);
    assert_eq!(page.page_context.total_pages, 3);
    assert_eq!(page.links.previous.as_deref(), Some("/api/v1/items?page=1&perPage=5"));
    assert_eq!(page.links.next.as_deref(), Some("/api/v1/items?page=3&perPage=5"));
    assert_eq!(page.links.first, "/api/v1/items?page=1&perPage=5");
    assert_eq!(page.links.last, "/api/v1/items?page=3&perPage=5");
    assert_eq!(page.count, 12);
}

#[test]
fn empty_result_set_has_no_neighbours() {
    let page = paginate_results::<i64>(0, 1, 10, "/api/v1/items", Vec::new());
    assert!(page.results.is_empty());
    assert!(page.links.previous.is_none());
    assert!(page.links.next.is_none());
    assert_eq!(page.page_context.total_pages, 0);
    assert_eq!(page.links.first, "/api/v1/items?page=1&perPage=10");
    // The last link points at page 0: with no rows there is no page to name.
    assert_eq!(page.links.last, "/api/v1/items?page=0&perPage=10");
}
