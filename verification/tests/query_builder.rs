use base_api::builder::QueryBuilder;
use base_api::params::QueryParams;
use base_api::values::ArgValue;

fn users() -> QueryBuilder {
    QueryBuilder::new("users")
        .select(vec!["id", "username"])
        .searchable(vec!["username", "email"])
        .filterable(vec!["is_active", "city"])
        .sortable(vec!["username", "created_at"])
}

#[test]
fn plain_request_builds_the_default_statement() {
    let (sql, args, page, per_page) = users().build_query(&QueryParams::new());
    assert_eq!(
        sql,
        "SELECT id, username FROM users ORDER BY created_at DESC LIMIT $1 OFFSET $2"
    );
    assert_eq!(args, vec![ArgValue::Integer(10), ArgValue::Integer(0)]);
    assert_eq!(page, 1);
    assert_eq!(per_page, 10);
}

#[test]
fn search_binds_one_pattern_per_column() {
    let mut params = QueryParams::new();
    params.search = Some("bob".to_string());
    let (sql, args, _, _) = users().build_query(&params);
    assert_eq!(
        sql,
        "SELECT id, username FROM users WHERE \
         ((username IS NOT NULL AND username ILIKE $1) OR \
         (email IS NOT NULL AND email ILIKE $2)) \
         ORDER BY created_at DESC LIMIT $3 OFFSET $4"
    );
    assert_eq!(
        args,
        vec![
            ArgValue::Text("%bob%".to_string()),
            ArgValue::Text("%bob%".to_string()),
            ArgValue::Integer(10),
            ArgValue::Integer(0),
        ]
    );
}

#[test]
fn search_value_outranks_search_and_empty_terms_are_skipped() {
    let mut params = QueryParams::new();
    params.search = Some("ignored".to_string());
    params.search_value = Some("kept".to_string());
    let (sql, args, _, _) = users().build_query(&params);
    assert!(sql.contains("ILIKE"));
    assert_eq!(args[0], ArgValue::Text("%kept%".to_string()));

    let mut empty = QueryParams::new();
    empty.search = Some(String::new());
    let (sql, _, _, _) = users().build_query(&empty);
    assert!(!sql.contains("WHERE"));
}

#[test]
fn mixed_search_fields_use_only_the_valid_subset() {
    let mut mixed = QueryParams::new();
    mixed.search_value = Some("x".to_string());
    mixed.search_fields = Some("username, password_hash ,email".to_string());
    let mut valid_only = QueryParams::new();
    valid_only.search_value = Some("x".to_string());
    valid_only.search_fields = Some("username,email".to_string());
    assert_eq!(
        users().build_query(&mixed).0,
        users().build_query(&valid_only).0
    );
    assert_eq!(
        users().build_query(&mixed).1,
        users().build_query(&valid_only).1
    );

    // A list with no valid name at all adds no predicate and no error.
    let mut none_valid = QueryParams::new();
    none_valid.search_value = Some("x".to_string());
    none_valid.search_fields = Some("password_hash,secret".to_string());
    let (sql, _, _, _) = users().build_query(&none_valid);
    assert!(!sql.contains("WHERE"));
}

#[test]
fn unlisted_filter_fields_are_dropped_not_errors() {
    let mut with_unlisted = QueryParams::new();
    with_unlisted.filter = Some(r#"{"role":"admin","is_active":true}"#.to_string());
    let mut listed_only = QueryParams::new();
    listed_only.filter = Some(r#"{"is_active":true}"#.to_string());
    assert_eq!(
        users().build_query(&with_unlisted).0,
        users().build_query(&listed_only).0
    );
    assert_eq!(
        users().build_query(&with_unlisted).1,
        users().build_query(&listed_only).1
    );
}

#[test]
fn filter_values_bind_by_kind_in_key_order() {
    let mut params = QueryParams::new();
    params.filter = Some(r#"{"is_active":true,"city":"Oslo"}"#.to_string());
    let (sql, args, _, _) = users().build_query(&params);
    // Parsed entries come in the JSON map's key-sorted order.
    assert_eq!(
        sql,
        "SELECT id, username FROM users WHERE city = $1 AND is_active = $2 \
         ORDER BY created_at DESC LIMIT $3 OFFSET $4"
    );
    assert_eq!(
        args,
        vec![
            ArgValue::Text("Oslo".to_string()),
            ArgValue::Boolean(true),
            ArgValue::Integer(10),
            ArgValue::Integer(0),
        ]
    );
}

#[test]
fn malformed_filters_mean_no_filter() {
    let mut params = QueryParams::new();
    params.filter = Some("this is not json".to_string());
    let (sql, _, _, _) = users().build_query(&params);
    assert!(!sql.contains("WHERE"));

    let mut array = QueryParams::new();
    array.filter = Some("[1,2,3]".to_string());
    let (sql, _, _, _) = users().build_query(&array);
    assert!(!sql.contains("WHERE"));
}

#[test]
fn unlisted_sort_field_falls_back_without_failing() {
    let mut params = QueryParams::new();
    params.sort_by = Some("password_hash".to_string());
    params.sort_order = Some("asc".to_string());
    let (sql, _, _, _) = users().build_query(&params);
    assert!(sql.contains(" ORDER BY created_at DESC "));

    let mut ok = QueryParams::new();
    ok.sort_by = Some("username".to_string());
    ok.sort_order = Some("ASC".to_string());
    let (sql, _, _, _) = users().build_query(&ok);
    assert!(sql.contains(" ORDER BY username ASC "));

    let mut odd = QueryParams::new();
    odd.sort_by = Some("username".to_string());
    odd.sort_order = Some("sideways".to_string());
    let (sql, _, _, _) = users().build_query(&odd);
    assert!(sql.contains(" ORDER BY username DESC "));
}

#[test]
fn count_query_shares_predicates_and_values() {
    let mut params = QueryParams::new();
    params.search = Some("bob".to_string());
    params.filter = Some(r#"{"is_active":true}"#.to_string());
    let builder = users();
    let (count_sql, count_args) = builder.build_count_query(&params);
    let (row_sql, row_args, _, _) = builder.build_query(&params);
    assert_eq!(
        count_sql,
        "SELECT COUNT(*) as total FROM users WHERE \
         ((username IS NOT NULL AND username ILIKE $1) OR \
         (email IS NOT NULL AND email ILIKE $2)) AND is_active = $3"
    );
    // The row query binds exactly the same condition values, then paging.
    assert_eq!(&row_args[..count_args.len()], &count_args[..]);
    assert_eq!(row_args.len(), count_args.len() + 2);
    let where_part = &count_sql["SELECT COUNT(*) as total FROM users".len()..];
    assert!(row_sql.contains(where_part));
}

#[test]
fn includes_join_and_extend_the_projection() {
    let builder = QueryBuilder::new("contacts")
        .select(vec!["id", "first_name"])
        .sortable(vec!["created_at"])
        .include_relation(
            "created_user",
            "LEFT JOIN users cu ON contacts.created_by = cu.id",
            vec!["cu.id as created_user_id"],
        );
    let mut params = QueryParams::new();
    params.includes = Some("created_user, unknown".to_string());
    let (sql, _, _, _) = builder.build_query(&params);
    assert_eq!(
        sql,
        "SELECT id, first_name, cu.id as created_user_id FROM contacts \
         LEFT JOIN users cu ON contacts.created_by = cu.id \
         ORDER BY created_at DESC LIMIT $1 OFFSET $2"
    );
}

#[test]
fn star_projection_takes_no_extra_columns() {
    let builder = QueryBuilder::new("contacts")
        .sortable(vec!["created_at"])
        .include_relation("rel", "LEFT JOIN t ON t.id = contacts.t_id", vec!["t.x as x"]);
    let mut params = QueryParams::new();
    params.includes = Some("rel".to_string());
    let (sql, _, _, _) = builder.build_query(&params);
    assert_eq!(
        sql,
        "SELECT * FROM contacts LEFT JOIN t ON t.id = contacts.t_id \
         ORDER BY created_at DESC LIMIT $1 OFFSET $2"
    );
}

#[test]
fn static_joins_come_before_includes() {
    let builder = QueryBuilder::new("orders")
        .select(vec!["id"])
        .sortable(vec!["created_at"])
        .join("JOIN customers c ON orders.customer_id = c.id");
    let (sql, _, _, _) = builder.build_query(&QueryParams::new());
    assert_eq!(
        sql,
        "SELECT id FROM orders JOIN customers c ON orders.customer_id = c.id \
         ORDER BY created_at DESC LIMIT $1 OFFSET $2"
    );
}

#[test]
fn pagination_binds_the_effective_page() {
    let mut params = QueryParams::new();
    params.page = Some(3);
    params.per_page = Some(500);
    let (sql, args, page, per_page) = users().build_query(&params);
    assert_eq!(page, 3);
    assert_eq!(per_page, 100);
    assert!(sql.ends_with("LIMIT $1 OFFSET $2"));
    assert_eq!(args, vec![ArgValue::Integer(100), ArgValue::Integer(200)]);
}

#[test]
fn generate_pagination_links_reports_neighbours() {
    let links = users().generate_pagination_links(2, 3, 5, "/api/v1/users");
    assert_eq!(links.first, "/api/v1/users?page=1&perPage=5");
    assert_eq!(links.previous.as_deref(), Some("/api/v1/users?page=1&perPage=5"));
    assert_eq!(links.next.as_deref(), Some("/api/v1/users?page=3&perPage=5"));
    assert_eq!(links.last, "/api/v1/users?page=3&perPage=5");
}
