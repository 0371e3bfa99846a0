use base_api::crud::{classify_store_error, CrudService};
use base_api::errors::AppError;
use base_api::values::{ArgValue, JsonScalar};

#[test]
fn create_strips_system_columns_and_injects_audit_fields() {
    let payload = vec![
        ("name".to_string(), JsonScalar::Text("Bob".to_string())),
        ("age".to_string(), JsonScalar::Integer(30)),
        ("id".to_string(), JsonScalar::Text("evil".to_string())),
        ("created_by".to_string(), JsonScalar::Text("evil".to_string())),
        ("note".to_string(), JsonScalar::Null),
    ];
    let actor = "550e8400-e29b-41d4-a716-446655440000";
    let (stmt, new_id) = CrudService::create("contacts", &payload, actor);
    assert_eq!(new_id.chars().count(), 36);
    assert_eq!(
        stmt.sql,
        "INSERT INTO contacts (id, created_by, updated_by, name, age, note) \
         VALUES ($1, $2, $3, $4, $5, $6) RETURNING *"
    );
    assert_eq!(
        stmt.args,
        vec![
            ArgValue::Identifier(new_id.clone()),
            ArgValue::Identifier(actor.to_string()),
            ArgValue::Identifier(actor.to_string()),
            ArgValue::Text("Bob".to_string()),
            ArgValue::Integer(30),
            ArgValue::Null,
        ]
    );
}

#[test]
fn two_creates_bind_the_same_caller_values() {
    // Whether the second insert hits a unique constraint is the store's
    // call; the service hands both inserts identical caller data.
    let payload = vec![("email".to_string(), JsonScalar::Text("a@b.c".to_string()))];
    let (first, id1) = CrudService::create("users", &payload, "actor");
    let (second, id2) = CrudService::create("users", &payload, "actor");
    assert_eq!(first.sql, second.sql);
    assert_eq!(first.args[3..], second.args[3..]);
    assert_ne!(id1, id2);
}

#[test]
fn update_forces_audit_columns_and_picks_by_id() {
    let payload = vec![
        ("email".to_string(), JsonScalar::Text("x@y.z".to_string())),
        ("created_at".to_string(), JsonScalar::Text("overwrite".to_string())),
    ];
    let stmt = CrudService::update(
        "users",
        "550e8400-e29b-41d4-a716-446655440000",
        &payload,
        "11111111-2222-3333-4444-555555555555",
    )
    .unwrap();
    assert_eq!(
        stmt.sql,
        "UPDATE users SET updated_by = $1, updated_at = NOW(), email = $2 \
         WHERE id = $3 RETURNING *"
    );
    assert_eq!(
        stmt.args,
        vec![
            ArgValue::Identifier("11111111-2222-3333-4444-555555555555".to_string()),
            ArgValue::Text("x@y.z".to_string()),
            ArgValue::Identifier("550e8400-e29b-41d4-a716-446655440000".to_string()),
        ]
    );
}

#[test]
fn empty_update_after_stripping_fails_fast_with_no_statement() {
    let only_system = vec![
        ("id".to_string(), JsonScalar::Text("x".to_string())),
        ("updated_at".to_string(), JsonScalar::Text("y".to_string())),
        ("created_by".to_string(), JsonScalar::Text("z".to_string())),
    ];
    let r = CrudService::update("users", "some-id", &only_system, "actor");
    match r {
        Err(AppError::BadRequest(m)) => assert_eq!(m, "No fields to update"),
        _ => panic!("expected BadRequest"),
    }

    let empty: Vec<(String, JsonScalar)> = Vec::new();
    assert!(matches!(
        CrudService::update("users", "some-id", &empty, "actor"),
        Err(AppError::BadRequest(_))
    ));
}

#[test]
fn delete_statement_and_outcome() {
    let stmt = CrudService::delete("contacts", "the-id");
    assert_eq!(stmt.sql, "DELETE FROM contacts WHERE id = $1");
    assert_eq!(stmt.args, vec![ArgValue::Identifier("the-id".to_string())]);

    assert!(CrudService::delete_outcome(1, "contacts", "the-id").is_ok());
    match CrudService::delete_outcome(0, "contacts", "the-id") {
        Err(AppError::NotFound { entity, id }) => {
            assert_eq!(entity, "contacts");
            assert_eq!(id, "the-id");
        },
        _ => panic!("expected NotFound"),
    }
}

#[test]
fn get_by_id_selects_one_row_by_identifier() {
    let select = vec!["id".to_string(), "email".to_string()];
    let joins: Vec<String> = Vec::new();
    let stmt = CrudService::get_by_id("users", &select, &joins, "abc");
    assert_eq!(stmt.sql, "SELECT id, email FROM users  WHERE users.id = $1");
    assert_eq!(stmt.args, vec![ArgValue::Identifier("abc".to_string())]);
}

#[test]
fn get_list_builds_both_statements_over_one_predicate_list() {
    let mut params = base_api::params::QueryParams::new();
    params.search = Some("ada".to_string());
    let (_builder, count, rows, page, per_page) = CrudService::get_list(
        "users",
        vec!["id", "username"],
        vec!["username"],
        vec![],
        vec!["created_at"],
        vec![],
        &params,
    );
    assert_eq!(
        count.sql,
        "SELECT COUNT(*) as total FROM users WHERE \
         ((username IS NOT NULL AND username ILIKE $1))"
    );
    assert_eq!(
        rows.sql,
        "SELECT id, username FROM users WHERE \
         ((username IS NOT NULL AND username ILIKE $1)) \
         ORDER BY created_at DESC LIMIT $2 OFFSET $3"
    );
    assert_eq!(&rows.args[..count.args.len()], &count.args[..]);
    assert_eq!(page, 1);
    assert_eq!(per_page, 10);
}

#[test]
fn get_list_with_includes_activates_named_relations() {
    let mut params = base_api::params::QueryParams::new();
    params.includes = Some("owner".to_string());
    let (_builder, count, rows, _, _) = CrudService::get_list_with_includes(
        "contacts",
        vec!["id"],
        vec![],
        vec![],
        vec!["created_at"],
        vec![],
        vec![(
            "owner",
            "LEFT JOIN users o ON contacts.created_by = o.id",
            vec!["o.id as owner_id"],
        )],
        &params,
    );
    assert_eq!(
        rows.sql,
        "SELECT id, o.id as owner_id FROM contacts \
         LEFT JOIN users o ON contacts.created_by = o.id \
         ORDER BY created_at DESC LIMIT $1 OFFSET $2"
    );
    assert_eq!(
        count.sql,
        "SELECT COUNT(*) as total FROM contacts \
         LEFT JOIN users o ON contacts.created_by = o.id"
    );
}

#[test]
fn unique_violation_surfaces_as_already_exists() {
    let err = classify_store_error(
        "23505",
        "users",
        "Key (email)=(a@b.c) already exists.",
    );
    match err {
        AppError::AlreadyExists { entity, field, value } => {
            assert_eq!(entity, "users");
            assert_eq!(field, "email");
            assert_eq!(value, "a@b.c");
        },
        _ => panic!("expected AlreadyExists"),
    }
    assert_eq!(
        classify_store_error("23505", "users", "Key (email)=(a@b.c) already exists.").status_code(),
        409
    );
}

#[test]
fn other_store_errors_classify_by_sqlstate() {
    assert!(matches!(
        classify_store_error("23503", "orders", "violates foreign key"),
        AppError::BusinessRule(_)
    ));
    assert!(matches!(
        classify_store_error("57014", "orders", "canceled"),
        AppError::DatabaseError(_)
    ));
    // A unique violation whose detail has no parsable key still names the
    // entity rather than degrading to a generic store error.
    match classify_store_error("23505", "users", "duplicate key value") {
        AppError::AlreadyExists { entity, field, value } => {
            assert_eq!(entity, "users");
            assert_eq!(field, "");
            assert_eq!(value, "duplicate key value");
        },
        _ => panic!("expected AlreadyExists"),
    }
}

#[test]
fn error_kinds_carry_codes_statuses_and_messages() {
    let nf = AppError::not_found("User", "42");
    assert_eq!(nf.code(), "NOT_FOUND");
    assert_eq!(nf.status_code(), 404);
    assert_eq!(nf.user_message(), "User with ID '42' not found");

    let ae = AppError::already_exists("User", "email", "a@b.c");
    assert_eq!(ae.code(), "ALREADY_EXISTS");
    assert_eq!(ae.status_code(), 409);
    assert_eq!(ae.user_message(), "User with email 'a@b.c' already exists");

    let br = AppError::business_rule("cannot delete a posted entry");
    assert_eq!(br.code(), "BUSINESS_RULE_VIOLATION");
    assert_eq!(br.status_code(), 400);
    assert_eq!(br.user_message(), "cannot delete a posted entry");

    let ii = AppError::invalid_input("email", "must contain @");
    assert_eq!(ii.code(), "INVALID_INPUT");
    assert_eq!(ii.status_code(), 400);
    assert_eq!(ii.user_message(), "Invalid email: must contain @");

    let internal = AppError::internal("boom");
    assert_eq!(internal.code(), "DATABASE_ERROR");
    assert_eq!(internal.status_code(), 500);

    assert_eq!(AppError::Unauthorized.status_code(), 401);
    assert_eq!(
        AppError::SerializationError("x".to_string()).status_code(),
        500
    );
}
