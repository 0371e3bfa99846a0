use base_api::errors::AppError;
use base_api::models::{User, UserResponse};
use base_api::row::{decode_fetched, CellValue, FromRow, Row};

fn sample_user() -> User {
    User {
        id: "550e8400-e29b-41d4-a716-446655440000".to_string(),
        username: "bob".to_string(),
        email: "bob@example.com".to_string(),
        password_hash: "$2b$12$hash".to_string(),
        first_name: Some("Bob".to_string()),
        last_name: None,
        is_active: true,
        is_verified: false,
        last_login_at: None,
        created_at: "2024-01-01T00:00:00Z".to_string(),
        created_by: Some("11111111-2222-3333-4444-555555555555".to_string()),
        updated_at: "2024-01-02T00:00:00Z".to_string(),
        updated_by: None,
    }
}

#[test]
fn a_user_round_trips_through_the_generic_row() {
    let user = sample_user();
    let row = user.to_row();
    let decoded = User::from_row(&row).unwrap();
    assert_eq!(decoded, user);
}

#[test]
fn caller_visible_fields_survive_into_the_response() {
    let user = sample_user();
    let response: UserResponse = user.clone().into();
    assert_eq!(response.id, user.id);
    assert_eq!(response.username, user.username);
    assert_eq!(response.email, user.email);
    assert_eq!(response.first_name, user.first_name);
    assert_eq!(response.last_name, user.last_name);
    assert_eq!(response.is_active, user.is_active);
    assert_eq!(response.is_verified, user.is_verified);
    assert_eq!(response.last_login_at, user.last_login_at);
    assert_eq!(response.created_at, user.created_at);
    assert_eq!(response.updated_at, user.updated_at);
}

#[test]
fn a_row_that_does_not_fit_is_a_serialization_error() {
    let mut row = sample_user().to_row();
    // Overwrite nothing; instead build a row whose username is a number.
    row.cells[1].1 = CellValue::Integer(7);
    assert!(matches!(
        User::from_row(&row),
        Err(AppError::SerializationError(_))
    ));

    let empty = Row::new();
    assert!(User::from_row(&empty).is_err());
}

#[test]
fn first_occurrence_of_a_column_wins() {
    let mut row = sample_user().to_row();
    row.push("username".to_string(), CellValue::Text("shadowed".to_string()));
    let decoded = User::from_row(&row).unwrap();
    assert_eq!(decoded.username, "bob");
}

#[test]
fn fetching_nothing_is_not_found() {
    match decode_fetched::<User>(None, "User", "42") {
        Err(AppError::NotFound { entity, id }) => {
            assert_eq!(entity, "User");
            assert_eq!(id, "42");
        },
        _ => panic!("expected NotFound"),
    }
    let user = sample_user();
    let fetched = decode_fetched::<User>(Some(user.to_row()), "User", &user.id).unwrap();
    assert_eq!(fetched, user);
}
