use base_api::auth::{parse_token, AuthenticatedUser, Claims};
use base_api::codes::{
    determine_code, extract_number_from_code, format_code, generate_code, generate_prefix,
    next_sequence_number, CodeRequest,
};
use base_api::errors::clean_error_message;

#[test]
fn test_generate_prefix() {
    assert_eq!(generate_prefix("ASEP IMAM NAWAWI"), "AIN");
    assert_eq!(generate_prefix("John Doe"), "JD");
    assert_eq!(generate_prefix("Single"), "S");
    assert_eq!(generate_prefix("multiple word test case"), "MWTC");
}

#[test]
fn test_extract_number_from_code() {
    assert_eq!(extract_number_from_code("AIM-00001"), Some(1));
    assert_eq!(extract_number_from_code("JD-00123"), Some(123));
    assert_eq!(extract_number_from_code("INVALID"), None);
}

#[test]
fn extract_number_edge_cases() {
    assert_eq!(extract_number_from_code(""), None);
    assert_eq!(extract_number_from_code("-1"), Some(1));
    assert_eq!(extract_number_from_code("A-"), None);
    assert_eq!(extract_number_from_code("123"), None);
    assert_eq!(extract_number_from_code("A-2147483647"), Some(i32::MAX));
    // One past i32::MAX no longer fits.
    assert_eq!(extract_number_from_code("A-2147483648"), None);
}

#[test]
fn sequence_and_formatting() {
    assert_eq!(next_sequence_number(None), 1);
    let last = "AIM-00041".to_string();
    assert_eq!(next_sequence_number(Some(&last)), 42);
    let odd = "AIM".to_string();
    assert_eq!(next_sequence_number(Some(&odd)), 1);
    assert_eq!(format_code("AIM", 42), "AIM-00042");
    assert_eq!(format_code("AIM", 123456), "AIM-123456");
}

#[test]
fn generate_and_determine_codes() {
    assert_eq!(generate_code("Asep Imam", None), "AI-00001");
    let last = "AI-00009".to_string();
    assert_eq!(generate_code("Asep Imam", Some(&last)), "AI-00010");

    let with_code = CodeRequest { text: "Asep Imam".to_string(), code: Some(" C-7 ".to_string()) };
    assert_eq!(determine_code(&with_code, None), "C-7");
    let blank_code = CodeRequest { text: "Asep Imam".to_string(), code: Some("   ".to_string()) };
    assert_eq!(determine_code(&blank_code, None), "AI-00001");
    let no_code = CodeRequest { text: " Asep Imam ".to_string(), code: None };
    assert_eq!(determine_code(&no_code, None), "AI-00001");
}

#[test]
fn token_parsing_accepts_only_the_expected_shape() {
    // The identifier comes back canonicalized to lower case, so the parse
    // is not handing its input through unchanged.
    let token = "user-550E8400-E29B-41D4-A716-446655440000.12345.signature";
    assert_eq!(
        parse_token(token).unwrap(),
        "550e8400-e29b-41d4-a716-446655440000"
    );
    assert!(parse_token("").is_err());
    assert!(parse_token("user-550e8400-e29b-41d4-a716-446655440000").is_err());
    assert!(parse_token("user-not-a-uuid.exp.sign").is_err());
    assert!(parse_token("bearer-550e8400-e29b-41d4-a716-446655440000.exp.sign").is_err());
    assert!(parse_token("user-550e8400-e29b-41d4-a716-446655440000.exp.sign.extra").is_err());
}

#[test]
fn claims_carry_identity_and_lifetime() {
    let claims = Claims::new(
        "550e8400-e29b-41d4-a716-446655440000".to_string(),
        "testuser".to_string(),
        "test@example.com".to_string(),
        1_700_000_000,
    );
    assert_eq!(claims.sub, "550e8400-e29b-41d4-a716-446655440000");
    assert_eq!(claims.username, "testuser");
    assert_eq!(claims.email, "test@example.com");
    assert_eq!(claims.iat, 1_700_000_000);
    assert_eq!(claims.exp, 1_700_000_000 + 86_400);
    assert_eq!(claims.iss, "rust-base-api");
    assert_eq!(
        claims.user_id().unwrap(),
        "550e8400-e29b-41d4-a716-446655440000"
    );

    let bad = Claims::new(
        "nonsense".to_string(),
        "u".to_string(),
        "e".to_string(),
        0,
    );
    assert!(bad.user_id().is_err());
}

#[test]
fn authenticated_user_hands_back_its_id() {
    let auth = AuthenticatedUser::new("some-id".to_string());
    assert_eq!(auth.user_id(), "some-id");
}

#[test]
fn error_messages_are_cleaned() {
    assert_eq!(
        clean_error_message("missing field `email` at line 1 column 2"),
        "Invalid JSON: missing field `email`"
    );
    assert_eq!(
        clean_error_message("oops: missing field `name`"),
        "Invalid JSON: missing field `name`"
    );
    assert_eq!(
        clean_error_message("expected value at line 1 column 1"),
        "Invalid JSON: Failed to parse request body"
    );
}
