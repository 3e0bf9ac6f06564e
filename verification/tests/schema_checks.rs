use ontogen::naming::to_snake_case;
use ontogen::schema::parse::validate_identifier;

#[test]
fn validate_identifier_accepts_good_values() {
    assert!(validate_identifier("table", "users").is_ok());
    assert!(validate_identifier("table", "work_sessions").is_ok());
    assert!(validate_identifier("prefix", "_leading_underscore").is_ok());
    assert!(validate_identifier("type_name", "Node42").is_ok());
}

#[test]
fn validate_identifier_rejects_bad_values() {
    assert!(validate_identifier("table", "").is_err());
    assert!(validate_identifier("table", "1leading_digit").is_err());
    assert!(validate_identifier("table", "has-dash").is_err());
    assert!(validate_identifier("table", "has space").is_err());
    assert!(validate_identifier("table", "users'; DROP TABLE users; --").is_err());
}

#[test]
fn validate_identifier_error_texts_name_the_field_and_the_rule() {
    assert_eq!(validate_identifier("prefix", "").unwrap_err(), "invalid prefix=``: must not be empty");
    assert_eq!(
        validate_identifier("table", "1x").unwrap_err(),
        "invalid table=`1x`: must match [A-Za-z_][A-Za-z0-9_]* (must start with letter or underscore)"
    );
    assert_eq!(
        validate_identifier("table", "a-b").unwrap_err(),
        "invalid table=`a-b`: must match [A-Za-z_][A-Za-z0-9_]* (only letters, digits, or underscore allowed)"
    );
}

#[test]
fn to_snake_case_works() {
    assert_eq!(to_snake_case("Node"), "node");
    assert_eq!(to_snake_case("WorkSession"), "work_session");
    assert_eq!(to_snake_case("Agent"), "agent");
    assert_eq!(to_snake_case("Evidence"), "evidence");
}
