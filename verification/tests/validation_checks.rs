use legatia_token::validation::{
    validate_description, validate_message, validate_name, validate_reason,
    validate_search_query, ValidationError,
};

#[test]
fn test_validate_name() {
    // Valid names
    assert!(validate_name("John Doe", "name").is_ok());
    assert!(validate_name("Mary O'Connor", "name").is_ok());
    assert!(validate_name("Jean-Pierre", "name").is_ok());
    assert!(validate_name("Dr. Smith", "name").is_ok());

    // Invalid names
    assert!(validate_name("", "name").is_err());
    assert!(validate_name("   ", "name").is_err());
    assert!(validate_name("John<script>", "name").is_err());
    assert!(validate_name(&"a".repeat(101), "name").is_err());
}

#[test]
fn test_validate_search_query() {
    // Valid queries
    assert!(validate_search_query("john").is_ok());
    assert!(validate_search_query("john doe").is_ok());
    assert!(validate_search_query("john@example.com").is_ok());

    // Invalid queries
    assert!(validate_search_query("").is_err());
    assert!(validate_search_query(&"a".repeat(51)).is_err());
    assert!(validate_search_query("john<script>").is_err());
}

#[test]
fn test_validate_name_error_variants() {
    assert!(matches!(
        validate_name("", "name"),
        Err(ValidationError::Empty(f)) if f == "name"
    ));
    assert!(matches!(
        validate_name(&"a".repeat(101), "family name"),
        Err(ValidationError::TooLong(f)) if f == "family name"
    ));
    assert!(matches!(
        validate_name("John<script>", "name"),
        Err(ValidationError::InvalidCharacters(f)) if f == "name"
    ));
    // Trimming: surrounding whitespace does not count against the bounds.
    assert!(validate_name(&format!("  {}  ", "a".repeat(100)), "name").is_ok());
}

#[test]
fn test_validate_description_bounds() {
    assert!(validate_description("").is_ok());
    assert!(validate_description("A family tree, kept with care (since 1900).").is_ok());
    assert!(validate_description(&"d".repeat(500)).is_ok());
    assert!(matches!(
        validate_description(&"d".repeat(501)),
        Err(ValidationError::TooLong(f)) if f == "description"
    ));
    assert!(matches!(
        validate_description("no angle <brackets>"),
        Err(ValidationError::InvalidCharacters(f)) if f == "description"
    ));
}

#[test]
fn test_validate_message_charset() {
    assert!(validate_message("").is_ok());
    assert!(validate_message("Hello! Join us at <family/tree> #1 ~ ok?").is_err());
    assert!(validate_message("Hello! Join us at <family/tree> #1?").is_ok());
    assert!(validate_message(&"m".repeat(1001)).is_err());
    assert!(validate_message(&"m".repeat(1000)).is_ok());
}

#[test]
fn test_validate_search_query_too_short() {
    assert!(matches!(
        validate_search_query("j"),
        Err(ValidationError::TooShort(f)) if f == "search query"
    ));
    assert!(matches!(
        validate_search_query("   "),
        Err(ValidationError::Empty(f)) if f == "search query"
    ));
}

#[test]
fn test_validate_reason_bounds() {
    assert!(validate_reason("I am this person.").is_ok());
    assert!(matches!(
        validate_reason(""),
        Err(ValidationError::Empty(f)) if f == "reason"
    ));
    assert!(validate_reason(&"r".repeat(200)).is_ok());
    assert!(matches!(
        validate_reason(&"r".repeat(201)),
        Err(ValidationError::TooLong(f)) if f == "reason"
    ));
    assert!(matches!(
        validate_reason("because <reasons>"),
        Err(ValidationError::InvalidCharacters(f)) if f == "reason"
    ));
}
