use domain_checker::validate::{validate_domain, ValidationError};

#[test]
fn empty_input_is_rejected() {
    assert_eq!(validate_domain(""), Err(ValidationError::EmptyDomain));
}

#[test]
fn scheme_and_www_and_slash_are_stripped() {
    assert_eq!(
        validate_domain("HTTPS://WWW.Example.COM/").unwrap(),
        "example.com".to_string()
    );
}

#[test]
fn lowercase_scheme_is_stripped_too() {
    assert_eq!(
        validate_domain("http://www.example.org/").unwrap(),
        "example.org".to_string()
    );
}

#[test]
fn single_label_is_missing_tld() {
    assert_eq!(validate_domain("a"), Err(ValidationError::MissingTld));
}

#[test]
fn one_character_tld_is_too_short() {
    assert_eq!(validate_domain("example.c"), Err(ValidationError::TldTooShort));
}

#[test]
fn two_hundred_fifty_four_characters_is_too_long() {
    let d = format!(
        "{}.{}.{}.{}.aa",
        "a".repeat(63),
        "b".repeat(63),
        "c".repeat(63),
        "d".repeat(59)
    );
    assert_eq!(d.len(), 254);
    assert_eq!(validate_domain(&d), Err(ValidationError::TooLong));
}

#[test]
fn two_hundred_fifty_three_characters_is_accepted() {
    let d = format!(
        "{}.{}.{}.{}.aa",
        "a".repeat(63),
        "b".repeat(63),
        "c".repeat(63),
        "d".repeat(58)
    );
    assert_eq!(d.len(), 253);
    assert!(validate_domain(&d).is_ok());
}

#[test]
fn space_inside_is_invalid_format() {
    assert_eq!(validate_domain("exa mple.com"), Err(ValidationError::InvalidFormat));
    assert_eq!(validate_domain("   "), Err(ValidationError::InvalidFormat));
}

#[test]
fn underscore_is_invalid_format() {
    assert_eq!(validate_domain("exa_mple.com"), Err(ValidationError::InvalidFormat));
}

#[test]
fn labels_may_not_start_or_end_with_hyphen() {
    assert_eq!(validate_domain("-a.com"), Err(ValidationError::InvalidFormat));
    assert_eq!(validate_domain("a-.com"), Err(ValidationError::InvalidFormat));
    assert_eq!(validate_domain("a-b.com").unwrap(), "a-b.com".to_string());
}

#[test]
fn label_longer_than_sixty_three_is_invalid() {
    let d = format!("{}.com", "a".repeat(64));
    assert_eq!(validate_domain(&d), Err(ValidationError::InvalidFormat));
}

#[test]
fn one_trailing_slash_is_stripped() {
    assert_eq!(validate_domain("example.com/").unwrap(), "example.com".to_string());
}

#[test]
fn upper_case_is_lowered() {
    assert_eq!(validate_domain("EXAMPLE.COM").unwrap(), "example.com".to_string());
}

#[test]
fn validation_is_idempotent_on_ordinary_inputs() {
    let v1 = validate_domain("HTTP://www.Foo-Bar.org/").unwrap();
    let v2 = validate_domain(&v1).unwrap();
    assert_eq!(v1, v2);
}

#[test]
fn doubled_www_prefix_is_stripped_only_once() {
    assert_eq!(
        validate_domain("www.www.example.com").unwrap(),
        "www.example.com".to_string()
    );
}

#[test]
fn unparsable_url_falls_back_to_the_raw_input() {
    assert_eq!(
        validate_domain("http://exa mple.com"),
        Err(ValidationError::InvalidFormat)
    );
}

#[test]
fn error_messages_are_descriptive() {
    assert_eq!(
        ValidationError::EmptyDomain.message(),
        "Domain cannot be empty".to_string()
    );
    assert_eq!(
        ValidationError::InvalidFormat.message(),
        "Invalid domain format".to_string()
    );
    assert_eq!(
        ValidationError::TooLong.message(),
        "Domain too long (max 253 characters)".to_string()
    );
    assert_eq!(
        ValidationError::MissingTld.message(),
        "Domain must have at least one subdomain and TLD".to_string()
    );
    assert_eq!(
        ValidationError::TldTooShort.message(),
        "TLD must be at least 2 characters".to_string()
    );
}
