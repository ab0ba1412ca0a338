use folio_core::validate_batch_name;
use folio_core::BatchNameError;

#[test]
fn test_validate_batch_name_valid_alphanumeric() {
    assert!(validate_batch_name("vacation").is_ok());
    assert!(validate_batch_name("trip2024").is_ok());
    assert!(validate_batch_name("FAMILY").is_ok());
    assert!(validate_batch_name("Event123").is_ok());
}

#[test]
fn test_validate_batch_name_valid_with_hyphens() {
    assert!(validate_batch_name("vacation-2024").is_ok());
    assert!(validate_batch_name("family-reunion").is_ok());
    assert!(validate_batch_name("summer-trip-day1").is_ok());
}

#[test]
fn test_validate_batch_name_valid_with_underscores() {
    assert!(validate_batch_name("family_reunion").is_ok());
    assert!(validate_batch_name("trip_2024").is_ok());
    assert!(validate_batch_name("vacation_day_1").is_ok());
}

#[test]
fn test_validate_batch_name_valid_mixed() {
    assert!(validate_batch_name("vacation_2024-day1").is_ok());
    assert!(validate_batch_name("Trip-2024_summer").is_ok());
}

#[test]
fn test_validate_batch_name_invalid_spaces() {
    assert!(validate_batch_name("vacation 2024").is_err());
    assert!(validate_batch_name("family reunion").is_err());
    assert!(validate_batch_name("trip day 1").is_err());
}

#[test]
fn test_validate_batch_name_invalid_special_chars() {
    assert!(validate_batch_name("vacation!").is_err());
    assert!(validate_batch_name("trip@home").is_err());
    assert!(validate_batch_name("family#reunion").is_err());
    assert!(validate_batch_name("event$2024").is_err());
    assert!(validate_batch_name("trip%off").is_err());
    assert!(validate_batch_name("day&night").is_err());
    assert!(validate_batch_name("trip*").is_err());
    assert!(validate_batch_name("event(2024)").is_err());
}

#[test]
fn test_validate_batch_name_invalid_empty() {
    assert!(validate_batch_name("").is_err());
}

#[test]
fn test_validate_batch_name_invalid_only_hyphens() {
    assert!(validate_batch_name("---").is_err());
}

#[test]
fn test_validate_batch_name_invalid_only_underscores() {
    assert!(validate_batch_name("___").is_err());
}

#[test]
fn test_validate_batch_name_error_variants() {
    assert_eq!(validate_batch_name("trip 1"), Err(BatchNameError::InvalidCharacter));
    assert_eq!(validate_batch_name("vacation!"), Err(BatchNameError::InvalidCharacter));
    assert_eq!(validate_batch_name(""), Err(BatchNameError::Empty));
    assert_eq!(validate_batch_name("---"), Err(BatchNameError::NoAlphanumeric));
    assert_eq!(validate_batch_name("vacation-2024"), Ok(()));
    assert_eq!(validate_batch_name("family_reunion"), Ok(()));
}

#[test]
fn test_validate_batch_name_unicode_letters() {
    // Unicode letters count as alphanumeric.
    assert!(validate_batch_name("caf\u{e9}").is_ok());
    assert!(validate_batch_name("f\u{fc}r_oma").is_ok());
}

#[test]
fn test_batch_name_error_messages_are_distinct() {
    let empty = validate_batch_name("").unwrap_err().message();
    let bad_char = validate_batch_name("a b").unwrap_err().message();
    let no_alnum = validate_batch_name("__").unwrap_err().message();
    assert_eq!(empty, "Batch name cannot be empty");
    assert_eq!(
        bad_char,
        "Batch name must contain only alphanumeric characters, hyphens, and underscores"
    );
    assert_eq!(no_alnum, "Batch name must contain at least one alphanumeric character");
}
