use wscall::validation::{
    ascii_alphanumeric, length_range, max_length, min_length, not_blank, numeric_range,
    numeric_text, one_of, ValidationError,
};

fn validate_min_len_3(value: &str) -> Result<(), ValidationError> {
    min_length(value, 3)
}

fn validate_max_len_5(value: &str) -> Result<(), ValidationError> {
    max_length(value, 5)
}

fn validate_len_2_to_4(value: &str) -> Result<(), ValidationError> {
    length_range(value, 2, 4)
}

fn validate_age_range(value: i32) -> Result<(), ValidationError> {
    numeric_range(value as i128, 1, 150)
}

fn validate_env(value: &str) -> Result<(), ValidationError> {
    one_of(value, &["dev", "test", "prod"], "invalid_env")
}

#[test]
fn built_in_string_validators_work() {
    assert!(not_blank("hello").is_ok());
    assert!(not_blank("   ").is_err());
    assert!(ascii_alphanumeric("abc123").is_ok());
    assert!(ascii_alphanumeric("abc-123").is_err());
    assert!(numeric_text("123456").is_ok());
    assert!(numeric_text("12a456").is_err());
}

#[test]
fn macro_validators_work() {
    assert!(validate_min_len_3("abc").is_ok());
    assert!(validate_min_len_3("ab").is_err());
    assert!(validate_max_len_5("abcde").is_ok());
    assert!(validate_max_len_5("abcdef").is_err());
    assert!(validate_len_2_to_4("abc").is_ok());
    assert!(validate_len_2_to_4("a").is_err());
    assert!(validate_age_range(42).is_ok());
    assert!(validate_age_range(151).is_err());
    assert!(validate_env("prod").is_ok());
    assert!(validate_env("stage").is_err());
}
