use std::collections::HashMap;
use wscall::json::{Json, JsonMap};
use wscall::validation::{
    alphabetic, alphanumeric, ascii_alphanumeric, assert_false, assert_true, contains,
    errors_to_details, length_range, lowercase, max_length, min_length, no_whitespace, non_empty_map,
    non_empty_vec, non_negative_i32, non_negative_i64, not_blank, not_contains, not_empty,
    numeric_max, numeric_min, numeric_range, numeric_text, one_of, positive_i32, positive_i64,
    regex_outcome, required, uppercase, RegexValidator, ValidationError, ValidationErrors,
    ValidationErrorsKind,
};

fn refused(result: Result<(), ValidationError>) -> (String, String) {
    let error = result.expect_err("value should be refused");
    assert!(error.params.is_empty());
    (error.code, error.message.expect("message"))
}

#[test]
fn presence_and_booleans() {
    assert!(required(&Some(1)).is_ok());
    assert_eq!(refused(required::<u8>(&None)).0, "required");
    assert!(assert_true(&true).is_ok());
    assert_eq!(refused(assert_true(&false)).0, "assert_true");
    assert!(assert_false(&false).is_ok());
    assert_eq!(refused(assert_false(&true)).0, "assert_false");
}

#[test]
fn emptiness() {
    assert!(not_empty(" ").is_ok());
    assert_eq!(refused(not_empty("")).0, "not_empty");
    assert!(not_blank(" x ").is_ok());
    assert_eq!(refused(not_blank("\u{3000}\t\n")).0, "not_blank");
    assert!(non_empty_vec(&[0]).is_ok());
    assert_eq!(refused(non_empty_vec::<u8>(&[])).1, "collection cannot be empty");
    let mut map = HashMap::new();
    assert_eq!(refused(non_empty_map(&map)).1, "map cannot be empty");
    map.insert(1, 2);
    assert!(non_empty_map(&map).is_ok());
}

#[test]
fn characters() {
    assert!(no_whitespace("").is_ok());
    assert_eq!(refused(no_whitespace("a\u{a0}b")).0, "no_whitespace");
    assert!(alphabetic("äßc").is_ok());
    assert_eq!(refused(alphabetic("a1")).0, "alphabetic");
    assert!(alphanumeric("ä1").is_ok());
    assert_eq!(refused(alphanumeric("a_")).0, "alphanumeric");
    assert!(ascii_alphanumeric("aZ9").is_ok());
    assert_eq!(refused(ascii_alphanumeric("ä")).0, "ascii_alphanumeric");
    assert!(numeric_text("0123456789").is_ok());
    assert_eq!(refused(numeric_text("\u{0663}")).0, "numeric_text");
    assert!(lowercase("ab ß1").is_ok());
    assert_eq!(refused(lowercase("aB")).0, "lowercase");
    assert!(uppercase("AB 1").is_ok());
    assert_eq!(refused(uppercase("Ab")).0, "uppercase");
}

#[test]
fn signs() {
    assert!(positive_i32(1).is_ok());
    assert_eq!(refused(positive_i32(0)).0, "positive");
    assert!(non_negative_i32(0).is_ok());
    assert_eq!(refused(non_negative_i32(-1)).0, "non_negative");
    assert!(positive_i64(i64::MAX).is_ok());
    assert_eq!(refused(positive_i64(i64::MIN)).0, "positive");
    assert!(non_negative_i64(0).is_ok());
    assert_eq!(refused(non_negative_i64(-1)).0, "non_negative");
}

fn params_text(error: &ValidationError) -> Vec<u8> {
    Json::Object(error.params.clone()).to_vec()
}

#[test]
fn lengths_count_characters() {
    assert!(min_length("äöü", 3).is_ok());
    let error = min_length("äö", 3).expect_err("too short");
    assert_eq!(error.code, "min_length");
    assert_eq!(params_text(&error), br#"{"min":3,"actual":2}"#.to_vec());
    assert_eq!(error.message.as_deref(), Some("length must be at least 3"));
    assert!(max_length("äöü", 3).is_ok());
    let error = max_length("äöüa", 3).expect_err("too long");
    assert_eq!(error.code, "max_length");
    assert_eq!(params_text(&error), br#"{"max":3,"actual":4}"#.to_vec());
    assert_eq!(error.message.as_deref(), Some("length must be at most 3"));
    assert!(length_range("ab", 2, 3).is_ok());
    let error = length_range("a", 2, 3).expect_err("too short");
    assert_eq!(error.code, "length_range");
    assert_eq!(params_text(&error), br#"{"min":2,"max":3,"actual":1}"#.to_vec());
    assert_eq!(error.message.as_deref(), Some("length must be between 2 and 3"));
    assert!(length_range("abcd", 2, 3).is_err());
}

#[test]
fn numbers_and_their_bounds() {
    assert!(numeric_min(5, 5).is_ok());
    let error = numeric_min(4, 5).expect_err("too small");
    assert_eq!(error.code, "min");
    assert_eq!(params_text(&error), br#"{"min":5}"#.to_vec());
    assert_eq!(
        error.message.as_deref(),
        Some("value must be greater than or equal to 5")
    );
    assert!(numeric_max(-5, -5).is_ok());
    let error = numeric_max(-4, -5).expect_err("too large");
    assert_eq!(error.code, "max");
    assert_eq!(params_text(&error), br#"{"max":-5}"#.to_vec());
    assert_eq!(
        error.message.as_deref(),
        Some("value must be less than or equal to -5")
    );
    assert!(numeric_range(0, -1, 1).is_ok());
    let error = numeric_range(2, -1, 1).expect_err("out of range");
    assert_eq!(error.code, "range");
    assert_eq!(params_text(&error), br#"{"min":-1,"max":1}"#.to_vec());
    assert_eq!(error.message.as_deref(), Some("value must be between -1 and 1"));
}

#[test]
fn parts_and_choices() {
    assert!(contains("banana", "nan", "c").is_ok());
    assert!(contains("banana", "", "c").is_ok());
    assert_eq!(contains("banana", "xyz", "c").expect_err("absent").code, "c");
    assert!(not_contains("banana", "xyz", "c").is_ok());
    assert_eq!(not_contains("banana", "nan", "c").expect_err("present").code, "c");
    assert!(one_of("b", &["a", "b"], "c").is_ok());
    let error = one_of("z", &["a", "q\"x"], "c").expect_err("not allowed");
    assert_eq!(error.code, "c");
    assert_eq!(
        error.message.as_deref(),
        Some(r#"value must be one of ["a", "q\"x"]"#)
    );
}

#[test]
fn patterns() {
    let validator = RegexValidator::new("^[a-z]{2,3}$", "short_word").expect("valid pattern");
    assert!(validator.validate("abc").is_ok());
    let error = validator.validate("abcd").expect_err("no match");
    assert_eq!(error.code, "short_word");
    assert_eq!(
        error.message.as_deref(),
        Some("value does not match pattern ^[a-z]{2,3}$")
    );
    assert!(RegexValidator::new("(", "broken").is_none());
    assert!(regex_outcome(true, "p", "c").is_ok());
    assert_eq!(regex_outcome(false, "p", "c").expect_err("no match").code, "c");
}

#[test]
fn errors_become_details() {
    let plain = not_empty("").expect_err("empty");
    let nested = ValidationErrors {
        fields: vec![(
            "street".to_string(),
            ValidationErrorsKind::Field(vec![ValidationError {
                code: "c".to_string(),
                message: None,
                params: JsonMap::new(),
            }]),
        )],
    };
    let listed = ValidationErrors {
        fields: vec![("x".to_string(), ValidationErrorsKind::Field(Vec::new()))],
    };
    let errors = ValidationErrors {
        fields: vec![
            (
                "name".to_string(),
                ValidationErrorsKind::Field(vec![plain, min_length("", 1).expect_err("short")]),
            ),
            (
                "address".to_string(),
                ValidationErrorsKind::Struct(Box::new(nested)),
            ),
            (
                "items".to_string(),
                ValidationErrorsKind::List(vec![(2, listed)]),
            ),
        ],
    };
    let details = String::from_utf8(errors_to_details(&errors).to_vec()).expect("UTF-8");
    assert_eq!(
        details,
        [
            r#"{"name":[{"code":"not_empty","message":"value cannot be empty","params":{}},"#,
            r#"{"code":"min_length","message":"length must be at least 1","params":{"min":1,"actual":0}}],"#,
            r#""address":{"street":[{"code":"c","message":null,"params":{}}]},"#,
            r#""items":{"2":{"x":[]}}}"#,
        ]
        .concat()
    );
}

#[test]
fn alphabetic_texts_are_alphanumeric() {
    for text in ["", "abc", "äßc", "日本", "a1", "12", "\u{0663}", "a_", "½"] {
        assert!(alphabetic(text).is_err() || alphanumeric(text).is_ok());
        assert!(numeric_text(text).is_err() || alphanumeric(text).is_ok());
        assert!(text.is_empty() || alphabetic(text).is_err() || numeric_text(text).is_err());
    }
    assert!(alphabetic("").is_ok() && numeric_text("").is_ok());
    assert!(alphanumeric("\u{0663}½").is_ok());
}

#[test]
fn only_texts_without_letters_have_both_cases() {
    for (text, both) in [("", true), ("12 -", true), ("a", false), ("A", false), ("1a", false), ("日", false)] {
        assert_eq!(lowercase(text).is_ok() && uppercase(text).is_ok(), both);
    }
}
