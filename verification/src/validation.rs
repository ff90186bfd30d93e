//! Validators for request parameters, and the JSON form of their errors.
use crate::json;
use crate::json::{Json, JsonMap, Tree};
use crate::text;
use crate::text::{debug_text, decimal_text, join, signed_decimal_text, text_eq};
use vstd::prelude::*;

verus! {

/// One failed validation.
#[derive(Debug)]
pub struct ValidationError {
    pub code: String,
    pub message: Option<String>,
    pub params: JsonMap,
}

/// The errors of a value, by field.
#[derive(Debug)]
pub struct ValidationErrors {
    pub fields: Vec<(String, ValidationErrorsKind)>,
}

/// The errors of one field.
#[derive(Debug)]
pub enum ValidationErrorsKind {
    /// The field is a structure that has errors of its own.
    Struct(Box<ValidationErrors>),
    /// The field is a list of which some items, named by their index, have errors.
    List(Vec<(usize, ValidationErrors)>),
    /// The field itself has failed.
    Field(Vec<ValidationError>),
}

/// What a [`ValidationError`] says.
pub struct Violation {
    pub code: Seq<char>,
    pub message: Option<Seq<char>>,
    pub params: Seq<(Seq<char>, Tree)>,
}

impl View for ValidationError {
    type V = Violation;

    open spec fn view(&self) -> Violation {
        Violation {
            code: self.code@,
            message: match self.message {
                Some(message) => Some(message@),
                None => None,
            },
            params: self.params@,
        }
    }
}

/// A violation without parameters.
pub open spec fn plain_violation(code: Seq<char>, message: Seq<char>) -> Violation {
    Violation { code, message: Some(message), params: Seq::empty() }
}

/// The outcome of a validation: success where the value is valid, and else the
/// violation.
pub open spec fn outcome(
    r: Result<(), ValidationError>,
    valid: bool,
    violation: Violation,
) -> bool {
    match r {
        Ok(_) => valid,
        Err(e) => !valid && e@ == violation,
    }
}

fn simple_error(code: &str, message: &str) -> (e: ValidationError)
    ensures
        e@ == plain_violation(code@, message@),
{
    ValidationError {
        code: code.to_owned(),
        message: Some(message.to_owned()),
        params: JsonMap::new(),
    }
}

fn check(valid: bool, code: &str, message: &str) -> (r: Result<(), ValidationError>)
    ensures
        outcome(r, valid, plain_violation(code@, message@)),
{
    if valid {
        Ok(())
    } else {
        Err(simple_error(code, message))
    }
}

/// Whether a character beyond ASCII has the Unicode property `White_Space`.
pub uninterp spec fn unicode_whitespace(c: char) -> bool;

/// Whether a character beyond ASCII has the Unicode property `Alphabetic`.
pub uninterp spec fn unicode_alphabetic(c: char) -> bool;

/// Whether a character beyond ASCII is numeric: one of Unicode's general categories
/// for numbers.
pub uninterp spec fn unicode_numeric(c: char) -> bool;

/// Whether a character beyond ASCII has the Unicode property `Lowercase`.
pub uninterp spec fn unicode_lowercase(c: char) -> bool;

/// Whether a character beyond ASCII has the Unicode property `Uppercase`.
pub uninterp spec fn unicode_uppercase(c: char) -> bool;

/// The character is one of ASCII.
pub open spec fn is_ascii(c: char) -> bool {
    (c as u32) < 128
}

/// The character is a decimal digit of ASCII.
pub open spec fn is_ascii_digit(c: char) -> bool {
    '0' <= c <= '9'
}

/// The character is a small letter of ASCII.
pub open spec fn is_ascii_small(c: char) -> bool {
    'a' <= c <= 'z'
}

/// The character is a capital letter of ASCII.
pub open spec fn is_ascii_capital(c: char) -> bool {
    'A' <= c <= 'Z'
}

/// The character is white space.
pub open spec fn char_whitespace(c: char) -> bool {
    if is_ascii(c) {
        c == ' ' || '\t' <= c <= '\r'
    } else {
        unicode_whitespace(c)
    }
}

/// The character is a letter.
pub open spec fn char_alphabetic(c: char) -> bool {
    if is_ascii(c) {
        is_ascii_small(c) || is_ascii_capital(c)
    } else {
        unicode_alphabetic(c)
    }
}

/// The character is a number.
pub open spec fn char_numeric(c: char) -> bool {
    if is_ascii(c) {
        is_ascii_digit(c)
    } else {
        unicode_numeric(c)
    }
}

/// The character is a letter or a number.
pub open spec fn char_alphanumeric(c: char) -> bool {
    char_alphabetic(c) || char_numeric(c)
}

/// The character is a small letter.
pub open spec fn char_lowercase(c: char) -> bool {
    if is_ascii(c) {
        is_ascii_small(c)
    } else {
        unicode_lowercase(c)
    }
}

/// The character is a capital letter.
pub open spec fn char_uppercase(c: char) -> bool {
    if is_ascii(c) {
        is_ascii_capital(c)
    } else {
        unicode_uppercase(c)
    }
}

/// `char::is_whitespace` of `std`: in ASCII the blank and the characters from tab
/// to carriage return; beyond it the Unicode property, which is only named.
pub assume_specification[ char::is_whitespace ](c: char) -> (r: bool)
    ensures
        r == if is_ascii(c) {
            c == ' ' || '\t' <= c <= '\r'
        } else {
            unicode_whitespace(c)
        },
;

/// `char::is_alphabetic` of `std`: in ASCII the letters; beyond it the Unicode
/// property, which is only named.
pub assume_specification[ char::is_alphabetic ](c: char) -> (r: bool)
    ensures
        r == if is_ascii(c) {
            is_ascii_small(c) || is_ascii_capital(c)
        } else {
            unicode_alphabetic(c)
        },
;

/// `char::is_alphanumeric` of `std`: what is alphabetic or numeric; in ASCII the
/// letters and digits, beyond it the Unicode properties, which are only named.
pub assume_specification[ char::is_alphanumeric ](c: char) -> (r: bool)
    ensures
        r == if is_ascii(c) {
            is_ascii_small(c) || is_ascii_capital(c) || is_ascii_digit(c)
        } else {
            unicode_alphabetic(c) || unicode_numeric(c)
        },
;

/// `char::is_lowercase` of `std`: in ASCII the small letters; beyond it the Unicode
/// property, which is only named.
pub assume_specification[ char::is_lowercase ](c: char) -> (r: bool)
    ensures
        r == if is_ascii(c) {
            is_ascii_small(c)
        } else {
            unicode_lowercase(c)
        },
;

/// `char::is_uppercase` of `std`: in ASCII the capital letters; beyond it the
/// Unicode property, which is only named.
pub assume_specification[ char::is_uppercase ](c: char) -> (r: bool)
    ensures
        r == if is_ascii(c) {
            is_ascii_capital(c)
        } else {
            unicode_uppercase(c)
        },
;

/// Requires that an optional value is there.
pub fn required<T>(value: &Option<T>) -> (r: Result<(), ValidationError>)
    ensures
        outcome(r, value is Some, plain_violation("required"@, "value is required"@)),
{
    check(value.is_some(), "required", "value is required")
}

/// Requires a value that is true.
pub fn assert_true(value: &bool) -> (r: Result<(), ValidationError>)
    ensures
        outcome(r, *value, plain_violation("assert_true"@, "value must be true"@)),
{
    check(*value, "assert_true", "value must be true")
}

/// Requires a value that is false.
pub fn assert_false(value: &bool) -> (r: Result<(), ValidationError>)
    ensures
        outcome(r, !*value, plain_violation("assert_false"@, "value must be false"@)),
{
    check(!*value, "assert_false", "value must be false")
}

/// Requires a text with at least one character.
pub fn not_empty(value: &str) -> (r: Result<(), ValidationError>)
    ensures
        outcome(r, value@.len() > 0, plain_violation("not_empty"@, "value cannot be empty"@)),
{
    check(!value.is_empty(), "not_empty", "value cannot be empty")
}

/// Requires a text with a character that is not white space.
pub fn not_blank(value: &str) -> (r: Result<(), ValidationError>)
    ensures
        outcome(
            r,
            exists|i: int| 0 <= i < value@.len() && !char_whitespace(#[trigger] value@[i]),
            plain_violation("not_blank"@, "value cannot be blank"@),
        ),
{
    let mut blank = true;
    for c in it: value.chars()
        invariant
            it.seq() == value@,
            blank == forall|i: int|
                0 <= i < it.index() ==> char_whitespace(#[trigger] value@[i]),
    {
        if !c.is_whitespace() {
            blank = false;
        }
    }
    check(!blank, "not_blank", "value cannot be blank")
}

/// Requires a text without white space.
pub fn no_whitespace(value: &str) -> (r: Result<(), ValidationError>)
    ensures
        outcome(
            r,
            forall|i: int| 0 <= i < value@.len() ==> !char_whitespace(#[trigger] value@[i]),
            plain_violation("no_whitespace"@, "value cannot contain whitespace"@),
        ),
{
    let mut valid = true;
    for c in it: value.chars()
        invariant
            it.seq() == value@,
            valid == forall|i: int|
                0 <= i < it.index() ==> !char_whitespace(#[trigger] value@[i]),
    {
        if c.is_whitespace() {
            valid = false;
        }
    }
    check(valid, "no_whitespace", "value cannot contain whitespace")
}

/// Every character is a letter.
pub open spec fn is_alphabetic_text(text: Seq<char>) -> bool {
    forall|i: int| 0 <= i < text.len() ==> char_alphabetic(#[trigger] text[i])
}

/// Every character is a letter or a number.
pub open spec fn is_alphanumeric_text(text: Seq<char>) -> bool {
    forall|i: int| 0 <= i < text.len() ==> char_alphanumeric(#[trigger] text[i])
}

/// Every character is a decimal digit of ASCII.
pub open spec fn is_digit_text(text: Seq<char>) -> bool {
    forall|i: int| 0 <= i < text.len() ==> is_ascii_digit(#[trigger] text[i])
}

/// Every letter is small.
pub open spec fn is_lowercase_text(text: Seq<char>) -> bool {
    forall|i: int|
        0 <= i < text.len() && char_alphabetic(#[trigger] text[i]) ==> char_lowercase(text[i])
}

/// Every letter is a capital.
pub open spec fn is_uppercase_text(text: Seq<char>) -> bool {
    forall|i: int|
        0 <= i < text.len() && char_alphabetic(#[trigger] text[i]) ==> char_uppercase(text[i])
}

/// Requires a text of letters.
pub fn alphabetic(value: &str) -> (r: Result<(), ValidationError>)
    ensures
        outcome(
            r,
            is_alphabetic_text(value@),
            plain_violation("alphabetic"@, "value must contain only letters"@),
        ),
{
    let mut valid = true;
    for c in it: value.chars()
        invariant
            it.seq() == value@,
            valid == forall|i: int| 0 <= i < it.index() ==> char_alphabetic(#[trigger] value@[i]),
    {
        if !c.is_alphabetic() {
            valid = false;
        }
    }
    check(valid, "alphabetic", "value must contain only letters")
}

/// Requires a text of letters and digits.
pub fn alphanumeric(value: &str) -> (r: Result<(), ValidationError>)
    ensures
        outcome(
            r,
            is_alphanumeric_text(value@),
            plain_violation("alphanumeric"@, "value must contain only letters or digits"@),
        ),
{
    let mut valid = true;
    for c in it: value.chars()
        invariant
            it.seq() == value@,
            valid == forall|i: int| 0 <= i < it.index() ==> char_alphanumeric(#[trigger] value@[i]),
    {
        if !c.is_alphanumeric() {
            valid = false;
        }
    }
    check(valid, "alphanumeric", "value must contain only letters or digits")
}

/// Requires a text of ASCII letters and digits.
pub fn ascii_alphanumeric(value: &str) -> (r: Result<(), ValidationError>)
    ensures
        outcome(
            r,
            forall|i: int|
                0 <= i < value@.len() ==> is_ascii_small(#[trigger] value@[i]) || is_ascii_capital(
                    value@[i],
                ) || is_ascii_digit(value@[i]),
            plain_violation(
                "ascii_alphanumeric"@,
                "value must contain only ASCII letters or digits"@,
            ),
        ),
{
    let mut valid = true;
    for c in it: value.chars()
        invariant
            it.seq() == value@,
            valid == forall|i: int|
                0 <= i < it.index() ==> is_ascii_small(#[trigger] value@[i]) || is_ascii_capital(
                    value@[i],
                ) || is_ascii_digit(value@[i]),
    {
        if !(('a' <= c && c <= 'z') || ('A' <= c && c <= 'Z') || ('0' <= c && c <= '9')) {
            valid = false;
        }
    }
    check(valid, "ascii_alphanumeric", "value must contain only ASCII letters or digits")
}

/// Requires a text of decimal digits.
pub fn numeric_text(value: &str) -> (r: Result<(), ValidationError>)
    ensures
        outcome(
            r,
            is_digit_text(value@),
            plain_violation("numeric_text"@, "value must contain only digits"@),
        ),
{
    let mut valid = true;
    for c in it: value.chars()
        invariant
            it.seq() == value@,
            valid == forall|i: int| 0 <= i < it.index() ==> is_ascii_digit(#[trigger] value@[i]),
    {
        if !('0' <= c && c <= '9') {
            valid = false;
        }
    }
    check(valid, "numeric_text", "value must contain only digits")
}

/// Requires a text of which every letter is small.
pub fn lowercase(value: &str) -> (r: Result<(), ValidationError>)
    ensures
        outcome(
            r,
            is_lowercase_text(value@),
            plain_violation("lowercase"@, "value must be lowercase"@),
        ),
{
    let mut valid = true;
    for c in it: value.chars()
        invariant
            it.seq() == value@,
            valid == forall|i: int|
                0 <= i < it.index() && char_alphabetic(#[trigger] value@[i]) ==> char_lowercase(
                    value@[i],
                ),
    {
        if c.is_alphabetic() && !c.is_lowercase() {
            valid = false;
        }
    }
    check(valid, "lowercase", "value must be lowercase")
}

/// Requires a text of which every letter is a capital.
pub fn uppercase(value: &str) -> (r: Result<(), ValidationError>)
    ensures
        outcome(
            r,
            is_uppercase_text(value@),
            plain_violation("uppercase"@, "value must be uppercase"@),
        ),
{
    let mut valid = true;
    for c in it: value.chars()
        invariant
            it.seq() == value@,
            valid == forall|i: int|
                0 <= i < it.index() && char_alphabetic(#[trigger] value@[i]) ==> char_uppercase(
                    value@[i],
                ),
    {
        if c.is_alphabetic() && !c.is_uppercase() {
            valid = false;
        }
    }
    check(valid, "uppercase", "value must be uppercase")
}

/// An alphabetic text is alphanumeric, and a text of digits is; a text that is not
/// empty is never both alphabetic and made of digits.
pub proof fn lemma_alphabetic_is_alphanumeric(text: Seq<char>)
    ensures
        is_alphabetic_text(text) ==> is_alphanumeric_text(text),
        is_digit_text(text) ==> is_alphanumeric_text(text),
        text.len() > 0 ==> !(is_alphabetic_text(text) && is_digit_text(text)),
{
    if text.len() > 0 && is_alphabetic_text(text) && is_digit_text(text) {
        assert(char_alphabetic(text[0]) && is_ascii_digit(text[0]));
    }
}

/// A text without letters passes both as small and as capital. A text passes as both
/// only where each of its letters has both properties; where no character has both,
/// as in ASCII, it passes as both exactly where it has no letter.
pub proof fn lemma_both_cases_only_without_letters(text: Seq<char>)
    ensures
        (forall|i: int| 0 <= i < text.len() ==> !char_alphabetic(#[trigger] text[i]))
            ==> is_lowercase_text(text) && is_uppercase_text(text),
        is_lowercase_text(text) && is_uppercase_text(text) ==> (forall|i: int|
            0 <= i < text.len() && char_alphabetic(#[trigger] text[i]) ==> char_lowercase(text[i])
                && char_uppercase(text[i]) && !is_ascii(text[i])),
        (forall|i: int|
            0 <= i < text.len() ==> !(char_lowercase(#[trigger] text[i]) && char_uppercase(
                text[i],
            ))) ==> (is_lowercase_text(text) && is_uppercase_text(text) <==> (forall|i: int|
            0 <= i < text.len() ==> !char_alphabetic(#[trigger] text[i]))),
{
}

/// Requires a collection with at least one item.
pub fn non_empty_vec<T>(value: &[T]) -> (r: Result<(), ValidationError>)
    ensures
        outcome(r, value@.len() > 0, plain_violation("not_empty"@, "collection cannot be empty"@)),
{
    check(value.len() > 0, "not_empty", "collection cannot be empty")
}

/// Requires a map with at least one entry.
pub fn non_empty_map<K, V, S>(value: &std::collections::HashMap<K, V, S>) -> (r: Result<
    (),
    ValidationError,
>)
    ensures
        outcome(r, !value@.is_empty(), plain_violation("not_empty"@, "map cannot be empty"@)),
{
    check(!value.is_empty(), "not_empty", "map cannot be empty")
}

/// Requires an integer above 0.
pub fn positive_i32(value: i32) -> (r: Result<(), ValidationError>)
    ensures
        outcome(r, value > 0, plain_violation("positive"@, "value must be greater than 0"@)),
{
    positive_i64(value as i64)
}

/// Requires an integer that is not below 0.
pub fn non_negative_i32(value: i32) -> (r: Result<(), ValidationError>)
    ensures
        outcome(
            r,
            value >= 0,
            plain_violation("non_negative"@, "value must be greater than or equal to 0"@),
        ),
{
    non_negative_i64(value as i64)
}

/// Requires an integer above 0.
pub fn positive_i64(value: i64) -> (r: Result<(), ValidationError>)
    ensures
        outcome(r, value > 0, plain_violation("positive"@, "value must be greater than 0"@)),
{
    check(value > 0, "positive", "value must be greater than 0")
}

/// Requires an integer that is not below 0.
pub fn non_negative_i64(value: i64) -> (r: Result<(), ValidationError>)
    ensures
        outcome(
            r,
            value >= 0,
            plain_violation("non_negative"@, "value must be greater than or equal to 0"@),
        ),
{
    check(value >= 0, "non_negative", "value must be greater than or equal to 0")
}

/// A violation with a message and parameters.
pub open spec fn violation(
    code: Seq<char>,
    message: Seq<char>,
    params: Seq<(Seq<char>, Tree)>,
) -> Violation {
    Violation { code, message: Some(message), params }
}

/// An integer that JSON can hold: from `i64::MIN` to `u64::MAX`.
pub open spec fn is_json_int(n: int) -> bool {
    i64::MIN <= n <= u64::MAX
}

fn int_json(n: i128) -> (r: Json)
    requires
        is_json_int(n as int),
    ensures
        r@ == Tree::Int(n as int),
{
    if n < 0 {
        Json::Signed(n as i64)
    } else {
        Json::Unsigned(n as u64)
    }
}

fn between(label: &str, min: &str, max: &str) -> (r: String)
    ensures
        r@ == label@ + min@ + " and "@ + max@,
{
    let mut r = label.to_owned();
    r.append(min);
    r.append(" and ");
    r.append(max);
    r
}

/// Parameter names are pairwise distinct.
proof fn lemma_param_names()
    ensures
        "min"@ != "max"@,
        "min"@ != "actual"@,
        "max"@ != "actual"@,
{
    reveal_strlit("min");
    reveal_strlit("max");
    reveal_strlit("actual");
    assert("min"@[1] == 'i');
    assert("max"@[1] == 'a');
    assert("actual"@[0] == 'a');
    assert("min"@[0] == 'm');
    assert("max"@[0] == 'm');
}

/// Requires a text of at least `min` characters.
pub fn min_length(value: &str, min: usize) -> (r: Result<(), ValidationError>)
    ensures
        outcome(
            r,
            value@.len() >= min,
            violation(
                "min_length"@,
                "length must be at least "@ + text::decimal(min as nat),
                seq![
                    ("min"@, Tree::Int(min as int)),
                    ("actual"@, Tree::Int(value@.len() as int)),
                ],
            ),
        ),
{
    let len: usize = value.unicode_len();
    if len < min {
        let message = join("length must be at least ", decimal_text(min as u128).as_str());
        let mut params = JsonMap::new();
        params.insert("min".to_owned(), Json::Unsigned(min as u64));
        params.insert("actual".to_owned(), Json::Unsigned(len as u64));
        proof {
            lemma_param_names();
            assert(params@ =~= seq![
                ("min"@, Tree::Int(min as int)),
                ("actual"@, Tree::Int(value@.len() as int)),
            ]);
        }
        Err(ValidationError { code: "min_length".to_owned(), message: Some(message), params })
    } else {
        Ok(())
    }
}

/// Requires a text of at most `max` characters.
pub fn max_length(value: &str, max: usize) -> (r: Result<(), ValidationError>)
    ensures
        outcome(
            r,
            value@.len() <= max,
            violation(
                "max_length"@,
                "length must be at most "@ + text::decimal(max as nat),
                seq![
                    ("max"@, Tree::Int(max as int)),
                    ("actual"@, Tree::Int(value@.len() as int)),
                ],
            ),
        ),
{
    let len: usize = value.unicode_len();
    if len > max {
        let message = join("length must be at most ", decimal_text(max as u128).as_str());
        let mut params = JsonMap::new();
        params.insert("max".to_owned(), Json::Unsigned(max as u64));
        params.insert("actual".to_owned(), Json::Unsigned(len as u64));
        proof {
            lemma_param_names();
            assert(params@ =~= seq![
                ("max"@, Tree::Int(max as int)),
                ("actual"@, Tree::Int(value@.len() as int)),
            ]);
        }
        Err(ValidationError { code: "max_length".to_owned(), message: Some(message), params })
    } else {
        Ok(())
    }
}

/// Requires a text of `min` to `max` characters.
pub fn length_range(value: &str, min: usize, max: usize) -> (r: Result<(), ValidationError>)
    ensures
        outcome(
            r,
            min <= value@.len() <= max,
            violation(
                "length_range"@,
                "length must be between "@ + text::decimal(min as nat) + " and "@ + text::decimal(
                    max as nat,
                ),
                seq![
                    ("min"@, Tree::Int(min as int)),
                    ("max"@, Tree::Int(max as int)),
                    ("actual"@, Tree::Int(value@.len() as int)),
                ],
            ),
        ),
{
    let len: usize = value.unicode_len();
    if len < min || len > max {
        let message = between(
            "length must be between ",
            decimal_text(min as u128).as_str(),
            decimal_text(max as u128).as_str(),
        );
        let mut params = JsonMap::new();
        params.insert("min".to_owned(), Json::Unsigned(min as u64));
        params.insert("max".to_owned(), Json::Unsigned(max as u64));
        params.insert("actual".to_owned(), Json::Unsigned(len as u64));
        proof {
            lemma_param_names();
            assert(params@ =~= seq![
                ("min"@, Tree::Int(min as int)),
                ("max"@, Tree::Int(max as int)),
                ("actual"@, Tree::Int(value@.len() as int)),
            ]);
        }
        Err(ValidationError { code: "length_range".to_owned(), message: Some(message), params })
    } else {
        Ok(())
    }
}

/// The text holds the needle somewhere.
pub open spec fn has_part(value: Seq<char>, needle: Seq<char>) -> bool {
    exists|i: int|
        0 <= i <= value.len() - needle.len() && #[trigger] value.subrange(
            i,
            i + needle.len(),
        ) == needle
}

/// `str::contains` of `std` with a string: whether it is part of the text.
#[verifier::external_body]
fn text_contains(value: &str, needle: &str) -> (r: bool)
    ensures
        r == has_part(value@, needle@),
{
    value.contains(needle)
}

/// Requires a text that holds `needle`.
pub fn contains(value: &str, needle: &str, code: &str) -> (r: Result<(), ValidationError>)
    ensures
        outcome(
            r,
            has_part(value@, needle@),
            plain_violation(code@, "value must contain "@ + needle@),
        ),
{
    check(
        text_contains(value, needle),
        code,
        join("value must contain ", needle).as_str(),
    )
}

/// Requires a text that does not hold `needle`.
pub fn not_contains(value: &str, needle: &str, code: &str) -> (r: Result<(), ValidationError>)
    ensures
        outcome(
            r,
            !has_part(value@, needle@),
            plain_violation(code@, "value cannot contain "@ + needle@),
        ),
{
    check(
        !text_contains(value, needle),
        code,
        join("value cannot contain ", needle).as_str(),
    )
}

/// The texts of some string slices in their `Debug` form, with commas between.
pub open spec fn debug_items(values: Seq<&str>) -> Seq<char>
    decreases values.len(),
{
    if values.len() == 0 {
        Seq::empty()
    } else if values.len() == 1 {
        text::debug_str(values[0]@)
    } else {
        debug_items(values.drop_last()) + ", "@ + text::debug_str(values.last()@)
    }
}

/// The `Debug` form of a list of texts.
pub open spec fn debug_list(values: Seq<&str>) -> Seq<char> {
    "["@ + debug_items(values) + "]"@
}

/// Writes a list of texts in its `Debug` form.
fn debug_list_text(values: &[&str]) -> (r: String)
    ensures
        r@ == debug_list(values@),
{
    let mut items = String::new();
    let mut i: usize = 0;
    proof {
        assert(debug_items(values@.take(0)) =~= items@);
    }
    while i < values.len()
        invariant
            i <= values@.len(),
            items@ == debug_items(values@.take(i as int)),
        decreases values.len() - i,
    {
        if i > 0 {
            items.append(", ");
        }
        items.append(debug_text(values[i]).as_str());
        proof {
            let next = values@.take(i + 1);
            assert(next.drop_last() =~= values@.take(i as int));
            assert(next.last() == values@[i as int]);
            if i == 0 {
                assert(items@ =~= text::debug_str(values@[0]@));
                assert(next[0] == values@[0]);
            }
        }
        i += 1;
    }
    proof {
        assert(values@.take(i as int) =~= values@);
    }
    let mut r = "[".to_owned();
    r.append(items.as_str());
    r.append("]");
    r
}

/// Requires a text that is one of `allowed`.
pub fn one_of(value: &str, allowed: &[&str], code: &str) -> (r: Result<(), ValidationError>)
    ensures
        outcome(
            r,
            exists|i: int| 0 <= i < allowed@.len() && (#[trigger] allowed@[i])@ == value@,
            plain_violation(code@, "value must be one of "@ + debug_list(allowed@)),
        ),
{
    let mut i: usize = 0;
    while i < allowed.len()
        invariant
            i <= allowed@.len(),
            forall|j: int| 0 <= j < i ==> (#[trigger] allowed@[j])@ != value@,
        decreases allowed.len() - i,
    {
        if text_eq(allowed[i], value) {
            return Ok(());
        }
        i += 1;
    }
    Err(simple_error(code, join("value must be one of ", debug_list_text(allowed).as_str()).as_str()))
}

/// Requires an integer of at least `min`.
pub fn numeric_min(value: i128, min: i128) -> (r: Result<(), ValidationError>)
    requires
        is_json_int(min as int),
    ensures
        outcome(
            r,
            value >= min,
            violation(
                "min"@,
                "value must be greater than or equal to "@ + text::signed_decimal(min as int),
                seq![("min"@, Tree::Int(min as int))],
            ),
        ),
{
    if value < min {
        let message = join(
            "value must be greater than or equal to ",
            signed_decimal_text(min).as_str(),
        );
        let mut params = JsonMap::new();
        params.insert("min".to_owned(), int_json(min));
        proof {
            assert(params@ =~= seq![("min"@, Tree::Int(min as int))]);
        }
        Err(ValidationError { code: "min".to_owned(), message: Some(message), params })
    } else {
        Ok(())
    }
}

/// Requires an integer of at most `max`.
pub fn numeric_max(value: i128, max: i128) -> (r: Result<(), ValidationError>)
    requires
        is_json_int(max as int),
    ensures
        outcome(
            r,
            value <= max,
            violation(
                "max"@,
                "value must be less than or equal to "@ + text::signed_decimal(max as int),
                seq![("max"@, Tree::Int(max as int))],
            ),
        ),
{
    if value > max {
        let message = join(
            "value must be less than or equal to ",
            signed_decimal_text(max).as_str(),
        );
        let mut params = JsonMap::new();
        params.insert("max".to_owned(), int_json(max));
        proof {
            assert(params@ =~= seq![("max"@, Tree::Int(max as int))]);
        }
        Err(ValidationError { code: "max".to_owned(), message: Some(message), params })
    } else {
        Ok(())
    }
}

/// Requires an integer from `min` to `max`.
pub fn numeric_range(value: i128, min: i128, max: i128) -> (r: Result<(), ValidationError>)
    requires
        is_json_int(min as int),
        is_json_int(max as int),
    ensures
        outcome(
            r,
            min <= value <= max,
            violation(
                "range"@,
                "value must be between "@ + text::signed_decimal(min as int) + " and "@
                    + text::signed_decimal(max as int),
                seq![("min"@, Tree::Int(min as int)), ("max"@, Tree::Int(max as int))],
            ),
        ),
{
    if value < min || value > max {
        let message = between(
            "value must be between ",
            signed_decimal_text(min).as_str(),
            signed_decimal_text(max).as_str(),
        );
        let mut params = JsonMap::new();
        params.insert("min".to_owned(), int_json(min));
        params.insert("max".to_owned(), int_json(max));
        proof {
            lemma_param_names();
            assert(params@ =~= seq![
                ("min"@, Tree::Int(min as int)),
                ("max"@, Tree::Int(max as int)),
            ]);
        }
        Err(ValidationError { code: "range".to_owned(), message: Some(message), params })
    } else {
        Ok(())
    }
}

/// `regex::Regex`, a compiled pattern.
#[verifier::external_type_specification]
#[verifier::external_body]
pub struct ExRegex(regex::Regex);

/// The pattern that a regular expression was compiled from.
pub uninterp spec fn pattern_of(regex: regex::Regex) -> Seq<char>;

/// Whether `regex` accepts a pattern.
pub uninterp spec fn is_pattern(pattern: Seq<char>) -> bool;

/// Whether a pattern that `regex` accepts matches somewhere in a text.
pub uninterp spec fn pattern_matches(pattern: Seq<char>, value: Seq<char>) -> bool;

/// `Regex::new`: compiles a pattern, where `regex` accepts it.
#[verifier::external_body]
fn compile(pattern: &str) -> (r: Option<regex::Regex>)
    ensures
        r is Some == is_pattern(pattern@),
        r matches Some(regex) ==> pattern_of(regex) == pattern@,
{
    regex::Regex::new(pattern).ok()
}

/// `Regex::is_match`: whether the pattern matches somewhere in the text, a function
/// of the two.
#[verifier::external_body]
fn regex_is_match(regex: &regex::Regex, value: &str) -> (r: bool)
    ensures
        r == pattern_matches(pattern_of(*regex), value@),
{
    regex.is_match(value)
}

/// Requires texts that match a pattern, which is compiled once.
pub struct RegexValidator {
    regex: regex::Regex,
    pattern: String,
    code: String,
}

impl RegexValidator {
    /// The pattern of the validator.
    pub closed spec fn pattern(self) -> Seq<char> {
        self.pattern@
    }

    /// The code of its errors.
    pub closed spec fn code(self) -> Seq<char> {
        self.code@
    }

    #[verifier::type_invariant]
    spec fn well_formed(self) -> bool {
        pattern_of(self.regex) == self.pattern@
    }

    /// A validator for `pattern`, where that is a regular expression.
    pub fn new(pattern: &str, code: &str) -> (r: Option<Self>)
        ensures
            r is Some == is_pattern(pattern@),
            r matches Some(validator) ==> {
                &&& validator.pattern() == pattern@
                &&& validator.code() == code@
            },
    {
        match compile(pattern) {
            Some(regex) => Some(
                RegexValidator { regex, pattern: pattern.to_owned(), code: code.to_owned() },
            ),
            None => None,
        }
    }

    /// Requires a text that the pattern matches.
    pub fn validate(&self, value: &str) -> (r: Result<(), ValidationError>)
        ensures
            outcome(
                r,
                pattern_matches(self.pattern(), value@),
                plain_violation(
                    self.code(),
                    "value does not match pattern "@ + self.pattern(),
                ),
            ),
    {
        proof {
            use_type_invariant(self);
        }
        regex_outcome(
            regex_is_match(&self.regex, value),
            self.pattern.as_str(),
            self.code.as_str(),
        )
    }
}

/// The outcome of a pattern's validation, given whether the pattern matched.
pub fn regex_outcome(matched: bool, pattern: &str, code: &str) -> (r: Result<(), ValidationError>)
    ensures
        outcome(
            r,
            matched,
            plain_violation(code@, "value does not match pattern "@ + pattern@),
        ),
{
    check(matched, code, join("value does not match pattern ", pattern).as_str())
}

impl Violation {
    /// The JSON form of a violation.
    pub open spec fn tree(self) -> Tree {
        Tree::Object(
            seq![
                ("code"@, Tree::Text(self.code)),
                (
                    "message"@,
                    match self.message {
                        Some(message) => Tree::Text(message),
                        None => Tree::Null,
                    },
                ),
                ("params"@, Tree::Object(self.params)),
            ],
        )
    }
}

/// The JSON form of the errors of a value: an object with a member for each field.
pub open spec fn details(errors: ValidationErrors) -> Tree
    decreases errors,
{
    Tree::Object(json::collapse(field_details(errors.fields@)))
}

/// The members for the fields.
pub open spec fn field_details(fields: Seq<(String, ValidationErrorsKind)>) -> Seq<
    (Seq<char>, Tree),
>
    decreases fields,
{
    if fields.len() == 0 {
        Seq::empty()
    } else {
        field_details(fields.drop_last()).push((fields.last().0@, kind_details(fields.last().1)))
    }
}

/// The JSON form of the errors of one field: an array of violations, an object with
/// a member for each index of a list, or the form of a nested structure.
pub open spec fn kind_details(kind: ValidationErrorsKind) -> Tree
    decreases kind,
{
    match kind {
        ValidationErrorsKind::Field(errors) => Tree::Array(
            Seq::new(errors@.len(), |i: int| errors@[i]@.tree()),
        ),
        ValidationErrorsKind::List(items) => Tree::Object(json::collapse(item_details(items@))),
        ValidationErrorsKind::Struct(nested) => details(*nested),
    }
}

/// The members for the items of a list.
pub open spec fn item_details(items: Seq<(usize, ValidationErrors)>) -> Seq<(Seq<char>, Tree)>
    decreases items,
{
    if items.len() == 0 {
        Seq::empty()
    } else {
        item_details(items.drop_last()).push(
            (text::decimal(items.last().0 as nat), details(items.last().1)),
        )
    }
}

impl ValidationError {
    /// The error's JSON form.
    pub fn to_json(&self) -> (r: Json)
        ensures
            r@ == self@.tree(),
    {
        let mut members: Vec<(String, Json)> = Vec::with_capacity(3);
        members.push(("code".to_owned(), Json::String(self.code.clone())));
        let message = match &self.message {
            Some(message) => Json::String(message.clone()),
            None => Json::Null,
        };
        members.push(("message".to_owned(), message));
        members.push(("params".to_owned(), Json::Object(self.params.clone())));
        proof {
            reveal_strlit("code");
            reveal_strlit("message");
            reveal_strlit("params");
            assert("code"@[0] == 'c');
            assert("message"@[0] == 'm');
            assert("params"@[0] == 'p');
            let expected = self@.tree()->Object_0;
            json::lemma_pair_trees(members@);
            assert(json::pair_trees(members@) =~= expected);
            assert(json::distinct_keys(expected));
            json::lemma_collapse_same(expected);
        }
        Json::Object(JsonMap { members })
    }
}

proof fn lemma_field_details(fields: Seq<(String, ValidationErrorsKind)>)
    ensures
        field_details(fields).len() == fields.len(),
        forall|i: int|
            0 <= i < fields.len() ==> #[trigger] field_details(fields)[i] == (
                fields[i].0@,
                kind_details(fields[i].1),
            ),
    decreases fields.len(),
{
    if fields.len() > 0 {
        lemma_field_details(fields.drop_last());
        assert forall|i: int| 0 <= i < fields.len() implies #[trigger] field_details(fields)[i] == (
            fields[i].0@,
            kind_details(fields[i].1),
        ) by {
            if i < fields.len() - 1 {
                assert(field_details(fields.drop_last())[i] == (
                    fields.drop_last()[i].0@,
                    kind_details(fields.drop_last()[i].1),
                ));
            }
        }
    }
}

proof fn lemma_item_details(items: Seq<(usize, ValidationErrors)>)
    ensures
        item_details(items).len() == items.len(),
        forall|i: int|
            0 <= i < items.len() ==> #[trigger] item_details(items)[i] == (
                text::decimal(items[i].0 as nat),
                details(items[i].1),
            ),
    decreases items.len(),
{
    if items.len() > 0 {
        lemma_item_details(items.drop_last());
        assert forall|i: int| 0 <= i < items.len() implies #[trigger] item_details(items)[i] == (
            text::decimal(items[i].0 as nat),
            details(items[i].1),
        ) by {
            if i < items.len() - 1 {
                assert(item_details(items.drop_last())[i] == (
                    text::decimal(items.drop_last()[i].0 as nat),
                    details(items.drop_last()[i].1),
                ));
            }
        }
    }
}

/// The JSON form of the errors of a value: an object with a member for each field.
pub fn errors_to_details(errors: &ValidationErrors) -> (r: Json)
    ensures
        r@ == details(*errors),
    decreases errors,
{
    let mut members: Vec<(String, Json)> = Vec::with_capacity(errors.fields.len());
    let mut i: usize = 0;
    while i < errors.fields.len()
        invariant
            i <= errors.fields@.len(),
            members@.len() == i,
            forall|j: int|
                0 <= j < i ==> (#[trigger] members@[j]).0@ == errors.fields@[j].0@
                    && members@[j].1@ == kind_details(errors.fields@[j].1),
        decreases errors.fields.len() - i,
    {
        assert(decreases_to!(errors => errors.fields));
        assert(decreases_to!(errors.fields => errors.fields@));
        assert(decreases_to!(errors.fields@ => errors.fields@[i as int]));
        assert(decreases_to!(errors.fields@[i as int] => errors.fields@[i as int].1));
        let field = &errors.fields[i];
        members.push((field.0.clone(), error_kind_to_value(&field.1)));
        i += 1;
    }
    proof {
        lemma_field_details(errors.fields@);
        json::lemma_pair_trees(members@);
        assert(json::pair_trees(members@) =~= field_details(errors.fields@));
    }
    Json::Object(JsonMap { members })
}

fn error_kind_to_value(kind: &ValidationErrorsKind) -> (r: Json)
    ensures
        r@ == kind_details(*kind),
    decreases kind,
{
    match kind {
        ValidationErrorsKind::Field(errors) => {
            let mut items: Vec<Json> = Vec::with_capacity(errors.len());
            let mut i: usize = 0;
            while i < errors.len()
                invariant
                    i <= errors@.len(),
                    items@.len() == i,
                    forall|j: int| 0 <= j < i ==> (#[trigger] items@[j])@ == errors@[j]@.tree(),
                decreases errors.len() - i,
            {
                items.push(errors[i].to_json());
                i += 1;
            }
            proof {
                json::lemma_item_trees(items@);
                assert(json::item_trees(items@) =~= kind_details(*kind)->Array_0);
            }
            Json::Array(items)
        },
        ValidationErrorsKind::List(items) => {
            let mut members: Vec<(String, Json)> = Vec::with_capacity(items.len());
            let mut i: usize = 0;
            while i < items.len()
                invariant
                    i <= items@.len(),
                    members@.len() == i,
                    kind == ValidationErrorsKind::List(*items),
                    forall|j: int|
                        0 <= j < i ==> (#[trigger] members@[j]).0@ == text::decimal(
                            items@[j].0 as nat,
                        ) && members@[j].1@ == details(items@[j].1),
                decreases items.len() - i,
            {
                assert(decreases_to!(kind => kind->List_0));
                assert(decreases_to!(kind->List_0 => items@));
                assert(decreases_to!(items@ => items@[i as int]));
                assert(decreases_to!(items@[i as int] => items@[i as int].1));
                let item = &items[i];
                members.push((decimal_text(item.0 as u128), errors_to_details(&item.1)));
                i += 1;
            }
            proof {
                lemma_item_details(items@);
                json::lemma_pair_trees(members@);
                assert(json::pair_trees(members@) =~= item_details(items@));
            }
            Json::Object(JsonMap { members })
        },
        ValidationErrorsKind::Struct(nested) => errors_to_details(nested),
    }
}

} // verus!
