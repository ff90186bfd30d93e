//! Text helpers: equality of strings and decimal numerals.
use vstd::prelude::*;

verus! {

/// The decimal digit with value `d`.
pub open spec fn digit(d: nat) -> char {
    ((d + 48) as u8) as char
}

/// The decimal numeral of `n`, without leading zeros.
pub open spec fn decimal(n: nat) -> Seq<char>
    decreases n,
{
    if n < 10 {
        seq![digit(n)]
    } else {
        decimal(n / 10).push(digit(n % 10))
    }
}

/// The decimal numeral of an integer, with a minus sign where it is negative.
pub open spec fn signed_decimal(n: int) -> Seq<char> {
    if n < 0 {
        seq!['-'] + decimal((-n) as nat)
    } else {
        decimal(n as nat)
    }
}

/// The texts of some strings.
pub open spec fn views(strings: Seq<String>) -> Seq<Seq<char>> {
    Seq::new(strings.len(), |i: int| strings[i]@)
}

/// `std`'s `==` on `str`: true exactly when both hold the same characters.
#[verifier::external_body]
pub(crate) fn text_eq(a: &str, b: &str) -> (same: bool)
    ensures
        same == (a@ == b@),
{
    a == b
}

/// `String::push` of `std`: appends one character.
#[verifier::external_body]
pub(crate) fn push_char(text: &mut String, c: char)
    ensures
        final(text)@ == old(text)@.push(c),
{
    text.push(c)
}

/// Writes `n` as a decimal numeral.
pub fn decimal_text(n: u128) -> (text: String)
    ensures
        text@ == decimal(n as nat),
    decreases n,
{
    let last: u8 = (n % 10) as u8 + 48;
    let mut text = if n < 10 {
        String::new()
    } else {
        decimal_text(n / 10)
    };
    push_char(&mut text, last as char);
    text
}

/// Writes `n` as a decimal numeral, with a minus sign where it is negative.
pub fn signed_decimal_text(n: i128) -> (text: String)
    requires
        n > i128::MIN,
    ensures
        text@ == signed_decimal(n as int),
{
    if n < 0 {
        let mut text = String::new();
        push_char(&mut text, '-');
        text.append(decimal_text((-n) as u128).as_str());
        text
    } else {
        decimal_text(n as u128)
    }
}

/// The `Debug` form of a string: quoted, with special characters escaped.
pub uninterp spec fn debug_str(text: Seq<char>) -> Seq<char>;

/// The `Debug` format of `std` for a `str`, which is a function of the text.
#[verifier::external_body]
pub(crate) fn debug_text(text: &str) -> (r: String)
    ensures
        r@ == debug_str(text@),
{
    format!("{text:?}")
}

/// Joins two texts.
pub(crate) fn join(first: &str, second: &str) -> (r: String)
    ensures
        r@ == first@ + second@,
{
    let mut r = first.to_owned();
    r.append(second);
    r
}

} // verus!
