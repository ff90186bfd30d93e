//! What is said of a JSON value that is not of the expected form.
//!
//! The texts are those of the errors that `serde_json` makes for `serde`'s data
//! model.
use crate::json;
use crate::json::{Json, JsonMap, Tree};
use crate::text;
use crate::text::text_eq;
use vstd::prelude::*;

verus! {

/// What was found in place of the expected.
pub enum Found<'a> {
    Null,
    Bool(bool),
    Unsigned(u64),
    Signed(i64),
    Float(&'a serde_json::Number),
    Text(&'a str),
    Sequence,
    Members,
}

/// The numeral that stands for a float in an error text.
pub uninterp spec fn float_text(n: serde_json::Number) -> Seq<char>;

/// The description of a value.
pub open spec fn described(tree: Tree) -> Seq<char> {
    match tree {
        Tree::Null => "null"@,
        Tree::Bool(true) => "boolean `true`"@,
        Tree::Bool(false) => "boolean `false`"@,
        Tree::Int(i) => "integer `"@ + text::signed_decimal(i) + "`"@,
        Tree::Float(n) => "floating point `"@ + float_text(n) + "`"@,
        Tree::Text(found) => "string "@ + text::debug_str(found),
        Tree::Array(_) => "sequence"@,
        Tree::Object(_) => "map"@,
    }
}

impl<'a> Found<'a> {
    /// The description of what was found.
    pub open spec fn described(self) -> Seq<char> {
        match self {
            Found::Null => "null"@,
            Found::Bool(true) => "boolean `true`"@,
            Found::Bool(false) => "boolean `false`"@,
            Found::Unsigned(u) => "integer `"@ + text::decimal(u as nat) + "`"@,
            Found::Signed(i) => "integer `"@ + text::signed_decimal(i as int) + "`"@,
            Found::Float(n) => "floating point `"@ + float_text(*n) + "`"@,
            Found::Text(found) => "string "@ + text::debug_str(found@),
            Found::Sequence => "sequence"@,
            Found::Members => "map"@,
        }
    }
}

/// The error text for a value of the wrong type.
pub open spec fn type_error_text(tree: Tree, expected: Seq<char>) -> Seq<char> {
    "invalid type: "@ + described(tree) + ", expected "@ + expected
}

/// The error text for a value of the right type that is not accepted.
pub open spec fn value_error_text(tree: Tree, expected: Seq<char>) -> Seq<char> {
    "invalid value: "@ + described(tree) + ", expected "@ + expected
}

/// The error text for a sequence of the wrong length.
pub open spec fn length_error_text(len: nat, expected: Seq<char>) -> Seq<char> {
    "invalid length "@ + text::decimal(len) + ", expected "@ + expected
}

/// The error text for a field that is not there.
pub open spec fn missing_field_text(field: Seq<char>) -> Seq<char> {
    "missing field `"@ + field + "`"@
}

/// Some names, each quoted, with commas between them.
pub open spec fn listed(names: Seq<&str>) -> Seq<char>
    decreases names.len(),
{
    if names.len() == 0 {
        Seq::empty()
    } else if names.len() == 1 {
        "`"@ + names[0]@ + "`"@
    } else {
        listed(names.drop_last()) + ", `"@ + names.last()@ + "`"@
    }
}

/// The names that were expected, as an error text puts it.
pub open spec fn one_of(names: Seq<&str>) -> Seq<char> {
    if names.len() == 2 {
        "`"@ + names[0]@ + "` or `"@ + names[1]@ + "`"@
    } else if names.len() > 2 {
        "one of "@ + listed(names)
    } else {
        listed(names)
    }
}

/// The error text for a field of another name.
pub open spec fn unknown_field_text(field: Seq<char>, expected: Seq<&str>) -> Seq<char> {
    "unknown field `"@ + field + "`, expected "@ + one_of(expected)
}

/// The error text for a variant of another name.
pub open spec fn unknown_variant_text(variant: Seq<char>, expected: Seq<&str>) -> Seq<char> {
    "unknown variant `"@ + variant + "`, expected "@ + one_of(expected)
}

/// No error text that ends so ends in a line and a column, which `serde_json` would
/// take for a position: the end is no digit, or it is too short.
pub open spec fn has_no_position(end: Seq<char>) -> bool {
    end.len() <= 3 || !('0' <= end.last() <= '9')
}

/// `serde::de::Error::invalid_type` of `serde_json::Error`: its text tells what was
/// found and what was expected.
#[verifier::external_body]
fn type_error(found: Found, expected: &str) -> (r: String)
    requires
        has_no_position(expected@),
    ensures
        r@ == "invalid type: "@ + found.described() + ", expected "@ + expected@,
        found matches Found::Float(n) ==> r@ == "invalid type: floating point `"@ + float_text(*n)
            + "`, expected "@ + expected@,
{
    let unexpected = match found {
        Found::Null => serde::de::Unexpected::Unit,
        Found::Bool(b) => serde::de::Unexpected::Bool(b),
        Found::Unsigned(u) => serde::de::Unexpected::Unsigned(u),
        Found::Signed(i) => serde::de::Unexpected::Signed(i),
        Found::Float(n) => serde::de::Unexpected::Float(n.as_f64().expect("a number")),
        Found::Text(s) => serde::de::Unexpected::Str(s),
        Found::Sequence => serde::de::Unexpected::Seq,
        Found::Members => serde::de::Unexpected::Map,
    };
    <serde_json::Error as serde::de::Error>::invalid_type(unexpected, &expected).to_string()
}

/// `serde::de::Error::invalid_value` of `serde_json::Error`: its text tells what was
/// found and what was expected.
#[verifier::external_body]
fn value_error(found: Found, expected: &str) -> (r: String)
    requires
        has_no_position(expected@),
    ensures
        r@ == "invalid value: "@ + found.described() + ", expected "@ + expected@,
{
    let unexpected = match found {
        Found::Null => serde::de::Unexpected::Unit,
        Found::Bool(b) => serde::de::Unexpected::Bool(b),
        Found::Unsigned(u) => serde::de::Unexpected::Unsigned(u),
        Found::Signed(i) => serde::de::Unexpected::Signed(i),
        Found::Float(n) => serde::de::Unexpected::Float(n.as_f64().expect("a number")),
        Found::Text(s) => serde::de::Unexpected::Str(s),
        Found::Sequence => serde::de::Unexpected::Seq,
        Found::Members => serde::de::Unexpected::Map,
    };
    <serde_json::Error as serde::de::Error>::invalid_value(unexpected, &expected).to_string()
}

/// `serde::de::Error::invalid_length` of `serde_json::Error`: its text tells the
/// length and what was expected.
#[verifier::external_body]
pub(crate) fn length_error(len: usize, expected: &str) -> (r: String)
    requires
        has_no_position(expected@),
    ensures
        r@ == "invalid length "@ + text::decimal(len as nat) + ", expected "@ + expected@,
{
    <serde_json::Error as serde::de::Error>::invalid_length(len, &expected).to_string()
}

/// `serde::de::Error::missing_field` of `serde_json::Error`: its text tells the
/// field.
#[verifier::external_body]
pub(crate) fn missing_field(field: &'static str) -> (r: String)
    ensures
        r@ == "missing field `"@ + field@ + "`"@,
{
    <serde_json::Error as serde::de::Error>::missing_field(field).to_string()
}

/// `serde::de::Error::unknown_field` of `serde_json::Error`: its text tells the field
/// and those that were expected.
#[verifier::external_body]
pub(crate) fn unknown_field(field: &str, expected: &'static [&'static str]) -> (r: String)
    requires
        expected@.len() > 0,
    ensures
        r@ == "unknown field `"@ + field@ + "`, expected "@ + one_of(expected@),
{
    <serde_json::Error as serde::de::Error>::unknown_field(field, expected).to_string()
}

/// `serde::de::Error::unknown_variant` of `serde_json::Error`: its text tells the
/// variant and those that were expected.
#[verifier::external_body]
pub(crate) fn unknown_variant(variant: &str, expected: &'static [&'static str]) -> (r: String)
    requires
        expected@.len() > 0,
    ensures
        r@ == "unknown variant `"@ + variant@ + "`, expected "@ + one_of(expected@),
{
    <serde_json::Error as serde::de::Error>::unknown_variant(variant, expected).to_string()
}

/// What a value is found to be.
fn found(value: &Json) -> (r: Found)
    ensures
        r.described() == described(value@),
{
    match value {
        Json::Null => Found::Null,
        Json::Bool(b) => Found::Bool(*b),
        Json::Unsigned(u) => Found::Unsigned(*u),
        Json::Signed(i) => Found::Signed(*i),
        Json::Float(n) => {
            if let Some(u) = n.as_u64() {
                Found::Unsigned(u)
            } else if let Some(i) = n.as_i64() {
                Found::Signed(i)
            } else {
                Found::Float(n)
            }
        },
        Json::String(s) => Found::Text(s.as_str()),
        Json::Array(_) => Found::Sequence,
        Json::Object(_) => Found::Members,
    }
}

/// Says that a value is of the wrong type.
pub(crate) fn wrong_type(value: &Json, expected: &str) -> (r: String)
    requires
        has_no_position(expected@),
    ensures
        r@ == type_error_text(value@, expected@),
{
    type_error(found(value), expected)
}

/// Says that a value is not accepted.
pub(crate) fn wrong_value(value: &Json, expected: &str) -> (r: String)
    requires
        has_no_position(expected@),
    ensures
        r@ == value_error_text(value@, expected@),
{
    value_error(found(value), expected)
}

/// The text that an optional string holds.
pub open spec fn optional_text(text: Option<String>) -> Option<Seq<char>> {
    match text {
        Some(text) => Some(text@),
        None => None,
    }
}

/// The first fault that is found in some members, looked at in their order: `fault`
/// tells what is wrong with the value at a key.
pub open spec fn first_fault(
    members: Seq<(Seq<char>, Tree)>,
    fault: spec_fn(Seq<char>, Tree) -> Option<Seq<char>>,
) -> Option<Seq<char>>
    decreases members.len(),
{
    if members.len() == 0 {
        None
    } else {
        match first_fault(members.drop_last(), fault) {
            Some(reason) => Some(reason),
            None => fault(members.last().0, members.last().1),
        }
    }
}

/// What has a fault before some more members has it with them.
proof fn lemma_fault_stays(
    members: Seq<(Seq<char>, Tree)>,
    fault: spec_fn(Seq<char>, Tree) -> Option<Seq<char>>,
    n: int,
)
    requires
        0 <= n <= members.len(),
        first_fault(members.take(n), fault) is Some,
    ensures
        first_fault(members, fault) == first_fault(members.take(n), fault),
    decreases members.len(),
{
    if n < members.len() {
        assert(members.drop_last().take(n) =~= members.take(n));
        lemma_fault_stays(members.drop_last(), fault, n);
    } else {
        assert(members.take(n) =~= members);
    }
}

/// Members without a fault have none at any key.
pub proof fn lemma_no_fault(
    members: Seq<(Seq<char>, Tree)>,
    fault: spec_fn(Seq<char>, Tree) -> Option<Seq<char>>,
    key: Seq<char>,
)
    requires
        first_fault(members, fault) is None,
    ensures
        json::member(members, key) matches Some(value) ==> fault(key, value) is None,
    decreases members.len(),
{
    if members.len() > 0 && members.last().0 != key {
        lemma_no_fault(members.drop_last(), fault, key);
    }
}

/// Members of which none has a fault have no first one.
pub proof fn lemma_faultless(
    members: Seq<(Seq<char>, Tree)>,
    fault: spec_fn(Seq<char>, Tree) -> Option<Seq<char>>,
)
    requires
        forall|i: int|
            0 <= i < members.len() ==> fault((#[trigger] members[i]).0, members[i].1) is None,
    ensures
        first_fault(members, fault) is None,
    decreases members.len(),
{
    if members.len() > 0 {
        assert(members[members.len() - 1] == members.last());
        assert forall|i: int| 0 <= i < members.drop_last().len() implies fault(
            (#[trigger] members.drop_last()[i]).0,
            members.drop_last()[i].1,
        ) is None by {
            assert(members.drop_last()[i] == members[i]);
        }
        lemma_faultless(members.drop_last(), fault);
    }
}

/// Looks for the first fault in some members.
pub(crate) fn find_fault<F: Fn(&str, &Json) -> Option<String>>(
    map: &JsonMap,
    check: F,
    Ghost(fault): Ghost<spec_fn(Seq<char>, Tree) -> Option<Seq<char>>>,
) -> (r: Option<String>)
    requires
        json::pair_trees(map.members@) == map@,
        forall|key: &str, value: &Json| call_requires(check, (key, value)),
        forall|key: &str, value: &Json, reason: Option<String>|
            call_ensures(check, (key, value), reason) ==> optional_text(reason) == fault(
                key@,
                value@,
            ),
    ensures
        optional_text(r) == first_fault(map@, fault),
{
    let mut i: usize = 0;
    proof {
        json::lemma_pair_trees(map.members@);
        assert(map@.take(0) =~= Seq::empty());
    }
    while i < map.members.len()
        invariant
            i <= map.members@.len(),
            map@.len() == map.members@.len(),
            forall|j: int|
                0 <= j < map.members@.len() ==> #[trigger] map@[j] == (
                    map.members@[j].0@,
                    map.members@[j].1@,
                ),
            first_fault(map@.take(i as int), fault) is None,
            forall|key: &str, value: &Json| call_requires(check, (key, value)),
            forall|key: &str, value: &Json, reason: Option<String>|
                call_ensures(check, (key, value), reason) ==> optional_text(reason) == fault(
                    key@,
                    value@,
                ),
        decreases map.members.len() - i,
    {
        let member = &map.members[i];
        let reason = check(member.0.as_str(), &member.1);
        proof {
            let seen = map@.take(i + 1);
            assert(seen.drop_last() =~= map@.take(i as int));
            assert(seen.last() == map@[i as int]);
            assert(first_fault(seen, fault) == optional_text(reason));
            if reason is Some {
                lemma_fault_stays(map@, fault, i + 1);
            }
        }
        if reason.is_some() {
            return reason;
        }
        i += 1;
    }
    proof {
        assert(map@.take(i as int) =~= map@);
    }
    None
}

/// The items of an array as the values of as many keys as there are.
pub open spec fn keyed(items: Seq<Tree>, keys: Seq<&str>) -> Seq<(Seq<char>, Tree)> {
    Seq::new(
        if items.len() < keys.len() {
            items.len()
        } else {
            keys.len()
        },
        |i: int| (keys[i]@, items[i]),
    )
}

/// Gives the items of an array keys, as many as there are.
pub(crate) fn with_keys(items: Vec<Json>, keys: &[&str]) -> (map: JsonMap)
    requires
        forall|i: int, j: int| 0 <= i < j < keys@.len() ==> keys@[i]@ != keys@[j]@,
    ensures
        map@ == keyed(json::item_trees(items@), keys@),
        json::pair_trees(map.members@) == map@,
{
    let mut members: Vec<(String, Json)> = Vec::with_capacity(keys.len());
    let ghost whole = items@;
    proof {
        json::lemma_item_trees(whole);
    }
    for item in it: items
        invariant
            it.seq() == whole,
            members@.len() == if it.index() < keys@.len() {
                it.index() as nat
            } else {
                keys@.len()
            },
            forall|j: int|
                0 <= j < members@.len() ==> (#[trigger] members@[j]).0@ == keys@[j]@
                    && members@[j].1@ == whole[j]@,
    {
        if members.len() < keys.len() {
            members.push((keys[members.len()].to_owned(), item));
        }
    }
    proof {
        json::lemma_pair_trees(members@);
        assert(json::pair_trees(members@) =~= keyed(json::item_trees(whole), keys@));
        json::lemma_collapse_same(json::pair_trees(members@));
    }
    JsonMap { members }
}

/// What is wrong with a value that is to be a string.
pub open spec fn text_fault(tree: Tree) -> Option<Seq<char>> {
    if tree is Text {
        None
    } else {
        Some(type_error_text(tree, "a string"@))
    }
}

/// What is wrong with a value that is to be an unsigned integer of the type `name`,
/// which goes up to `max`.
pub open spec fn uint_fault(tree: Tree, max: int, name: Seq<char>) -> Option<Seq<char>> {
    match tree {
        Tree::Int(i) => if 0 <= i <= max {
            None
        } else {
            Some(value_error_text(tree, name))
        },
        _ => Some(type_error_text(tree, name)),
    }
}

/// The expectations that the library names end in no position.
pub(crate) proof fn lemma_expectations()
    ensures
        has_no_position("a string"@),
        has_no_position("a sequence"@),
        has_no_position("u8"@),
        has_no_position("u16"@),
        has_no_position("unit"@),
        has_no_position("string or map"@),
        has_no_position("map with a single key"@),
        has_no_position("fewer elements in array"@),
        has_no_position("struct FileAttachment"@),
        has_no_position("struct ErrorPayload"@),
        has_no_position("struct ErrorPayload with 4 elements"@),
        has_no_position("struct PacketEnvelope"@),
        has_no_position("struct PacketEnvelope with 3 elements"@),
{
    reveal_strlit("a string");
    reveal_strlit("a sequence");
    reveal_strlit("u8");
    reveal_strlit("u16");
    reveal_strlit("unit");
    reveal_strlit("string or map");
    reveal_strlit("map with a single key");
    reveal_strlit("fewer elements in array");
    reveal_strlit("struct FileAttachment");
    reveal_strlit("struct ErrorPayload");
    reveal_strlit("struct ErrorPayload with 4 elements");
    reveal_strlit("struct PacketEnvelope");
    reveal_strlit("struct PacketEnvelope with 3 elements");
}

/// Tells what is wrong with a value that is to be a string.
pub(crate) fn check_text(value: &Json) -> (r: Option<String>)
    ensures
        optional_text(r) == text_fault(value@),
{
    proof {
        lemma_expectations();
    }
    match value {
        Json::String(_) => None,
        _ => Some(wrong_type(value, "a string")),
    }
}

/// Tells what is wrong with a value that is to be an unsigned integer of the type
/// `name`, which goes up to `max`.
pub(crate) fn check_uint(value: &Json, max: u64, name: &str) -> (r: Option<String>)
    requires
        has_no_position(name@),
    ensures
        optional_text(r) == uint_fault(value@, max as int, name@),
{
    match value.as_u64() {
        Some(n) => if n <= max {
            None
        } else {
            Some(wrong_value(value, name))
        },
        None => {
            let is_int = match value {
                Json::Signed(_) => true,
                Json::Float(n) => n.as_u64().is_some() || n.as_i64().is_some(),
                _ => false,
            };
            if is_int {
                Some(wrong_value(value, name))
            } else {
                Some(wrong_type(value, name))
            }
        },
    }
}

/// The name is one of some names.
pub open spec fn is_among(name: Seq<char>, names: Seq<&str>) -> bool {
    exists|i: int| 0 <= i < names.len() && (#[trigger] names[i])@ == name
}

/// The variant without fields that a JSON value stands for, or the reason why it
/// stands for none: its name, or an object with the name as its only key and null.
pub open spec fn variant_in(tree: Tree, names: Seq<&str>) -> Result<Seq<char>, Seq<char>> {
    match tree {
        Tree::Text(name) => if is_among(name, names) {
            Ok(name)
        } else {
            Err(unknown_variant_text(name, names))
        },
        Tree::Object(members) => if members.len() != 1 {
            Err(value_error_text(tree, "map with a single key"@))
        } else if !is_among(members[0].0, names) {
            Err(unknown_variant_text(members[0].0, names))
        } else if members[0].1 is Null {
            Ok(members[0].0)
        } else {
            Err(type_error_text(members[0].1, "unit"@))
        },
        _ => Err(type_error_text(tree, "string or map"@)),
    }
}

fn is_known(name: &str, names: &[&str]) -> (r: bool)
    ensures
        r == is_among(name@, names@),
{
    let mut i: usize = 0;
    while i < names.len()
        invariant
            i <= names@.len(),
            forall|j: int| 0 <= j < i ==> (#[trigger] names@[j])@ != name@,
        decreases names.len() - i,
    {
        if text_eq(names[i], name) {
            assert(names@[i as int]@ == name@);
            return true;
        }
        i += 1;
    }
    false
}

/// Reads a variant without fields.
pub(crate) fn read_variant(value: &Json, names: &'static [&'static str]) -> (r: Result<
    String,
    String,
>)
    requires
        names@.len() > 0,
    ensures
        match r {
            Ok(name) => variant_in(value@, names@) == Ok::<Seq<char>, Seq<char>>(name@),
            Err(reason) => variant_in(value@, names@) == Err::<Seq<char>, Seq<char>>(reason@),
        },
{
    proof {
        lemma_expectations();
    }
    match value {
        Json::String(name) => if is_known(name.as_str(), names) {
            Ok(name.clone())
        } else {
            Err(unknown_variant(name.as_str(), names))
        },
        Json::Object(map) => {
            let map = map.clone().compact();
            proof {
                json::lemma_pair_trees(map.members@);
            }
            if map.members.len() != 1 {
                return Err(wrong_value(value, "map with a single key"));
            }
            let member = &map.members[0];
            proof {
                assert(map@[0] == (member.0@, member.1@));
            }
            if !is_known(member.0.as_str(), names) {
                return Err(unknown_variant(member.0.as_str(), names));
            }
            match &member.1 {
                Json::Null => Ok(member.0.clone()),
                other => Err(wrong_type(other, "unit")),
            }
        },
        _ => Err(wrong_type(value, "string or map")),
    }
}

} // verus!
