//! JSON values as the library holds them, and their text through `serde_json`.
//!
//! A [`Json`] is the plain tree that packets carry. Its view is a [`Tree`], the
//! mathematical value that the contracts speak of. An object keeps its members
//! in the order in which their keys first came; a later member with a key that
//! is already there replaces the value.
use crate::text::text_eq;
use vstd::prelude::*;

verus! {

/// `serde_json::Value`, the parsed form that `serde_json` reads and writes.
#[verifier::external_type_specification]
#[verifier::external_body]
pub struct ExSerdeValue(serde_json::Value);

/// `serde_json::Number`, a JSON number: a 64-bit integer or a float.
#[verifier::external_type_specification]
#[verifier::external_body]
pub struct ExSerdeNumber(serde_json::Number);

/// The mathematical value of a JSON text.
pub enum Tree {
    Null,
    Bool(bool),
    Int(int),
    Float(serde_json::Number),
    Text(Seq<char>),
    Array(Seq<Tree>),
    Object(Seq<(Seq<char>, Tree)>),
}

/// A JSON value.
#[derive(Debug, PartialEq)]
pub enum Json {
    Null,
    Bool(bool),
    /// An integer from `0` to `u64::MAX`.
    Unsigned(u64),
    /// An integer of the `i64` range.
    Signed(i64),
    /// A number that is kept as `serde_json` holds it.
    Float(serde_json::Number),
    String(String),
    Array(Vec<Json>),
    Object(JsonMap),
}

/// The members of a JSON object.
#[derive(Debug, PartialEq)]
pub struct JsonMap {
    pub members: Vec<(String, Json)>,
}

/// The integer that a `serde_json::Number` holds, if it holds one.
pub uninterp spec fn number_int(n: serde_json::Number) -> Option<int>;

/// The value of a `serde_json::Number`.
pub open spec fn number_tree(n: serde_json::Number) -> Tree {
    match number_int(n) {
        Some(i) => Tree::Int(i),
        None => Tree::Float(n),
    }
}

/// `members` with the value at `key` set to `value`: in place where the key is
/// there, at the end where it is not.
pub open spec fn put(
    members: Seq<(Seq<char>, Tree)>,
    key: Seq<char>,
    value: Tree,
) -> Seq<(Seq<char>, Tree)> {
    if exists|i: int| 0 <= i < members.len() && members[i].0 == key {
        Seq::new(
            members.len(),
            |i: int|
                if members[i].0 == key {
                    (key, value)
                } else {
                    members[i]
                },
        )
    } else {
        members.push((key, value))
    }
}

/// The members that are left when each of `pairs` is put in turn.
pub open spec fn collapse(pairs: Seq<(Seq<char>, Tree)>) -> Seq<(Seq<char>, Tree)>
    decreases pairs.len(),
{
    if pairs.len() == 0 {
        Seq::empty()
    } else {
        put(collapse(pairs.drop_last()), pairs.last().0, pairs.last().1)
    }
}

/// The value at `key`: that of the last pair which has the key.
pub open spec fn member(pairs: Seq<(Seq<char>, Tree)>, key: Seq<char>) -> Option<Tree>
    decreases pairs.len(),
{
    if pairs.len() == 0 {
        None
    } else if pairs.last().0 == key {
        Some(pairs.last().1)
    } else {
        member(pairs.drop_last(), key)
    }
}

/// No key occurs twice.
pub open spec fn distinct_keys(members: Seq<(Seq<char>, Tree)>) -> bool {
    forall|i: int, j: int| 0 <= i < j < members.len() ==> members[i].0 != members[j].0
}

/// The value of a JSON value.
pub open spec fn json_tree(json: Json) -> Tree
    decreases json,
{
    match json {
        Json::Null => Tree::Null,
        Json::Bool(b) => Tree::Bool(b),
        Json::Unsigned(u) => Tree::Int(u as int),
        Json::Signed(i) => Tree::Int(i as int),
        Json::Float(n) => number_tree(n),
        Json::String(s) => Tree::Text(s@),
        Json::Array(items) => Tree::Array(item_trees(items@)),
        Json::Object(map) => Tree::Object(collapse(pair_trees(map.members@))),
    }
}

/// The values of an array's items.
pub open spec fn item_trees(items: Seq<Json>) -> Seq<Tree>
    decreases items,
{
    if items.len() == 0 {
        Seq::empty()
    } else {
        item_trees(items.drop_last()).push(json_tree(items.last()))
    }
}

/// The pairs of an object as they were given, duplicates included.
pub open spec fn pair_trees(members: Seq<(String, Json)>) -> Seq<(Seq<char>, Tree)>
    decreases members,
{
    if members.len() == 0 {
        Seq::empty()
    } else {
        pair_trees(members.drop_last()).push((members.last().0@, json_tree(members.last().1)))
    }
}

impl View for Json {
    type V = Tree;

    open spec fn view(&self) -> Tree {
        json_tree(*self)
    }
}

impl View for JsonMap {
    type V = Seq<(Seq<char>, Tree)>;

    open spec fn view(&self) -> Seq<(Seq<char>, Tree)> {
        collapse(pair_trees(self.members@))
    }
}

/// One level of a `serde_json::Value`: its variant, with the parts moved out.
pub enum Node {
    Null,
    Bool(bool),
    Number(serde_json::Number),
    String(String),
    Array(Vec<serde_json::Value>),
    Object(Vec<(String, serde_json::Value)>),
}

/// What a `serde_json::Value` holds.
pub uninterp spec fn value_tree(v: serde_json::Value) -> Tree;

/// The pairs of an object's level.
pub open spec fn node_pairs(pairs: Seq<(String, serde_json::Value)>) -> Seq<(Seq<char>, Tree)> {
    Seq::new(pairs.len(), |i: int| (pairs[i].0@, value_tree(pairs[i].1)))
}

/// The value that one level with its parts stands for.
pub open spec fn node_tree(node: Node) -> Tree {
    match node {
        Node::Null => Tree::Null,
        Node::Bool(b) => Tree::Bool(b),
        Node::Number(n) => number_tree(n),
        Node::String(s) => Tree::Text(s@),
        Node::Array(items) => Tree::Array(
            Seq::new(items@.len(), |i: int| value_tree(items@[i])),
        ),
        Node::Object(pairs) => Tree::Object(collapse(node_pairs(pairs@))),
    }
}

/// Takes a `serde_json::Value` apart: the variants of that enum, one for one.
/// The members of an object come in the order of its map, which keeps each key
/// once, in the order of first insertion (feature `preserve_order`).
#[verifier::external_body]
fn node_of(v: serde_json::Value) -> (node: Node)
    ensures
        value_tree(v) == node_tree(node),
        node matches Node::Object(pairs) ==> distinct_keys(node_pairs(pairs@)),
{
    match v {
        serde_json::Value::Null => Node::Null,
        serde_json::Value::Bool(b) => Node::Bool(b),
        serde_json::Value::Number(n) => Node::Number(n),
        serde_json::Value::String(s) => Node::String(s),
        serde_json::Value::Array(items) => Node::Array(items),
        serde_json::Value::Object(map) => Node::Object(map.into_iter().collect()),
    }
}

/// Builds a `serde_json::Value`: the variants of that enum, one for one. An
/// object is collected into `serde_json::Map`, whose insertion replaces the
/// value of a key that is already there and keeps its place.
#[verifier::external_body]
fn value_of(node: Node) -> (v: serde_json::Value)
    ensures
        value_tree(v) == node_tree(node),
{
    match node {
        Node::Null => serde_json::Value::Null,
        Node::Bool(b) => serde_json::Value::Bool(b),
        Node::Number(n) => serde_json::Value::Number(n),
        Node::String(s) => serde_json::Value::String(s),
        Node::Array(items) => serde_json::Value::Array(items),
        Node::Object(pairs) => serde_json::Value::Object(pairs.into_iter().collect()),
    }
}

/// `serde_json::Number::as_u64`: the integer, where it is one and not negative.
pub assume_specification[ serde_json::Number::as_u64 ](n: &serde_json::Number) -> (r: Option<u64>)
    ensures
        match r {
            Some(u) => number_int(*n) == Some(u as int),
            None => number_int(*n) matches Some(i) ==> i < 0,
        },
;

/// `serde_json::Number::as_i64`: the integer, where it is one of the `i64` range.
pub assume_specification[ serde_json::Number::as_i64 ](n: &serde_json::Number) -> (r: Option<i64>)
    ensures
        match r {
            Some(u) => number_int(*n) == Some(u as int),
            None => number_int(*n) matches Some(i) ==> i > i64::MAX,
        },
;

/// `serde_json::Number::from` on a `u64`: the number that holds this integer.
#[verifier::external_body]
fn number_from_u64(u: u64) -> (n: serde_json::Number)
    ensures
        number_int(n) == Some(u as int),
{
    serde_json::Number::from(u)
}

/// `serde_json::Number::from` on an `i64`: the number that holds this integer.
#[verifier::external_body]
fn number_from_i64(i: i64) -> (n: serde_json::Number)
    ensures
        number_int(n) == Some(i as int),
{
    serde_json::Number::from(i)
}

/// `serde_json::Number::clone`: the same number.
#[verifier::external_body]
fn number_clone(n: &serde_json::Number) -> (r: serde_json::Number)
    ensures
        r == *n,
{
    n.clone()
}

/// The `Debug` form of a `serde_json::Value`.
pub uninterp spec fn value_debug(tree: Tree) -> Seq<char>;

/// The `Debug` format of a `serde_json::Value`, which is a function of the value.
#[verifier::external_body]
fn debug_value(v: &serde_json::Value) -> (r: String)
    ensures
        r@ == value_debug(value_tree(*v)),
{
    format!("{v:?}")
}

/// The value holds no float and nests at most `levels` arrays and objects.
pub open spec fn exact_within(tree: Tree, levels: nat) -> bool
    decreases levels,
{
    match tree {
        Tree::Float(_) => false,
        Tree::Array(items) => levels > 0 && forall|i: int|
            0 <= i < items.len() ==> exact_within(#[trigger] items[i], (levels - 1) as nat),
        Tree::Object(members) => levels > 0 && forall|i: int|
            0 <= i < members.len() ==> exact_within(
                (#[trigger] members[i]).1,
                (levels - 1) as nat,
            ),
        _ => true,
    }
}

/// How many arrays and objects `serde_json` lets a text nest.
pub const MAX_DEPTH: u8 = 127;

/// The compact text that `serde_json` writes for a value.
pub uninterp spec fn json_text(tree: Tree) -> Seq<u8>;

/// What `serde_json` reads from a text: a value, or the message of its error.
pub uninterp spec fn json_parse(text: Seq<u8>) -> Result<Tree, Seq<char>>;

/// What `serde_json` reads at the start of a text, whatever follows: a value, or the
/// message of its error.
pub uninterp spec fn json_first(text: Seq<u8>) -> Result<Tree, Seq<char>>;

/// `text` is read as `tree`.
pub open spec fn reads_as(text: Seq<u8>, tree: Tree) -> bool {
    json_parse(text) == Ok::<Tree, Seq<char>>(tree)
}

/// `serde_json::to_vec` on a `serde_json::Value`: the compact text, which is a
/// function of the value. Writing a `Value` to a `Vec` does not fail: the only
/// map keys are strings. Reading the text gives the value back where it holds no
/// float and stays within the depth that the reader accepts.
#[verifier::external_body]
fn write_value(v: &serde_json::Value) -> (text: Vec<u8>)
    ensures
        text@ == json_text(value_tree(*v)),
        exact_within(value_tree(*v), MAX_DEPTH as nat) ==> reads_as(text@, value_tree(*v)),
{
    serde_json::to_vec(v).expect("a JSON value always has a text")
}

/// `serde_json::from_slice` into a `serde_json::Value`: the value that the text
/// stands for, or the text of the error.
#[verifier::external_body]
fn read_value(text: &[u8]) -> (r: Result<serde_json::Value, String>)
    ensures
        match r {
            Ok(v) => reads_as(text@, value_tree(v)),
            Err(message) => json_parse(text@) == Err::<Tree, Seq<char>>(message@),
        },
{
    serde_json::from_slice::<serde_json::Value>(text).map_err(|e| e.to_string())
}

/// `Deserialize::deserialize` of a `serde_json::Value` on a `serde_json::Deserializer`
/// over the text: the value at the start of the text, or the text of the error.
/// `serde_json::from_slice` reads the same and then refuses what follows.
#[verifier::external_body]
fn read_first(text: &[u8]) -> (r: Result<serde_json::Value, String>)
    ensures
        match r {
            Ok(v) => json_first(text@) == Ok::<Tree, Seq<char>>(value_tree(v)),
            Err(message) => json_first(text@) == Err::<Tree, Seq<char>>(message@),
        },
{
    let mut reader = serde_json::Deserializer::from_slice(text);
    <serde_json::Value as serde::Deserialize>::deserialize(&mut reader).map_err(|e| e.to_string())
}

/// In members with distinct keys, the value at a key is the one that stands there.
pub proof fn lemma_member_at(members: Seq<(Seq<char>, Tree)>, i: int)
    requires
        distinct_keys(members),
        0 <= i < members.len(),
    ensures
        member(members, members[i].0) == Some(members[i].1),
    decreases members.len(),
{
    if i < members.len() - 1 {
        assert(members.drop_last()[i] == members[i]);
        assert(members[i].0 != members[members.len() - 1].0);
        lemma_member_at(members.drop_last(), i);
    }
}

/// A key that no pair has, has no value.
pub proof fn lemma_member_absent(pairs: Seq<(Seq<char>, Tree)>, key: Seq<char>)
    requires
        forall|i: int| 0 <= i < pairs.len() ==> pairs[i].0 != key,
    ensures
        member(pairs, key) is None,
    decreases pairs.len(),
{
    if pairs.len() > 0 {
        assert(pairs[pairs.len() - 1].0 != key);
        assert forall|i: int| 0 <= i < pairs.drop_last().len() implies pairs.drop_last()[i].0
            != key by {
            assert(pairs.drop_last()[i] == pairs[i]);
        }
        lemma_member_absent(pairs.drop_last(), key);
    }
}

proof fn lemma_put_distinct(members: Seq<(Seq<char>, Tree)>, key: Seq<char>, value: Tree)
    requires
        distinct_keys(members),
    ensures
        distinct_keys(put(members, key, value)),
{
}

/// What is put at a key is found there, and every other key keeps its value.
pub proof fn lemma_put_member(
    members: Seq<(Seq<char>, Tree)>,
    key: Seq<char>,
    value: Tree,
    asked: Seq<char>,
)
    requires
        distinct_keys(members),
    ensures
        member(put(members, key, value), asked) == if asked == key {
            Some(value)
        } else {
            member(members, asked)
        },
{
    let after = put(members, key, value);
    lemma_put_distinct(members, key, value);
    if exists|i: int| 0 <= i < members.len() && members[i].0 == asked {
        let i = choose|i: int| 0 <= i < members.len() && members[i].0 == asked;
        assert(after[i].0 == asked);
        lemma_member_at(members, i);
        lemma_member_at(after, i);
    } else if asked == key {
        assert(after == members.push((key, value)));
    } else {
        assert forall|i: int| 0 <= i < after.len() implies after[i].0 != asked by {
            if i < members.len() {
                assert(members[i].0 != asked);
            }
        }
        lemma_member_absent(members, asked);
        lemma_member_absent(after, asked);
    }
}

/// The members of an object have distinct keys.
pub proof fn lemma_collapse_distinct(pairs: Seq<(Seq<char>, Tree)>)
    ensures
        distinct_keys(collapse(pairs)),
    decreases pairs.len(),
{
    if pairs.len() > 0 {
        lemma_collapse_distinct(pairs.drop_last());
        lemma_put_distinct(collapse(pairs.drop_last()), pairs.last().0, pairs.last().1);
    }
}

/// Of several pairs with one key the last gives the object's value.
pub proof fn lemma_collapse_member(pairs: Seq<(Seq<char>, Tree)>, key: Seq<char>)
    ensures
        member(collapse(pairs), key) == member(pairs, key),
    decreases pairs.len(),
{
    if pairs.len() > 0 {
        lemma_collapse_distinct(pairs.drop_last());
        lemma_collapse_member(pairs.drop_last(), key);
        lemma_put_member(
            collapse(pairs.drop_last()),
            pairs.last().0,
            pairs.last().1,
            key,
        );
    }
}

/// Pairs with distinct keys are the members themselves.
pub proof fn lemma_collapse_same(pairs: Seq<(Seq<char>, Tree)>)
    requires
        distinct_keys(pairs),
    ensures
        collapse(pairs) == pairs,
    decreases pairs.len(),
{
    if pairs.len() > 0 {
        lemma_collapse_same(pairs.drop_last());
        assert forall|i: int| 0 <= i < pairs.drop_last().len() implies pairs.drop_last()[i].0
            != pairs.last().0 by {
            assert(pairs.drop_last()[i] == pairs[i]);
        }
        assert(pairs =~= pairs.drop_last().push(pairs.last()));
    }
}

/// An array's value is made of its items' values, one for one.
pub proof fn lemma_item_trees(items: Seq<Json>)
    ensures
        item_trees(items).len() == items.len(),
        forall|i: int| 0 <= i < items.len() ==> #[trigger] item_trees(items)[i] == items[i]@,
    decreases items.len(),
{
    if items.len() > 0 {
        lemma_item_trees(items.drop_last());
        assert forall|i: int| 0 <= i < items.len() implies #[trigger] item_trees(items)[i]
            == items[i]@ by {
            if i < items.len() - 1 {
                assert(item_trees(items.drop_last())[i] == items.drop_last()[i]@);
            }
        }
    }
}

/// An object's pairs are those of its map, one for one.
pub proof fn lemma_pair_trees(members: Seq<(String, Json)>)
    ensures
        pair_trees(members).len() == members.len(),
        forall|i: int|
            0 <= i < members.len() ==> #[trigger] pair_trees(members)[i] == (
                members[i].0@,
                members[i].1@,
            ),
    decreases members.len(),
{
    if members.len() > 0 {
        lemma_pair_trees(members.drop_last());
        assert forall|i: int| 0 <= i < members.len() implies #[trigger] pair_trees(members)[i] == (
            members[i].0@,
            members[i].1@,
        ) by {
            if i < members.len() - 1 {
                assert(pair_trees(members.drop_last())[i] == (
                    members.drop_last()[i].0@,
                    members.drop_last()[i].1@,
                ));
            }
        }
    }
}

/// Converts a value to the form that `serde_json` writes.
fn to_value(json: &Json) -> (v: serde_json::Value)
    ensures
        value_tree(v) == json@,
    decreases json,
{
    let node = match json {
        Json::Null => Node::Null,
        Json::Bool(b) => Node::Bool(*b),
        Json::Unsigned(u) => Node::Number(number_from_u64(*u)),
        Json::Signed(i) => Node::Number(number_from_i64(*i)),
        Json::Float(n) => Node::Number(number_clone(n)),
        Json::String(s) => Node::String(s.clone()),
        Json::Array(items) => {
            let mut values: Vec<serde_json::Value> = Vec::with_capacity(items.len());
            let mut i: usize = 0;
            while i < items.len()
                invariant
                    i <= items@.len(),
                    values@.len() == i,
                    json == Json::Array(*items),
                    forall|j: int|
                        0 <= j < i ==> value_tree(#[trigger] values@[j]) == items@[j]@,
                decreases items.len() - i,
            {
                assert(decreases_to!(json => json->Array_0));
                assert(decreases_to!(json->Array_0 => json->Array_0@));
                assert(decreases_to!(json->Array_0@ => json->Array_0@[i as int]));
                assert(decreases_to!(json => items@[i as int]));
                values.push(to_value(&items[i]));
                i += 1;
            }
            proof {
                lemma_item_trees(items@);
                assert(node_tree(Node::Array(values))->Array_0 =~= item_trees(items@));
            }
            Node::Array(values)
        },
        Json::Object(map) => {
            let mut pairs: Vec<(String, serde_json::Value)> = Vec::with_capacity(
                map.members.len(),
            );
            let mut i: usize = 0;
            while i < map.members.len()
                invariant
                    i <= map.members@.len(),
                    pairs@.len() == i,
                    json == Json::Object(*map),
                    forall|j: int|
                        0 <= j < i ==> (#[trigger] pairs@[j]).0@ == map.members@[j].0@
                            && value_tree(pairs@[j].1) == map.members@[j].1@,
                decreases map.members.len() - i,
            {
                assert(decreases_to!(json => json->Object_0));
                assert(decreases_to!(json->Object_0 => map.members));
                assert(decreases_to!(map.members => map.members@));
                assert(decreases_to!(map.members@ => map.members@[i as int]));
                assert(decreases_to!(map.members@[i as int] => map.members@[i as int].1));
                let member = &map.members[i];
                pairs.push((member.0.clone(), to_value(&member.1)));
                i += 1;
            }
            proof {
                lemma_pair_trees(map.members@);
                assert(node_pairs(pairs@) =~= pair_trees(map.members@));
            }
            Node::Object(pairs)
        },
    };
    value_of(node)
}

/// Converts a value that `serde_json` has read.
fn from_value(v: serde_json::Value) -> (json: Json)
    ensures
        json@ == value_tree(v),
    decreases value_tree(v),
{
    let ghost tree = value_tree(v);
    match node_of(v) {
        Node::Null => Json::Null,
        Node::Bool(b) => Json::Bool(b),
        Node::Number(n) => {
            if let Some(u) = n.as_u64() {
                Json::Unsigned(u)
            } else if let Some(i) = n.as_i64() {
                Json::Signed(i)
            } else {
                Json::Float(n)
            }
        },
        Node::String(s) => Json::String(s),
        Node::Array(values) => {
            let mut items: Vec<Json> = Vec::with_capacity(values.len());
            let ghost whole = values@;
            for value in it: values
                invariant
                    it.seq() == whole,
                    tree == value_tree(v),
                    tree == Tree::Array(Seq::new(whole.len(), |i: int| value_tree(whole[i]))),
                    items@.len() == it.index(),
                    forall|j: int|
                        0 <= j < it.index() ==> (#[trigger] items@[j])@ == value_tree(whole[j]),
            {
                assert(tree->Array_0[it.index() as int] == value_tree(value));
                assert(decreases_to!(tree => tree->Array_0[it.index() as int]));
                items.push(from_value(value));
            }
            proof {
                lemma_item_trees(items@);
                assert(item_trees(items@) =~= tree->Array_0);
            }
            Json::Array(items)
        },
        Node::Object(pairs) => {
            let mut members: Vec<(String, Json)> = Vec::with_capacity(pairs.len());
            let ghost whole = pairs@;
            proof {
                lemma_collapse_same(node_pairs(whole));
            }
            for pair in it: pairs
                invariant
                    it.seq() == whole,
                    tree == value_tree(v),
                    tree == Tree::Object(node_pairs(whole)),
                    members@.len() == it.index(),
                    forall|j: int|
                        0 <= j < it.index() ==> (#[trigger] members@[j]).0@ == whole[j].0@
                            && members@[j].1@ == value_tree(whole[j].1),
            {
                assert(tree->Object_0[it.index() as int].1 == value_tree(pair.1));
                assert(decreases_to!(tree => tree->Object_0));
                assert(decreases_to!(tree->Object_0 => tree->Object_0[it.index() as int]));
                assert(decreases_to!(tree->Object_0[it.index() as int] => tree->Object_0[it.index() as int].1));
                members.push((pair.0, from_value(pair.1)));
            }
            proof {
                lemma_pair_trees(members@);
                assert(pair_trees(members@) =~= node_pairs(whole));
            }
            Json::Object(JsonMap { members })
        },
    }
}

/// The value of an optional JSON value.
pub open spec fn tree_of(json: Option<Json>) -> Option<Tree> {
    match json {
        Some(value) => Some(value@),
        None => None,
    }
}

/// The integer that a value is, where it is one of the `u64` range.
pub open spec fn tree_u64(tree: Tree) -> Option<u64> {
    match tree {
        Tree::Int(i) => if 0 <= i <= u64::MAX {
            Some(i as u64)
        } else {
            None
        },
        _ => None,
    }
}

impl Json {
    /// A string value.
    pub fn text(text: &str) -> (json: Json)
        ensures
            json@ == Tree::Text(text@),
    {
        Json::String(text.to_owned())
    }

    /// The empty object.
    pub fn empty_object() -> (json: Json)
        ensures
            json@ == Tree::Object(Seq::empty()),
    {
        Json::Object(JsonMap::new())
    }

    /// The integer that the value is, where it is one of the `u64` range.
    pub fn as_u64(&self) -> (r: Option<u64>)
        ensures
            r == tree_u64(self@),
    {
        match self {
            Json::Unsigned(u) => Some(*u),
            Json::Signed(i) => if *i >= 0 {
                Some(*i as u64)
            } else {
                None
            },
            Json::Float(n) => n.as_u64(),
            _ => None,
        }
    }

    /// The string that the value is; empty where it is none.
    pub(crate) fn into_text(self) -> (text: String)
        ensures
            self@ is Text ==> text@ == self@->Text_0,
    {
        match self {
            Json::String(text) => text,
            _ => String::new(),
        }
    }

    /// The compact JSON text of the value. Reading it gives the value back where
    /// it holds no float and does not nest too deep.
    pub fn to_vec(&self) -> (text: Vec<u8>)
        ensures
            text@ == json_text(self@),
            exact_within(self@, MAX_DEPTH as nat) ==> reads_as(text@, self@),
    {
        write_value(&to_value(self))
    }

    /// The `Debug` form of the value as `serde_json` writes it.
    pub fn debug_text(&self) -> (text: String)
        ensures
            text@ == value_debug(self@),
    {
        debug_value(&to_value(self))
    }

    /// Reads a JSON text.
    pub fn from_slice(text: &[u8]) -> (r: Result<Json, String>)
        ensures
            match r {
                Ok(json) => reads_as(text@, json@),
                Err(message) => json_parse(text@) == Err::<Tree, Seq<char>>(message@),
            },
    {
        match read_value(text) {
            Ok(v) => Ok(from_value(v)),
            Err(message) => Err(message),
        }
    }

    /// Reads the value at the start of a text, whatever follows.
    pub fn first_in(text: &[u8]) -> (r: Result<Json, String>)
        ensures
            match r {
                Ok(json) => json_first(text@) == Ok::<Tree, Seq<char>>(json@),
                Err(message) => json_first(text@) == Err::<Tree, Seq<char>>(message@),
            },
    {
        match read_first(text) {
            Ok(v) => Ok(from_value(v)),
            Err(message) => Err(message),
        }
    }
}

impl Clone for Json {
    fn clone(&self) -> (copy: Self)
        ensures
            copy@ == self@,
        decreases self,
    {
        match self {
            Json::Null => Json::Null,
            Json::Bool(b) => Json::Bool(*b),
            Json::Unsigned(u) => Json::Unsigned(*u),
            Json::Signed(i) => Json::Signed(*i),
            Json::Float(n) => Json::Float(number_clone(n)),
            Json::String(s) => Json::String(s.clone()),
            Json::Array(items) => {
                let mut copies: Vec<Json> = Vec::with_capacity(items.len());
                let mut i: usize = 0;
                while i < items.len()
                    invariant
                        i <= items@.len(),
                        copies@.len() == i,
                        self == Json::Array(*items),
                        forall|j: int| 0 <= j < i ==> (#[trigger] copies@[j])@ == items@[j]@,
                    decreases items.len() - i,
                {
                    assert(decreases_to!(self => self->Array_0));
                    assert(decreases_to!(self->Array_0 => self->Array_0@));
                    assert(decreases_to!(self->Array_0@ => self->Array_0@[i as int]));
                    copies.push(items[i].clone());
                    i += 1;
                }
                proof {
                    lemma_item_trees(items@);
                    lemma_item_trees(copies@);
                    assert(item_trees(copies@) =~= item_trees(items@));
                }
                Json::Array(copies)
            },
            Json::Object(map) => {
                let mut copies: Vec<(String, Json)> = Vec::with_capacity(map.members.len());
                let mut i: usize = 0;
                while i < map.members.len()
                    invariant
                        i <= map.members@.len(),
                        copies@.len() == i,
                        self == Json::Object(*map),
                        forall|j: int|
                            0 <= j < i ==> (#[trigger] copies@[j]).0@ == map.members@[j].0@
                                && copies@[j].1@ == map.members@[j].1@,
                    decreases map.members.len() - i,
                {
                    assert(decreases_to!(self => self->Object_0));
                    assert(decreases_to!(self->Object_0 => map.members));
                    assert(decreases_to!(map.members => map.members@));
                    assert(decreases_to!(map.members@ => map.members@[i as int]));
                    assert(decreases_to!(map.members@[i as int] => map.members@[i as int].1));
                    let member = &map.members[i];
                    copies.push((member.0.clone(), member.1.clone()));
                    i += 1;
                }
                proof {
                    lemma_pair_trees(map.members@);
                    lemma_pair_trees(copies@);
                    assert(pair_trees(copies@) =~= pair_trees(map.members@));
                }
                Json::Object(JsonMap { members: copies })
            },
        }
    }
}

impl JsonMap {
    /// A map without members.
    pub fn new() -> (map: Self)
        ensures
            map@ == Seq::<(Seq<char>, Tree)>::empty(),
    {
        JsonMap { members: Vec::new() }
    }

    /// Sets the value at `key`.
    pub fn insert(&mut self, key: String, value: Json)
        ensures
            final(self)@ == put(old(self)@, key@, value@),
    {
        let ghost before = self.members@;
        self.members.push((key, value));
        proof {
            assert(self.members@.drop_last() == before);
            let pairs = pair_trees(self.members@);
            assert(pairs.drop_last() == pair_trees(before));
        }
    }

    /// True where the map has no members.
    pub fn is_empty(&self) -> (r: bool)
        ensures
            r == (self@.len() == 0),
    {
        proof {
            lemma_pair_trees(self.members@);
            lemma_collapse_empty(pair_trees(self.members@));
        }
        self.members.len() == 0
    }

    /// The place of the last pair with `key`.
    fn position(&self, key: &str) -> (r: Option<usize>)
        ensures
            match r {
                Some(i) => {
                    &&& i < self.members@.len()
                    &&& self.members@[i as int].0@ == key@
                    &&& forall|j: int|
                        i < j < self.members@.len() ==> (#[trigger] self.members@[j]).0@ != key@
                    &&& member(self@, key@) == Some(self.members@[i as int].1@)
                },
                None => {
                    &&& forall|j: int|
                        0 <= j < self.members@.len() ==> (#[trigger] self.members@[j]).0@ != key@
                    &&& member(self@, key@) is None
                },
            },
    {
        let mut i: usize = self.members.len();
        proof {
            lemma_pair_trees(self.members@);
            lemma_collapse_member(pair_trees(self.members@), key@);
        }
        while i > 0
            invariant
                i <= self.members@.len(),
                forall|j: int|
                    i <= j < self.members@.len() ==> (#[trigger] self.members@[j]).0@ != key@,
            decreases i,
        {
            i -= 1;
            if text_eq(self.members[i].0.as_str(), key) {
                proof {
                    lemma_member_last(self.members@, key@, i as int);
                    lemma_collapse_member(pair_trees(self.members@), key@);
                }
                return Some(i);
            }
        }
        proof {
            lemma_member_absent(pair_trees(self.members@), key@);
        }
        None
    }

    /// The map with each key once.
    pub(crate) fn compact(self) -> (map: Self)
        ensures
            map@ == self@,
            pair_trees(map.members@) == self@,
    {
        let ghost whole = self.members@;
        let ghost pairs = pair_trees(whole);
        proof {
            lemma_pair_trees(whole);
        }
        let mut map = JsonMap { members: Vec::with_capacity(self.members.len()) };
        for member in it: self.members
            invariant
                it.seq() == whole,
                pairs.len() == whole.len(),
                forall|j: int|
                    0 <= j < whole.len() ==> #[trigger] pairs[j] == (whole[j].0@, whole[j].1@),
                pair_trees(map.members@) == collapse(pairs.take(it.index() as int)),
        {
            let ghost n = it.index() as int;
            let ghost before = map.members@;
            proof {
                assert(pairs.take(n + 1).drop_last() =~= pairs.take(n));
                assert(pairs.take(n + 1).last() == (member.0@, member.1@));
                lemma_collapse_distinct(pairs.take(n));
                lemma_pair_trees(before);
            }
            match map.position(member.0.as_str()) {
                Some(i) => {
                    let ghost put_pairs = put(pair_trees(before), member.0@, member.1@);
                    map.members[i] = member;
                    proof {
                        lemma_pair_trees(map.members@);
                        assert(pair_trees(before)[i as int].0 == member.0@);
                        assert(pair_trees(map.members@) =~= put_pairs);
                    }
                },
                None => {
                    map.members.push(member);
                    proof {
                        lemma_pair_trees(map.members@);
                        assert(forall|j: int|
                            0 <= j < before.len() ==> pair_trees(before)[j].0 != member.0@);
                        assert(pair_trees(map.members@) =~= put(
                            pair_trees(before),
                            member.0@,
                            member.1@,
                        ));
                    }
                },
            }
        }
        proof {
            assert(pairs.take(whole.len() as int) =~= pairs);
            lemma_collapse_distinct(pairs);
            lemma_collapse_same(collapse(pairs));
        }
        map
    }

    /// The value at `key`.
    pub fn get(&self, key: &str) -> (r: Option<&Json>)
        ensures
            match r {
                Some(value) => member(self@, key@) == Some(value@),
                None => member(self@, key@) is None,
            },
    {
        match self.position(key) {
            Some(i) => Some(&self.members[i].1),
            None => None,
        }
    }

    /// Moves the value at `key` out and leaves null in its place.
    pub(crate) fn take(&mut self, key: &str) -> (r: Option<Json>)
        ensures
            match r {
                Some(value) => member(old(self)@, key@) == Some(value@),
                None => member(old(self)@, key@) is None,
            },
            forall|other: Seq<char>|
                other != key@ ==> #[trigger] member(final(self)@, other) == member(
                    old(self)@,
                    other,
                ),
    {
        match self.position(key) {
            Some(i) => {
                let ghost before = self.members@;
                let mut value = Json::Null;
                std::mem::swap(&mut self.members[i].1, &mut value);
                proof {
                    let after = self.members@;
                    assert forall|other: Seq<char>| other != key@ implies #[trigger] member(
                        self@,
                        other,
                    ) == member(collapse(pair_trees(before)), other) by {
                        lemma_collapse_member(pair_trees(before), other);
                        lemma_collapse_member(pair_trees(after), other);
                        lemma_member_others(before, after, i as int, other);
                    }
                }
                Some(value)
            },
            None => None,
        }
    }
}

impl Clone for JsonMap {
    fn clone(&self) -> (copy: Self)
        ensures
            copy@ == self@,
    {
        let mut copies: Vec<(String, Json)> = Vec::with_capacity(self.members.len());
        let mut i: usize = 0;
        while i < self.members.len()
            invariant
                i <= self.members@.len(),
                copies@.len() == i,
                forall|j: int|
                    0 <= j < i ==> (#[trigger] copies@[j]).0@ == self.members@[j].0@
                        && copies@[j].1@ == self.members@[j].1@,
            decreases self.members.len() - i,
        {
            let member = &self.members[i];
            copies.push((member.0.clone(), member.1.clone()));
            i += 1;
        }
        proof {
            lemma_pair_trees(self.members@);
            lemma_pair_trees(copies@);
            assert(pair_trees(copies@) =~= pair_trees(self.members@));
        }
        JsonMap { members: copies }
    }
}

proof fn lemma_collapse_empty(pairs: Seq<(Seq<char>, Tree)>)
    ensures
        collapse(pairs).len() == 0 <==> pairs.len() == 0,
    decreases pairs.len(),
{
    if pairs.len() > 0 {
        let rest = collapse(pairs.drop_last());
        assert(put(rest, pairs.last().0, pairs.last().1).len() > 0);
    }
}

proof fn lemma_member_last(members: Seq<(String, Json)>, key: Seq<char>, i: int)
    requires
        0 <= i < members.len(),
        members[i].0@ == key,
        forall|j: int| i < j < members.len() ==> (#[trigger] members[j]).0@ != key,
    ensures
        member(pair_trees(members), key) == Some(members[i].1@),
    decreases members.len(),
{
    lemma_pair_trees(members);
    lemma_pair_trees(members.drop_last());
    assert(pair_trees(members).drop_last() == pair_trees(members.drop_last()));
    if i < members.len() - 1 {
        assert(members[members.len() - 1].0@ != key);
        assert forall|j: int| i < j < members.drop_last().len() implies (
        #[trigger] members.drop_last()[j]).0@ != key by {
            assert(members.drop_last()[j] == members[j]);
        }
        lemma_member_last(members.drop_last(), key, i);
    }
}

proof fn lemma_member_others(
    before: Seq<(String, Json)>,
    after: Seq<(String, Json)>,
    i: int,
    other: Seq<char>,
)
    requires
        before.len() == after.len(),
        0 <= i < before.len(),
        before[i].0@ == after[i].0@,
        before[i].0@ != other,
        forall|j: int| 0 <= j < before.len() && j != i ==> before[j] == after[j],
    ensures
        member(pair_trees(before), other) == member(pair_trees(after), other),
    decreases before.len(),
{
    lemma_pair_trees(before);
    lemma_pair_trees(after);
    assert(pair_trees(before).drop_last() == pair_trees(before.drop_last()));
    assert(pair_trees(after).drop_last() == pair_trees(after.drop_last()));
    if i < before.len() - 1 {
        lemma_member_others(before.drop_last(), after.drop_last(), i, other);
    } else {
        assert(before.drop_last() == after.drop_last());
    }
}

} // verus!
