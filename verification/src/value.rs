//! The bridge to `serde_json`.
//!
//! `serde_json` reads and writes JSON text and is what the template engine
//! takes its data as. This module moves whole trees between
//! `serde_json::Value` and [`Json`], one level at a time: each step across
//! the border is a small trusted function, and the walks over the trees are
//! verified against them.

use crate::json::{
    items_view, lemma_item_is_smaller, lemma_items_view_push, lemma_member_is_smaller,
    lemma_members_view_push, members_view, number_text, Json, JsonView,
};
use crate::views::result_view;
use serde_json::Value;
use vstd::prelude::*;

verus! {

/// `serde_json::Value`, opaque to the verifier; see [`value_tree`].
#[verifier::external_type_specification]
#[verifier::external_body]
pub struct ExValue(serde_json::Value);

/// `serde_json::Error`, opaque to the verifier; see [`json_error_text`].
#[verifier::external_type_specification]
#[verifier::external_body]
pub struct ExError(serde_json::Error);

/// The JSON tree that a `serde_json::Value` holds.
pub uninterp spec fn value_tree(value: Value) -> JsonView;

/// The message of an error of `serde_json` (`Display` of
/// `serde_json::Error`).
pub uninterp spec fn json_error_text(error: serde_json::Error) -> Seq<char>;

/// The compact JSON text of a tree, as `serde_json` writes it.
pub uninterp spec fn json_text(tree: JsonView) -> Seq<char>;

/// What `serde_json` reads from a text: the tree, or the message of its
/// error where the text is not one JSON value.
pub uninterp spec fn parsed_json(text: Seq<char>) -> Result<JsonView, Seq<char>>;

/// The trees of a list of values, in order.
pub open spec fn value_trees(values: Seq<Value>) -> Seq<JsonView> {
    Seq::new(values.len(), |i: int| value_tree(values[i]))
}

/// The map that a list of keyed values stands for: the first value of each
/// key.
pub open spec fn member_trees(members: Seq<(String, Value)>) -> Map<Seq<char>, JsonView>
    decreases members.len(),
{
    if members.len() == 0 {
        Map::empty()
    } else {
        member_trees(members.drop_first()).insert(members[0].0@, value_tree(members[0].1))
    }
}

/// No two members share a key.
pub open spec fn distinct_keys(members: Seq<(String, Value)>) -> bool {
    forall|i: int, j: int|
        0 <= i < j < members.len() ==> (#[trigger] members[i]).0@ != (#[trigger] members[j]).0@
}

/// The top level of a `serde_json::Value`, with the values below it still
/// as `serde_json` holds them.
pub enum ValueParts {
    Null,
    Bool(bool),
    Number(serde_json::Number),
    String(String),
    Array(Vec<Value>),
    Object(Vec<(String, Value)>),
}

impl ValueParts {
    /// The tree that the parts make up.
    pub open spec fn tree(self) -> JsonView {
        match self {
            ValueParts::Null => JsonView::Null,
            ValueParts::Bool(b) => JsonView::Bool(b),
            ValueParts::Number(n) => JsonView::Number(number_text(n)),
            ValueParts::String(s) => JsonView::String(s@),
            ValueParts::Array(items) => JsonView::Array(value_trees(items@)),
            ValueParts::Object(members) => JsonView::Object(member_trees(members@)),
        }
    }

    /// The members of an object have distinct keys.
    pub open spec fn well_formed(self) -> bool {
        match self {
            ValueParts::Object(members) => distinct_keys(members@),
            _ => true,
        }
    }
}

/// `Value::Null`.
#[verifier::external_body]
fn null_value() -> (value: Value)
    ensures
        value_tree(value) == JsonView::Null,
{
    Value::Null
}

/// `Value::Bool` of `b`.
#[verifier::external_body]
fn bool_value(b: bool) -> (value: Value)
    ensures
        value_tree(value) == JsonView::Bool(b),
{
    Value::Bool(b)
}

/// `Value::Number` of `number`.
#[verifier::external_body]
fn number_value(number: serde_json::Number) -> (value: Value)
    ensures
        value_tree(value) == JsonView::Number(number_text(number)),
{
    Value::Number(number)
}

/// `Value::String` of `text`.
#[verifier::external_body]
fn string_value(text: String) -> (value: Value)
    ensures
        value_tree(value) == JsonView::String(text@),
{
    Value::String(text)
}

/// `Value::Array` of `items`: the array of their trees, in order.
#[verifier::external_body]
fn array_value(items: Vec<Value>) -> (value: Value)
    ensures
        value_tree(value) == JsonView::Array(value_trees(items@)),
{
    Value::Array(items)
}

/// `Value::Object` of an empty `serde_json::Map`.
#[verifier::external_body]
fn empty_object_value() -> (value: Value)
    ensures
        value_tree(value) == JsonView::Object(Map::empty()),
{
    Value::Object(serde_json::Map::new())
}

/// `serde_json::Map::insert` on the map of an object: the member under `key`
/// is `member` afterwards, whether or not the key was there, and the other
/// members stay.
#[verifier::external_body]
fn insert_member(object: &mut Value, key: String, member: Value)
    requires
        value_tree(*old(object)) is Object,
    ensures
        value_tree(*final(object)) == JsonView::Object(
            value_tree(*old(object))->Object_0.insert(key@, value_tree(member)),
        ),
{
    if let Value::Object(members) = object {
        members.insert(key, member);
    }
}

/// Takes a `serde_json::Value` apart by its variant. The members of an
/// object come out of its `serde_json::Map`, each key once.
#[verifier::external_body]
fn value_parts(value: Value) -> (parts: ValueParts)
    ensures
        parts.tree() == value_tree(value),
        parts.well_formed(),
{
    match value {
        Value::Null => ValueParts::Null,
        Value::Bool(b) => ValueParts::Bool(b),
        Value::Number(number) => ValueParts::Number(number),
        Value::String(text) => ValueParts::String(text),
        Value::Array(items) => ValueParts::Array(items),
        Value::Object(members) => ValueParts::Object(members.into_iter().collect()),
    }
}

/// `serde_json::from_str` for a `serde_json::Value`.
#[verifier::external_body]
fn parse_value(text: &str) -> (parsed: Result<Value, serde_json::Error>)
    ensures
        match parsed {
            Ok(value) => parsed_json(text@) == Ok::<JsonView, Seq<char>>(value_tree(value)),
            Err(error) => parsed_json(text@) == Err::<JsonView, Seq<char>>(
                json_error_text(error),
            ),
        },
{
    serde_json::from_str::<Value>(text)
}

/// `Display` of a `serde_json::Error`: its message.
#[verifier::external_body]
pub(crate) fn json_error_message(error: &serde_json::Error) -> (message: String)
    ensures
        message@ == json_error_text(*error),
{
    error.to_string()
}

/// `Display` of a `serde_json::Value`: its compact JSON text. Writing a
/// `Value` does not fail: its keys are strings and its numbers are finite.
#[verifier::external_body]
fn value_text(value: &Value) -> (text: String)
    ensures
        text@ == json_text(value_tree(*value)),
{
    value.to_string()
}

/// Appending a keyed value adds it unless its key is already there.
proof fn lemma_member_trees_push(members: Seq<(String, Value)>, key: String, value: Value)
    ensures
        member_trees(members.push((key, value))) == if member_trees(members).contains_key(key@) {
            member_trees(members)
        } else {
            member_trees(members).insert(key@, value_tree(value))
        },
    decreases members.len(),
{
    let longer = members.push((key, value));
    if members.len() == 0 {
        assert(longer.drop_first() == members);
    } else {
        let rest = members.drop_first();
        lemma_member_trees_push(rest, key, value);
        assert(longer.drop_first() == rest.push((key, value)));
        assert(longer[0] == members[0]);
        let head_key = members[0].0@;
        let head = value_tree(members[0].1);
        if member_trees(rest).contains_key(key@) {
        } else if head_key == key@ {
            assert(member_trees(rest).insert(key@, value_tree(value)).insert(head_key, head)
                == member_trees(rest).insert(head_key, head));
        } else {
            assert(member_trees(rest).insert(key@, value_tree(value)).insert(head_key, head)
                == member_trees(rest).insert(head_key, head).insert(key@, value_tree(value)));
        }
    }
}

/// A list of keyed values stands for a finite map that has the key of each
/// of them.
proof fn lemma_member_trees_keys(members: Seq<(String, Value)>)
    ensures
        member_trees(members).dom().finite(),
        forall|i: int|
            0 <= i < members.len() ==> member_trees(members).contains_key(
                (#[trigger] members[i]).0@,
            ),
    decreases members.len(),
{
    if members.len() > 0 {
        let rest = members.drop_first();
        lemma_member_trees_keys(rest);
        assert(member_trees(members).dom() == member_trees(rest).dom().insert(members[0].0@));
        assert forall|i: int| 0 <= i < members.len() implies member_trees(members).contains_key(
            (#[trigger] members[i]).0@,
        ) by {
            if i > 0 {
                assert(members[i] == rest[i - 1]);
            }
        }
    }
}

/// With distinct keys, each keyed value is the member under its key.
proof fn lemma_member_trees_distinct(members: Seq<(String, Value)>, i: int)
    requires
        distinct_keys(members),
        0 <= i < members.len(),
    ensures
        member_trees(members).contains_key(members[i].0@),
        member_trees(members)[members[i].0@] == value_tree(members[i].1),
    decreases members.len(),
{
    let rest = members.drop_first();
    if i > 0 {
        assert forall|a: int, b: int| 0 <= a < b < rest.len() implies (#[trigger] rest[a]).0@ != (
        #[trigger] rest[b]).0@ by {
            assert(rest[a] == members[a + 1]);
            assert(rest[b] == members[b + 1]);
        }
        lemma_member_trees_distinct(rest, i - 1);
        assert(rest[i - 1] == members[i]);
        assert(members[0].0@ != members[i].0@);
    }
}

/// The `serde_json::Value` of a tree.
pub fn to_value(json: &Json) -> (value: Value)
    ensures
        value_tree(value) == json@,
    decreases json,
{
    match json {
        Json::Null => null_value(),
        Json::Bool(b) => bool_value(*b),
        Json::Number(number) => number_value(number.clone()),
        Json::String(text) => string_value(text.clone()),
        Json::Array(items) => {
            let mut values: Vec<Value> = Vec::new();
            let mut i: usize = 0;
            while i < items.len()
                invariant
                    i <= items.len(),
                    *json == Json::Array(*items),
                    value_trees(values@) == items_view(items@.take(i as int)),
                decreases items.len() - i,
            {
                proof {
                    lemma_item_is_smaller(*items, i as int);
                }
                let value = to_value(&items[i]);
                proof {
                    lemma_items_view_push(items@.take(i as int), items@[i as int]);
                    assert(items@.take(i as int).push(items@[i as int]) == items@.take(
                        i as int + 1,
                    ));
                    assert(value_trees(values@.push(value)) == value_trees(values@).push(
                        value_tree(value),
                    ));
                }
                values.push(value);
                i += 1;
            }
            proof {
                assert(items@.take(items.len() as int) == items@);
            }
            array_value(values)
        },
        Json::Object(members) => {
            let mut object = empty_object_value();
            let mut i: usize = members.len();
            proof {
                assert(members@.skip(members.len() as int).len() == 0);
            }
            while i > 0
                invariant
                    i <= members.len(),
                    *json == Json::Object(*members),
                    value_tree(object) == JsonView::Object(members_view(members@.skip(i as int))),
                decreases i,
            {
                i -= 1;
                proof {
                    lemma_member_is_smaller(*members, i as int);
                    let rest = members@.skip(i as int);
                    assert(rest.drop_first() == members@.skip(i as int + 1));
                    assert(rest[0] == members@[i as int]);
                }
                let member = to_value(&members[i].1);
                insert_member(&mut object, members[i].0.clone(), member);
            }
            proof {
                assert(members@.skip(0) == members@);
            }
            object
        },
    }
}

/// The tree of a `serde_json::Value`.
pub fn from_value(value: Value) -> (json: Json)
    ensures
        json@ == value_tree(value),
    decreases value_tree(value),
{
    match value_parts(value) {
        ValueParts::Null => Json::Null,
        ValueParts::Bool(b) => Json::Bool(b),
        ValueParts::Number(number) => Json::Number(number),
        ValueParts::String(text) => Json::String(text),
        ValueParts::Array(values) => {
            let ghost all = values@;
            let mut items: Vec<Json> = Vec::new();
            for item in it: values
                invariant
                    it.seq() == all,
                    value_tree(value) == JsonView::Array(value_trees(all)),
                    items_view(items@) == value_trees(all.take(it.index() as int)),
            {
                proof {
                    let trees = value_trees(all);
                    assert(trees[it.index() as int] == value_tree(item));
                    assert(decreases_to!(value_tree(value) => value_tree(value)->Array_0));
                    assert(decreases_to!(trees => trees[it.index() as int]));
                }
                let converted = from_value(item);
                proof {
                    lemma_items_view_push(items@, converted);
                    assert(all.take(it.index() as int).push(item) == all.take(
                        it.index() as int + 1,
                    ));
                    assert(value_trees(all.take(it.index() as int + 1)) == value_trees(
                        all.take(it.index() as int),
                    ).push(value_tree(item)));
                }
                items.push(converted);
            }
            proof {
                assert(all.take(all.len() as int) == all);
            }
            Json::Array(items)
        },
        ValueParts::Object(keyed) => {
            let ghost all = keyed@;
            let mut members: Vec<(String, Json)> = Vec::new();
            proof {
                lemma_member_trees_keys(all);
            }
            for entry in it: keyed
                invariant
                    it.seq() == all,
                    distinct_keys(all),
                    value_tree(value) == JsonView::Object(member_trees(all)),
                    member_trees(all).dom().finite(),
                    members_view(members@) == member_trees(all.take(it.index() as int)),
            {
                proof {
                    let map = member_trees(all);
                    lemma_member_trees_distinct(all, it.index() as int);
                    assert(decreases_to!(value_tree(value) => value_tree(value)->Object_0));
                    assert(decreases_to!(map => map[entry.0@]));
                }
                let key = entry.0;
                let converted = from_value(entry.1);
                proof {
                    lemma_members_view_push(members@, key, converted);
                    lemma_member_trees_push(all.take(it.index() as int), entry.0, entry.1);
                    assert(all.take(it.index() as int).push(entry) == all.take(
                        it.index() as int + 1,
                    ));
                }
                members.push((key, converted));
            }
            proof {
                assert(all.take(all.len() as int) == all);
            }
            Json::Object(members)
        },
    }
}

/// Reads one JSON value from `text`. Where the text is not one JSON value,
/// the error is the message of `serde_json`.
pub fn parse_json(text: &str) -> (parsed: Result<Json, String>)
    ensures
        result_view(parsed) == parsed_json(text@),
{
    match parse_value(text) {
        Ok(value) => Ok(from_value(value)),
        Err(error) => Err(json_error_message(&error)),
    }
}

/// The compact JSON text of a tree.
pub fn to_json_text(json: &Json) -> (text: String)
    ensures
        text@ == json_text(json@),
{
    let value = to_value(json);
    value_text(&value)
}

} // verus!
