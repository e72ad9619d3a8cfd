//! JSON values as plain data.
//!
//! [`Json`] is the tree that the rest of the library reads and builds.
//! Its view, [`JsonView`], is the mathematical tree: objects are maps from
//! key to value, so the order of an object's members is not part of a
//! value. Where a member list names a key twice, the first member counts.

use crate::views::option_view;
use vstd::prelude::*;

verus! {

/// `serde_json::Number`, carried through without looking inside.
#[verifier::external_type_specification]
#[verifier::external_body]
pub struct ExNumber(serde_json::Number);

/// The JSON text of a number, as `serde_json` writes it (`Display` of
/// `serde_json::Number`).
pub uninterp spec fn number_text(number: serde_json::Number) -> Seq<char>;

/// The character of a decimal digit.
pub open spec fn digit_char(digit: nat) -> char {
    if digit == 0 {
        '0'
    } else if digit == 1 {
        '1'
    } else if digit == 2 {
        '2'
    } else if digit == 3 {
        '3'
    } else if digit == 4 {
        '4'
    } else if digit == 5 {
        '5'
    } else if digit == 6 {
        '6'
    } else if digit == 7 {
        '7'
    } else if digit == 8 {
        '8'
    } else {
        '9'
    }
}

/// The decimal digits of `n`, most significant first, without leading
/// zeros.
pub open spec fn decimal_text(n: nat) -> Seq<char>
    decreases n,
{
    if n < 10 {
        seq![digit_char(n)]
    } else {
        decimal_text(n / 10).push(digit_char(n % 10))
    }
}

/// `serde_json::Number::from` on a `usize`: the number that is written as
/// the decimal digits of `n`.
#[verifier::external_body]
pub(crate) fn number_from_index(n: usize) -> (number: serde_json::Number)
    ensures
        number_text(number) == decimal_text(n as nat),
{
    serde_json::Number::from(n)
}

/// `Clone::clone` of `serde_json::Number`: the copy is written as the
/// original is.
pub assume_specification[ <serde_json::Number as Clone>::clone ](
    number: &serde_json::Number,
) -> (copy: serde_json::Number)
    ensures
        number_text(copy) == number_text(*number),
;

/// A JSON value as a mathematical tree.
pub enum JsonView {
    Null,
    Bool(bool),
    /// A number, by its JSON text.
    Number(Seq<char>),
    String(Seq<char>),
    Array(Seq<JsonView>),
    Object(Map<Seq<char>, JsonView>),
}

impl JsonView {
    /// The value under `key`, where `self` is an object that has the key.
    pub open spec fn member(self, key: Seq<char>) -> Option<JsonView> {
        match self {
            JsonView::Object(members) => if members.contains_key(key) {
                Some(members[key])
            } else {
                None
            },
            _ => None,
        }
    }

    /// The members of an object; no members for any other value.
    pub open spec fn members(self) -> Map<Seq<char>, JsonView> {
        match self {
            JsonView::Object(members) => members,
            _ => Map::empty(),
        }
    }

    /// The text of a string value.
    pub open spec fn text(self) -> Option<Seq<char>> {
        match self {
            JsonView::String(text) => Some(text),
            _ => None,
        }
    }

    /// An optional string member of an object: no string where the member
    /// is absent or `null`, and an error where it is anything but a string.
    pub open spec fn optional_member(self, key: Seq<char>) -> Result<Option<Seq<char>>, ()> {
        match self.member(key) {
            None => Ok(None),
            Some(JsonView::Null) => Ok(None),
            Some(JsonView::String(text)) => Ok(Some(text)),
            Some(_) => Err(()),
        }
    }
}

/// A JSON value.
#[derive(Debug)]
pub enum Json {
    Null,
    Bool(bool),
    Number(serde_json::Number),
    String(String),
    Array(Vec<Json>),
    /// The members of an object. Where two members share a key, the first
    /// one is the object's member and the later one is ignored.
    Object(Vec<(String, Json)>),
}

/// The views of the items of an array, in order.
pub open spec fn items_view(items: Seq<Json>) -> Seq<JsonView>
    decreases items,
{
    if items.len() == 0 {
        Seq::empty()
    } else {
        items_view(items.drop_last()).push(items.last().tree())
    }
}

/// The map that a member list stands for: the first member of each key.
pub open spec fn members_view(members: Seq<(String, Json)>) -> Map<Seq<char>, JsonView>
    decreases members,
{
    if members.len() == 0 {
        Map::empty()
    } else {
        members_view(members.drop_first()).insert(members[0].0@, members[0].1.tree())
    }
}

impl Json {
    /// The tree that the value stands for.
    pub open spec fn tree(&self) -> JsonView
        decreases self,
    {
        match self {
            Json::Null => JsonView::Null,
            Json::Bool(b) => JsonView::Bool(*b),
            Json::Number(n) => JsonView::Number(number_text(*n)),
            Json::String(s) => JsonView::String(s@),
            Json::Array(items) => JsonView::Array(items_view(items@)),
            Json::Object(members) => JsonView::Object(members_view(members@)),
        }
    }
}

impl View for Json {
    type V = JsonView;

    open spec fn view(&self) -> JsonView {
        self.tree()
    }
}

/// `items_view` keeps the length and maps item by item.
pub proof fn lemma_items_view(items: Seq<Json>)
    ensures
        items_view(items).len() == items.len(),
        forall|i: int| 0 <= i < items.len() ==> #[trigger] items_view(items)[i] == items[i]@,
    decreases items.len(),
{
    if items.len() > 0 {
        lemma_items_view(items.drop_last());
    }
}

/// Appending an item appends its view.
pub proof fn lemma_items_view_push(items: Seq<Json>, item: Json)
    ensures
        items_view(items.push(item)) == items_view(items).push(item@),
{
    assert(items.push(item).drop_last() == items);
}

/// Appending a member adds it unless its key is already there.
pub proof fn lemma_members_view_push(members: Seq<(String, Json)>, key: String, value: Json)
    ensures
        members_view(members.push((key, value))) == if members_view(members).contains_key(key@) {
            members_view(members)
        } else {
            members_view(members).insert(key@, value@)
        },
    decreases members.len(),
{
    let longer = members.push((key, value));
    if members.len() == 0 {
        assert(longer.drop_first() == members);
    } else {
        let rest = members.drop_first();
        lemma_members_view_push(rest, key, value);
        assert(longer.drop_first() == rest.push((key, value)));
        assert(longer[0] == members[0]);
        let head_key = members[0].0@;
        let head = members[0].1@;
        if members_view(rest).contains_key(key@) {
        } else if head_key == key@ {
            assert(members_view(rest).insert(key@, value@).insert(head_key, head)
                == members_view(rest).insert(head_key, head));
        } else {
            assert(members_view(rest).insert(key@, value@).insert(head_key, head)
                == members_view(rest).insert(head_key, head).insert(key@, value@));
        }
    }
}

/// An item of an array is a smaller tree than the array.
pub proof fn lemma_item_is_smaller(items: Vec<Json>, i: int)
    requires
        0 <= i < items.len(),
    ensures
        decreases_to!(Json::Array(items) => items@[i]),
{
    let whole = Json::Array(items);
    assert(decreases_to!(whole => whole->Array_0));
    assert(decreases_to!(whole->Array_0 => whole->Array_0@));
    assert(decreases_to!(whole->Array_0@ => whole->Array_0@[i]));
}

/// The value of a member is a smaller tree than the object.
pub proof fn lemma_member_is_smaller(members: Vec<(String, Json)>, i: int)
    requires
        0 <= i < members.len(),
    ensures
        decreases_to!(Json::Object(members) => members@[i].1),
{
    let whole = Json::Object(members);
    assert(decreases_to!(whole => whole->Object_0));
    assert(decreases_to!(whole->Object_0 => whole->Object_0@));
    assert(decreases_to!(whole->Object_0@ => whole->Object_0@[i]));
    assert(decreases_to!(whole->Object_0@[i] => whole->Object_0@[i].1));
}

/// The place of the member under `key` in a member list: the first member
/// with that key.
pub fn find_member(members: &Vec<(String, Json)>, key: &String) -> (found: Option<usize>)
    ensures
        match found {
            Some(i) => {
                &&& i < members.len()
                &&& members@[i as int].0@ == key@
                &&& forall|j: int| 0 <= j < i ==> (#[trigger] members@[j]).0@ != key@
                &&& members_view(members@).contains_key(key@)
                &&& members_view(members@)[key@] == members@[i as int].1@
            },
            None => !members_view(members@).contains_key(key@),
        },
{
    let mut i: usize = 0;
    proof {
        assert(members@.skip(0) == members@);
    }
    while i < members.len()
        invariant
            i <= members.len(),
            forall|j: int| 0 <= j < i ==> (#[trigger] members@[j]).0@ != key@,
            members_view(members@).contains_key(key@) == members_view(
                members@.skip(i as int),
            ).contains_key(key@),
            members_view(members@).contains_key(key@) ==> members_view(members@)[key@]
                == members_view(members@.skip(i as int))[key@],
        decreases members.len() - i,
    {
        proof {
            let rest = members@.skip(i as int);
            assert(rest.drop_first() == members@.skip(i as int + 1));
            assert(rest[0] == members@[i as int]);
            assert(members_view(rest) == members_view(rest.drop_first()).insert(
                rest[0].0@,
                rest[0].1@,
            ));
        }
        if members[i].0 == *key {
            return Some(i);
        }
        i += 1;
    }
    proof {
        assert(members@.skip(members.len() as int).len() == 0);
    }
    None
}

/// Adds a member at the end of a member list. Under a key that the list
/// already has, the new member stays without effect.
pub fn put_member(members: &mut Vec<(String, Json)>, key: &str, value: Json)
    ensures
        members_view(final(members)@) == if members_view(old(members)@).contains_key(key@) {
            members_view(old(members)@)
        } else {
            members_view(old(members)@).insert(key@, value@)
        },
{
    let owned = key.to_owned();
    proof {
        lemma_members_view_push(members@, owned, value);
    }
    members.push((owned, value));
}

impl Json {
    /// A string value that holds `text`.
    pub fn string(text: &str) -> (json: Json)
        ensures
            json@ == JsonView::String(text@),
    {
        Json::String(text.to_owned())
    }

    /// An object without members.
    pub fn empty_object() -> (json: Json)
        ensures
            json@ == JsonView::Object(Map::empty()),
    {
        Json::Object(Vec::new())
    }

    /// The member under `key`, where `self` is an object that has the key.
    pub fn get(&self, key: &str) -> (found: Option<&Json>)
        ensures
            match found {
                Some(value) => self@.member(key@) == Some(value@),
                None => self@.member(key@) is None,
            },
    {
        match self {
            Json::Object(members) => {
                let wanted = key.to_owned();
                match find_member(members, &wanted) {
                    Some(i) => Some(&members[i].1),
                    None => None,
                }
            },
            _ => None,
        }
    }

    /// The text of a string value.
    pub fn as_text(&self) -> (found: Option<&String>)
        ensures
            match found {
                Some(text) => self@.text() == Some(text@),
                None => self@.text() is None,
            },
    {
        match self {
            Json::String(text) => Some(text),
            _ => None,
        }
    }

    /// Reads an optional string member: no string where the member is
    /// absent or `null`, and an error where it is anything but a string.
    pub fn optional_member(&self, key: &str) -> (read: Result<Option<String>, ()>)
        ensures
            match read {
                Ok(text) => self@.optional_member(key@) == Ok::<Option<Seq<char>>, ()>(
                    option_view(text),
                ),
                Err(_) => self@.optional_member(key@) is Err,
            },
    {
        match self.get(key) {
            None => Ok(None),
            Some(Json::Null) => Ok(None),
            Some(Json::String(text)) => Ok(Some(text.clone())),
            Some(_) => Err(()),
        }
    }

    /// Whether the value is an object.
    pub fn is_object(&self) -> (object: bool)
        ensures
            object == (self@ is Object),
    {
        match self {
            Json::Object(_) => true,
            _ => false,
        }
    }
}

impl Clone for Json {
    /// A copy of the whole tree.
    fn clone(&self) -> (copy: Json)
        ensures
            copy@ == self@,
    {
        self.duplicate()
    }
}

impl Json {
    /// A copy of the whole tree.
    fn duplicate(&self) -> (copy: Json)
        ensures
            copy@ == self@,
        decreases self,
    {
        match self {
            Json::Null => Json::Null,
            Json::Bool(b) => Json::Bool(*b),
            Json::Number(n) => Json::Number(n.clone()),
            Json::String(s) => Json::String(s.clone()),
            Json::Array(items) => {
                let mut copies: Vec<Json> = Vec::new();
                let mut i: usize = 0;
                while i < items.len()
                    invariant
                        i <= items.len(),
                        *self == Json::Array(*items),
                        items_view(copies@) == items_view(items@.take(i as int)),
                    decreases items.len() - i,
                {
                    proof {
                        lemma_item_is_smaller(*items, i as int);
                    }
                    let copy = items[i].duplicate();
                    proof {
                        lemma_items_view_push(copies@, copy);
                        lemma_items_view_push(items@.take(i as int), items@[i as int]);
                        assert(items@.take(i as int).push(items@[i as int]) == items@.take(
                            i as int + 1,
                        ));
                    }
                    copies.push(copy);
                    i += 1;
                }
                proof {
                    assert(items@.take(items.len() as int) == items@);
                }
                Json::Array(copies)
            },
            Json::Object(members) => {
                let mut copies: Vec<(String, Json)> = Vec::new();
                let mut i: usize = 0;
                while i < members.len()
                    invariant
                        i <= members.len(),
                        *self == Json::Object(*members),
                        members_view(copies@) == members_view(members@.take(i as int)),
                    decreases members.len() - i,
                {
                    let key = members[i].0.clone();
                    proof {
                        lemma_member_is_smaller(*members, i as int);
                    }
                    let value = members[i].1.duplicate();
                    proof {
                        lemma_members_view_push(copies@, key, value);
                        lemma_members_view_push(
                            members@.take(i as int),
                            members@[i as int].0,
                            members@[i as int].1,
                        );
                        assert(members@.take(i as int).push(members@[i as int]) == members@.take(
                            i as int + 1,
                        ));
                    }
                    copies.push((key, value));
                    i += 1;
                }
                proof {
                    assert(members@.take(members.len() as int) == members@);
                }
                Json::Object(copies)
            },
        }
    }
}

} // verus!
