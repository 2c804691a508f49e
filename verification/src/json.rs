//! JSON values as far as the window-system queries read them.

use vstd::prelude::*;
use vstd::std_specs::vec::axiom_vec_index_decreases;

verus! {

/// A JSON value. Of numbers only those are kept that are integers of 64
/// bits with a sign; any other number is a [`Json::Number`] without a value.
#[derive(Debug)]
pub enum Json {
    Null,
    Bool(bool),
    Integer(i64),
    Number,
    Text(String),
    Array(Vec<Json>),
    /// The members in the order in which the parser hands them out.
    Object(Vec<(String, Json)>),
}

/// A JSON value as a mathematical value.
pub enum JsonView {
    Null,
    Bool(bool),
    Integer(i64),
    Number,
    Text(Seq<char>),
    Array(Seq<JsonView>),
    Object(Seq<(Seq<char>, JsonView)>),
}

/// The mathematical value of a JSON value.
pub open spec fn view_of(node: Json) -> JsonView
    decreases node,
{
    match node {
        Json::Null => JsonView::Null,
        Json::Bool(value) => JsonView::Bool(value),
        Json::Integer(value) => JsonView::Integer(value),
        Json::Number => JsonView::Number,
        Json::Text(text) => JsonView::Text(text@),
        Json::Array(items) => JsonView::Array(
            Seq::new(
                items@.len(),
                |i: int|
                    if 0 <= i < items@.len() {
                        view_of(items@[i])
                    } else {
                        JsonView::Null
                    },
            ),
        ),
        Json::Object(members) => JsonView::Object(
            Seq::new(
                members@.len(),
                |i: int|
                    if 0 <= i < members@.len() {
                        (members@[i].0@, view_of(members@[i].1))
                    } else {
                        (Seq::empty(), JsonView::Null)
                    },
            ),
        ),
    }
}

impl View for Json {
    type V = JsonView;

    open spec fn view(&self) -> JsonView {
        view_of(*self)
    }
}

/// What `serde_json::from_slice` makes of bytes, copied into a [`Json`];
/// `None` where it reports an error.
pub uninterp spec fn spec_parse(bytes: Seq<u8>) -> Option<JsonView>;

/// A value of the parser.
#[verifier::external_type_specification]
#[verifier::external_body]
pub struct ExValue(serde_json::Value);

/// The copying that [`parse`] does, which calls itself for the values within
/// a value. It takes a `serde_json::Value` variant by variant. A number goes
/// through `serde_json::Number::as_i64`: it is kept where that gives a
/// value. The members of an object are taken in the order of
/// `serde_json::Map::iter`.
///
/// Trusted: nothing is claimed of the copy but through [`parse`].
#[verifier::external_body]
fn copy(value: &serde_json::Value) -> Json {
    match value {
        serde_json::Value::Null => Json::Null,
        serde_json::Value::Bool(flag) => Json::Bool(*flag),
        serde_json::Value::Number(number) => number.as_i64().map_or(Json::Number, Json::Integer),
        serde_json::Value::String(text) => Json::Text(text.clone()),
        serde_json::Value::Array(items) => Json::Array(items.iter().map(copy).collect()),
        serde_json::Value::Object(members) => Json::Object(
            members.iter().map(|(key, value)| (key.clone(), copy(value))).collect(),
        ),
    }
}

/// Calls `serde_json::from_slice` for a `serde_json::Value` and copies what
/// it gives.
///
/// Trusted: that the parser's result, and so the copy, depends on the bytes
/// alone.
#[verifier::external_body]
pub(crate) fn parse(bytes: &[u8]) -> (parsed: Option<Json>)
    ensures
        match parsed {
            Some(json) => spec_parse(bytes@) == Some(json@),
            None => spec_parse(bytes@) is None,
        },
{
    serde_json::from_slice::<serde_json::Value>(bytes).ok().map(|value| copy(&value))
}

/// The value of the first of `members` from position `from` on that is
/// named `key`.
pub open spec fn member_from(members: Seq<(Seq<char>, JsonView)>, key: Seq<char>, from: int) -> Option<
    JsonView,
>
    decreases members.len() - from,
{
    if 0 <= from < members.len() {
        if members[from].0 == key {
            Some(members[from].1)
        } else {
            member_from(members, key, from + 1)
        }
    } else {
        None
    }
}

impl JsonView {
    /// The member of an object that is named `key`.
    pub open spec fn member(self, key: Seq<char>) -> Option<JsonView> {
        match self {
            JsonView::Object(members) => member_from(members, key, 0),
            _ => None,
        }
    }

    /// The items of the array that is the member `key` of an object; none
    /// where there is no such member or it is no array.
    pub open spec fn items(self, key: Seq<char>) -> Seq<JsonView> {
        match self.member(key) {
            Some(JsonView::Array(items)) => items,
            _ => Seq::empty(),
        }
    }

    /// The item at `index` of an array.
    pub open spec fn item(self, index: int) -> Option<JsonView> {
        match self {
            JsonView::Array(items) => if 0 <= index < items.len() {
                Some(items[index])
            } else {
                None
            },
            _ => None,
        }
    }

    /// The number that the value is, cut to 32 bits, if it is an integer.
    pub open spec fn number(self) -> Option<i32> {
        match self {
            JsonView::Integer(value) => Some(value as i32),
            _ => None,
        }
    }
}

/// The number at `index` of the array `node`, if `node` is one.
pub open spec fn number_at(node: Option<JsonView>, index: int) -> Option<i32> {
    match node {
        Some(array) => match array.item(index) {
            Some(item) => item.number(),
            None => None,
        },
        None => None,
    }
}

/// The number that is the member `key` of the object `node`, if `node` is
/// one.
pub open spec fn number_of(node: JsonView, key: Seq<char>) -> Option<i32> {
    match node.member(key) {
        Some(value) => value.number(),
        None => None,
    }
}

/// The view of an array holds the views of its items, and the view of an
/// object the names and views of its members, in their order.
pub proof fn lemma_view(node: Json)
    ensures
        match node {
            Json::Array(items) => {
                &&& node@ is Array
                &&& node@->Array_0.len() == items@.len()
                &&& forall|i: int| 0 <= i < items@.len() ==> node@->Array_0[i] == items@[i]@
            },
            Json::Object(members) => {
                &&& node@ is Object
                &&& node@->Object_0.len() == members@.len()
                &&& forall|i: int|
                    0 <= i < members@.len() ==> node@->Object_0[i] == (
                        members@[i].0@,
                        members@[i].1@,
                    )
            },
            _ => true,
        },
{
}

impl Json {
    /// The member of an object that is named `key`.
    pub fn member(&self, key: &str) -> (found: Option<&Json>)
        ensures
            match found {
                Some(value) => self@.member(key@) == Some(value@),
                None => self@.member(key@) is None,
            },
            found matches Some(value) ==> decreases_to!(self => value),
    {
        match self {
            Json::Object(members) => {
                let name = key.to_owned();
                let mut i: usize = 0;
                proof {
                    lemma_view(*self);
                }
                while i < members.len()
                    invariant
                        i <= members@.len(),
                        name@ == key@,
                        self == Json::Object(*members),
                        self@ is Object,
                        self@->Object_0.len() == members@.len(),
                        forall|k: int|
                            0 <= k < members@.len() ==> self@->Object_0[k] == (
                                members@[k].0@,
                                members@[k].1@,
                            ),
                        self@.member(key@) == member_from(self@->Object_0, key@, i as int),
                    decreases members@.len() - i,
                {
                    if members[i].0 == name {
                        proof {
                            axiom_vec_index_decreases(*members, i as int);
                        }
                        return Some(&members[i].1);
                    }
                    i = i + 1;
                }
                None
            },
            _ => None,
        }
    }

    /// The items of an array.
    pub fn as_array(&self) -> (items: Option<&Vec<Json>>)
        ensures
            match items {
                Some(list) => self == Json::Array(*list),
                None => !(self is Array),
            },
    {
        match self {
            Json::Array(items) => Some(items),
            _ => None,
        }
    }

    /// The number that the value is, cut to 32 bits, if it is an integer.
    pub fn number(&self) -> (value: Option<i32>)
        ensures
            value == self@.number(),
    {
        match self {
            Json::Integer(value) => Some(#[verifier::truncate] (*value as i32)),
            _ => None,
        }
    }
}

/// The number at `index` of the array `node`, if `node` is one.
pub fn get_number_at(node: Option<&Json>, index: usize) -> (value: Option<i32>)
    ensures
        value == number_at(
            match node {
                Some(json) => Some(json@),
                None => None,
            },
            index as int,
        ),
{
    match node {
        Some(Json::Array(items)) => {
            proof {
                lemma_view(*node.unwrap());
            }
            if index < items.len() {
                items[index].number()
            } else {
                None
            }
        },
        _ => None,
    }
}

/// The number that is the member `key` of the object `node`, if `node` is
/// one.
pub fn get_number_of(node: &Json, key: &str) -> (value: Option<i32>)
    ensures
        value == number_of(node@, key@),
{
    match node.member(key) {
        Some(value) => value.number(),
        None => None,
    }
}

} // verus!
