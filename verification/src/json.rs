//! JSON documents as plain trees.
//!
//! Parsing is done by `serde_json`; what it hands back is copied into [`Json`],
//! a tree of plain values, and everything that reads a document works on that
//! tree.

use vstd::prelude::*;

verus! {

/// A JSON value.
#[derive(Debug, PartialEq, Eq)]
pub enum Json {
    Null,
    Bool(bool),
    /// A number, with its value where that is an unsigned 64-bit integer.
    Number(Option<u64>),
    Text(String),
    Array(Vec<Json>),
    Object(Vec<Member>),
}

/// One `name: value` pair of a JSON object.
#[derive(Debug, PartialEq, Eq)]
pub struct Member {
    pub name: String,
    pub value: Json,
}

/// The value of the first member called `name`, if there is one.
pub open spec fn find_member(members: Seq<Member>, name: Seq<char>) -> Option<Json>
    decreases members.len(),
{
    if members.len() == 0 {
        None
    } else if members.first().name@ == name {
        Some(members.first().value)
    } else {
        find_member(members.drop_first(), name)
    }
}

impl Json {
    /// The member `name` of an object; `None` for a missing member and for a
    /// value that is no object.
    pub open spec fn field(self, name: Seq<char>) -> Option<Json> {
        match self {
            Json::Object(members) => find_member(members@, name),
            _ => None,
        }
    }

    /// The text of a string; `None` for any other value.
    pub open spec fn text(self) -> Option<Seq<char>> {
        match self {
            Json::Text(text) => Some(text@),
            _ => None,
        }
    }

    /// The items of an array; `None` for any other value.
    pub open spec fn items(self) -> Option<Seq<Json>> {
        match self {
            Json::Array(items) => Some(items@),
            _ => None,
        }
    }

    /// Looks up the member `name` of an object.
    pub fn get(&self, name: &str) -> (res: Option<&Json>)
        ensures
            match res {
                Some(value) => self.field(name@) == Some(*value),
                None => self.field(name@) is None,
            },
    {
        match self {
            Json::Object(members) => {
                let key = name.to_owned();
                let mut i: usize = 0;
                assert(members@.skip(0) =~= members@);
                while i < members.len()
                    invariant
                        i <= members@.len(),
                        key@ == name@,
                        self.field(name@) == find_member(members@, name@),
                        find_member(members@, name@) == find_member(members@.skip(i as int), name@),
                    decreases members@.len() - i,
                {
                    let ghost rest = members@.skip(i as int);
                    assert(rest.first() == members@[i as int]);
                    assert(rest.drop_first() =~= members@.skip(i + 1));
                    if members[i].name == key {
                        assert(find_member(rest, name@) == Some(members@[i as int].value));
                        return Some(&members[i].value);
                    }
                    i += 1;
                }
                None
            },
            _ => None,
        }
    }

    /// The text of a string.
    pub fn as_text(&self) -> (res: Option<&String>)
        ensures
            match res {
                Some(text) => self.text() == Some(text@),
                None => self.text() is None,
            },
    {
        match self {
            Json::Text(text) => Some(text),
            _ => None,
        }
    }

    /// The items of an array.
    pub fn as_items(&self) -> (res: Option<&Vec<Json>>)
        ensures
            match res {
                Some(items) => self.items() == Some(items@),
                None => self.items() is None,
            },
    {
        match self {
            Json::Array(items) => Some(items),
            _ => None,
        }
    }
}

/// `serde_json::Value`, of which nothing is known here but what [`tree_of`]
/// says.
#[verifier::external_type_specification]
#[verifier::external_body]
pub struct ExValue(serde_json::Value);

/// `serde_json::Error`, which is passed on unread.
#[verifier::external_type_specification]
#[verifier::external_body]
pub struct ExError(serde_json::Error);

/// What `serde_json::from_slice` makes of `text` when it is asked for a
/// `serde_json::Value`: the value on success, `None` where it reports an
/// error. Nothing more is said of it.
pub uninterp spec fn parsed_value(text: Seq<u8>) -> Option<serde_json::Value>;

/// What a `serde_json::Value` holds, as a tree of plain values: null, a
/// boolean, a number with what `serde_json::Number::as_u64` gives for it, a
/// string, the items of an array, or the members of an object. Nothing more
/// is said of it.
pub uninterp spec fn tree_of(value: serde_json::Value) -> Json;

/// The document that `text` spells, if it is well-formed JSON.
pub open spec fn document(text: Seq<u8>) -> Option<Json> {
    match parsed_value(text) {
        Some(value) => Some(tree_of(value)),
        None => None,
    }
}

/// Calls `serde_json::from_slice::<serde_json::Value>`. Not proved: that the
/// outcome depends on the bytes alone, so that `parsed_value` can name it; it
/// is `None` exactly where the call returns an error.
#[verifier::external_body]
fn parse_value(text: &[u8]) -> (res: Result<serde_json::Value, serde_json::Error>)
    ensures
        match res {
            Ok(value) => parsed_value(text@) == Some(value),
            Err(_) => parsed_value(text@) is None,
        },
{
    serde_json::from_slice::<serde_json::Value>(text)
}

/// Copies a `serde_json::Value` into a [`Json`], one variant to one variant
/// and all the way down; a number is given by `serde_json::Number::as_u64`.
/// Not proved: that the copy depends on the value alone, so that `tree_of`
/// can name it.
#[verifier::external_body]
fn lift(value: serde_json::Value) -> (tree: Json)
    ensures
        tree == tree_of(value),
{
    match value {
        serde_json::Value::Null => Json::Null,
        serde_json::Value::Bool(b) => Json::Bool(b),
        serde_json::Value::Number(n) => Json::Number(n.as_u64()),
        serde_json::Value::String(s) => Json::Text(s),
        serde_json::Value::Array(items) => Json::Array(items.into_iter().map(lift).collect()),
        serde_json::Value::Object(members) => Json::Object(
            members.into_iter().map(|(name, value)| Member { name, value: lift(value) }).collect(),
        ),
    }
}

/// Parses `text` as one JSON document.
pub fn parse(text: &[u8]) -> (res: Option<Json>)
    ensures
        res == document(text@),
{
    match parse_value(text) {
        Ok(value) => Some(lift(value)),
        Err(_) => None,
    }
}

} // verus!
