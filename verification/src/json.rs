//! A plain JSON document and the boundary to the JSON parser.
//!
//! Parsing and rendering are done by `serde_json`; everything that reads a
//! document afterwards works on [`Json`], whose contents Verus can see.

use crate::text::same_text;
use serde_json::{Number, Value};
use vstd::prelude::*;

verus! {

/// A JSON document.
///
/// A number is held as `Int` when it fits `i64`, as `Uint` when it only fits
/// `u64`, and otherwise as `Real` with its decimal text. An object is the list
/// of its members in the order the parser hands them out.
#[derive(Debug, PartialEq, Eq)]
pub enum Json {
    Null,
    Bool(bool),
    Int(i64),
    Uint(u64),
    Real(String),
    Str(String),
    Array(Vec<Json>),
    Object(Vec<(String, Json)>),
}

/// `serde_json::Value`, the document type of the parser. Nothing is said
/// about what is inside a value.
#[verifier::external_type_specification]
#[verifier::external_body]
pub struct ExJsonValue(serde_json::Value);

/// What `serde_json` reads at the start of a text: the document that one
/// `Value::deserialize` call on a fresh `Deserializer::from_str(text)`
/// returns, or `None` when that call fails. Text after the document is not
/// looked at.
pub uninterp spec fn json_prefix(text: Seq<char>) -> Option<Json>;

/// What `serde_json::from_str` reads from a text that must hold exactly one
/// document, or `None` when it fails.
pub uninterp spec fn json_document(text: Seq<char>) -> Option<Json>;

/// The compact text that `serde_json::to_string` renders for a document.
pub uninterp spec fn json_text(doc: Json) -> Seq<char>;

/// Copies a `serde_json::Value` into a [`Json`], variant by variant. A number
/// is read with `Number::as_i64`, then `Number::as_u64`, and otherwise kept
/// as the text that `Number` displays.
#[verifier::external_body]
fn json_of_value(v: &Value) -> Json {
    match v {
        Value::Null => Json::Null,
        Value::Bool(b) => Json::Bool(*b),
        Value::Number(n) => match (n.as_i64(), n.as_u64()) {
            (Some(i), _) => Json::Int(i),
            (None, Some(u)) => Json::Uint(u),
            _ => Json::Real(n.to_string()),
        },
        Value::String(s) => Json::Str(s.clone()),
        Value::Array(a) => Json::Array(a.iter().map(json_of_value).collect()),
        Value::Object(m) => Json::Object(
            m.iter().map(|(k, x)| (k.clone(), json_of_value(x))).collect(),
        ),
    }
}

/// Copies a [`Json`] into a `serde_json::Value`, variant by variant. The text
/// of a `Real` is read back with `serde_json::from_str` as a `Number`; a text
/// that is no number becomes `null`.
#[verifier::external_body]
fn value_of_json(j: &Json) -> Value {
    match j {
        Json::Null => Value::Null,
        Json::Bool(b) => Value::Bool(*b),
        Json::Int(i) => Value::Number((*i).into()),
        Json::Uint(u) => Value::Number((*u).into()),
        Json::Real(t) => serde_json::from_str::<Number>(t).map_or(Value::Null, Value::Number),
        Json::Str(s) => Value::String(s.clone()),
        Json::Array(a) => Value::Array(a.iter().map(value_of_json).collect()),
        Json::Object(m) => Value::Object(
            m.iter().map(|(k, x)| (k.clone(), value_of_json(x))).collect(),
        ),
    }
}

/// `serde_json::Deserializer::from_str` followed by one
/// `Value::deserialize`: reads the document at the start of `text` and leaves
/// what follows it unread. The result is [`json_prefix`] of the text.
#[verifier::external_body]
pub(crate) fn read_json_prefix(text: &str) -> (r: Option<Json>)
    ensures
        r == json_prefix(text@),
{
    let mut de = serde_json::Deserializer::from_str(text);
    match <Value as serde::Deserialize>::deserialize(&mut de) {
        Ok(v) => Some(json_of_value(&v)),
        Err(_) => None,
    }
}

/// `serde_json::from_str`: reads `text` as exactly one document. The result
/// is [`json_document`] of the text.
#[verifier::external_body]
pub(crate) fn read_json_document(text: &str) -> (r: Option<Json>)
    ensures
        r == json_document(text@),
{
    match serde_json::from_str::<Value>(text) {
        Ok(v) => Some(json_of_value(&v)),
        Err(_) => None,
    }
}

/// `serde_json::to_string`: the compact rendering of a document, empty when
/// `serde_json` reports an error. The result is [`json_text`] of the document.
#[verifier::external_body]
pub(crate) fn write_json_text(doc: &Json) -> (r: String)
    ensures
        r@ == json_text(*doc),
{
    serde_json::to_string(&value_of_json(doc)).unwrap_or_default()
}

/// The value stored under `key` in a member list: the first member with
/// that key.
pub open spec fn lookup(members: Seq<(String, Json)>, key: Seq<char>) -> Option<Json>
    decreases members.len(),
{
    if members.len() == 0 {
        None
    } else if members[0].0@ == key {
        Some(members[0].1)
    } else {
        lookup(members.drop_first(), key)
    }
}

impl Json {
    /// The member `key` of an object; `None` for a missing member and for
    /// anything that is not an object.
    pub open spec fn field(self, key: Seq<char>) -> Option<Json> {
        match self {
            Json::Object(members) => lookup(members@, key),
            _ => None,
        }
    }

    /// The text of a string value.
    pub open spec fn text(self) -> Option<Seq<char>> {
        match self {
            Json::Str(s) => Some(s@),
            _ => None,
        }
    }

    /// The number as an `i64`, when it is an integer in that range.
    pub open spec fn integer(self) -> Option<i64> {
        match self {
            Json::Int(i) => Some(i),
            Json::Uint(u) => if u <= i64::MAX as u64 {
                Some(u as i64)
            } else {
                None
            },
            _ => None,
        }
    }

    /// The number as a `u64`, when it is an integer in that range.
    pub open spec fn unsigned(self) -> Option<u64> {
        match self {
            Json::Int(i) => if i >= 0 {
                Some(i as u64)
            } else {
                None
            },
            Json::Uint(u) => Some(u),
            _ => None,
        }
    }

    /// The truth value of a boolean.
    pub open spec fn truth(self) -> Option<bool> {
        match self {
            Json::Bool(b) => Some(b),
            _ => None,
        }
    }

    /// The items of an array.
    pub open spec fn items(self) -> Option<Seq<Json>> {
        match self {
            Json::Array(a) => Some(a@),
            _ => None,
        }
    }

    /// The member `key` of an object.
    pub fn get(&self, key: &str) -> (r: Option<&Json>)
        ensures
            match r {
                Some(v) => self.field(key@) == Some(*v),
                None => self.field(key@) is None,
            },
    {
        match self {
            Json::Object(members) => {
                let mut i: usize = 0;
                assert(members@.subrange(0, members.len() as int) =~= members@);
                while i < members.len()
                    invariant
                        i <= members.len(),
                        self.field(key@) == lookup(
                            members@.subrange(i as int, members.len() as int),
                            key@,
                        ),
                    decreases members.len() - i,
                {
                    let ghost rest = members@.subrange(i as int, members.len() as int);
                    assert(rest[0] == members@[i as int]);
                    assert(rest.drop_first() =~= members@.subrange(
                        i + 1,
                        members.len() as int,
                    ));
                    if same_text(members[i].0.as_str(), key) {
                        return Some(&members[i].1);
                    }
                    i += 1;
                }
                None
            },
            _ => None,
        }
    }

    /// The text of a string value.
    pub fn as_str(&self) -> (r: Option<&str>)
        ensures
            match r {
                Some(s) => self.text() == Some(s@),
                None => self.text() is None,
            },
    {
        match self {
            Json::Str(s) => Some(s.as_str()),
            _ => None,
        }
    }

    /// The number as an `i64`, when it is an integer in that range.
    pub fn as_i64(&self) -> (r: Option<i64>)
        ensures
            r == self.integer(),
    {
        match self {
            Json::Int(i) => Some(*i),
            Json::Uint(u) => if *u <= 0x7fff_ffff_ffff_ffffu64 {
                Some(*u as i64)
            } else {
                None
            },
            _ => None,
        }
    }

    /// The number as a `u64`, when it is an integer in that range.
    pub fn as_u64(&self) -> (r: Option<u64>)
        ensures
            r == self.unsigned(),
    {
        match self {
            Json::Int(i) => if *i >= 0 {
                Some(*i as u64)
            } else {
                None
            },
            Json::Uint(u) => Some(*u),
            _ => None,
        }
    }

    /// The truth value of a boolean.
    pub fn as_bool(&self) -> (r: Option<bool>)
        ensures
            r == self.truth(),
    {
        match self {
            Json::Bool(b) => Some(*b),
            _ => None,
        }
    }

    /// The items of an array.
    pub fn as_array(&self) -> (r: Option<&Vec<Json>>)
        ensures
            match r {
                Some(a) => self.items() == Some(a@),
                None => self.items() is None,
            },
    {
        match self {
            Json::Array(a) => Some(a),
            _ => None,
        }
    }

    /// Whether the document is an object.
    pub fn is_object(&self) -> (r: bool)
        ensures
            r == (*self is Object),
    {
        match self {
            Json::Object(_) => true,
            _ => false,
        }
    }
}

} // verus!
