//! JSON documents as plain values, and the parser that yields them.

use vstd::prelude::*;

use crate::error::AppError;

verus! {

/// `serde_json::Value`, a parsed JSON document. It is only carried from
/// the parser to `json_from_value`.
#[verifier::external_type_specification]
#[verifier::external_body]
pub struct ExJsonValue(serde_json::Value);

/// `serde_json::Error`, why a text is no JSON document.
#[verifier::external_type_specification]
#[verifier::external_body]
pub struct ExJsonError(serde_json::Error);

/// A JSON document. A number is kept as the bits of the IEEE 754 double
/// nearest to it. An object keeps its members in the order of their names,
/// each name once.
#[derive(Debug, PartialEq, Eq)]
pub enum Json {
    Null,
    Bool(bool),
    Number(Option<u64>),
    Text(String),
    Array(Vec<Json>),
    Object(Vec<(String, Json)>),
}

/// The value of the first member named `key`.
pub open spec fn first_member(members: Seq<(String, Json)>, key: Seq<char>) -> Option<Json>
    decreases members.len(),
{
    if members.len() == 0 {
        None
    } else if members[0].0@ == key {
        Some(members[0].1)
    } else {
        first_member(members.drop_first(), key)
    }
}

impl Json {
    /// The member `key` of an object; nothing for any other value and for an
    /// object without that member.
    pub open spec fn member(self, key: Seq<char>) -> Option<Json> {
        match self {
            Json::Object(members) => first_member(members@, key),
            _ => None,
        }
    }

    /// The characters of a string value; nothing for any other value.
    pub open spec fn text(self) -> Option<Seq<char>> {
        match self {
            Json::Text(text) => Some(text@),
            _ => None,
        }
    }

    /// The elements of an array; nothing for any other value.
    pub open spec fn items(self) -> Option<Seq<Json>> {
        match self {
            Json::Array(items) => Some(items@),
            _ => None,
        }
    }

    /// The bits of a number; nothing for any other value.
    pub open spec fn number(self) -> Option<u64> {
        match self {
            Json::Number(bits) => bits,
            _ => None,
        }
    }

    /// The string member `key` of an object.
    pub open spec fn member_text(self, key: Seq<char>) -> Option<Seq<char>> {
        match self.member(key) {
            Some(value) => value.text(),
            None => None,
        }
    }

    /// Looks a member of an object up by its name.
    pub fn get(&self, key: &str) -> (found: Option<&Json>)
        ensures
            match found {
                Some(value) => self.member(key@) == Some(*value),
                None => self.member(key@) is None,
            },
    {
        match self {
            Json::Object(members) => {
                let wanted = key.to_owned();
                let mut i: usize = 0;
                assert(members@.skip(0) == members@);
                while i < members.len()
                    invariant
                        i <= members@.len(),
                        wanted@ == key@,
                        self.member(key@) == first_member(members@, key@),
                        first_member(members@, key@) == first_member(members@.skip(i as int), key@),
                    decreases members@.len() - i,
                {
                    let ghost rest = members@.skip(i as int);
                    assert(rest[0] == members@[i as int]);
                    assert(rest.drop_first() == members@.skip(i + 1));
                    if members[i].0 == wanted {
                        assert(first_member(rest, key@) == Some(rest[0].1));
                        return Some(&members[i].1);
                    }
                    assert(first_member(rest, key@) == first_member(rest.drop_first(), key@));
                    i += 1;
                }
                None
            },
            _ => None,
        }
    }

    /// The characters of a string value.
    pub fn as_str(&self) -> (found: Option<&str>)
        ensures
            match found {
                Some(text) => self.text() == Some(text@),
                None => self.text() is None,
            },
    {
        match self {
            Json::Text(text) => Some(text.as_str()),
            _ => None,
        }
    }

    /// The elements of an array.
    pub fn as_array(&self) -> (found: Option<&Vec<Json>>)
        ensures
            match found {
                Some(items) => self.items() == Some(items@),
                None => self.items() is None,
            },
    {
        match self {
            Json::Array(items) => Some(items),
            _ => None,
        }
    }

    /// The bits of a number.
    pub fn as_number(&self) -> (found: Option<u64>)
        ensures
            found == self.number(),
    {
        match self {
            Json::Number(bits) => *bits,
            _ => None,
        }
    }

    /// The string member `key` of an object.
    pub fn get_str(&self, key: &str) -> (found: Option<&str>)
        ensures
            match found {
                Some(text) => self.member_text(key@) == Some(text@),
                None => self.member_text(key@) is None,
            },
    {
        match self.get(key) {
            Some(value) => value.as_str(),
            None => None,
        }
    }
}

/// What `serde_json::from_str` makes of a text: the value it parses to, or
/// nothing where it reports an error.
pub uninterp spec fn parsed_value(text: Seq<char>) -> Option<serde_json::Value>;

/// A `serde_json::Value` written out as a `Json`, variant by variant.
pub uninterp spec fn value_model(value: serde_json::Value) -> Json;

/// Calls `serde_json::from_str` for a `serde_json::Value`. The outcome
/// depends on the text alone: it is the one that `parsed_value` names.
#[verifier::external_body]
fn parse_value(text: &str) -> (parsed: Result<serde_json::Value, serde_json::Error>)
    ensures
        match parsed {
            Ok(value) => parsed_value(text@) == Some(value),
            Err(_) => parsed_value(text@) is None,
        },
{
    serde_json::from_str::<serde_json::Value>(text)
}

/// Moves a `serde_json::Value` into a `Json`, one variant to one variant. A
/// number goes through `serde_json::Number::as_f64` and is kept by its bits.
#[verifier::external_body]
fn json_from_value(value: serde_json::Value) -> (json: Json)
    ensures
        json == value_model(value),
{
    match value {
        serde_json::Value::Null => Json::Null,
        serde_json::Value::Bool(flag) => Json::Bool(flag),
        serde_json::Value::Number(number) => Json::Number(number.as_f64().map(|x| x.to_bits())),
        serde_json::Value::String(text) => Json::Text(text),
        serde_json::Value::Array(items) => Json::Array(
            items.into_iter().map(json_from_value).collect(),
        ),
        serde_json::Value::Object(members) => Json::Object(
            members.into_iter().map(|(name, member)| (name, json_from_value(member))).collect(),
        ),
    }
}

/// The JSON document that a text holds, if it is one.
pub open spec fn json_of(text: Seq<char>) -> Option<Json> {
    match parsed_value(text) {
        Some(value) => Some(value_model(value)),
        None => None,
    }
}

/// Parses a text as JSON. It fails, with a `JsonError`, exactly on a text
/// that is no JSON document.
pub fn parse_json(text: &str) -> (parsed: Result<Json, AppError>)
    ensures
        match json_of(text@) {
            Some(json) => parsed == Ok::<Json, AppError>(json),
            None => parsed matches Err(AppError::JsonError(_)),
        },
{
    match parse_value(text) {
        Ok(value) => Ok(json_from_value(value)),
        Err(error) => Err(AppError::JsonError(error.to_string())),
    }
}

} // verus!
