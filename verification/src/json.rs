//! JSON documents: serde_json parses the text, the library reads the result.
use vstd::prelude::*;

use crate::text::str_eq;

verus! {

/// serde_json's document type, carried through opaque.
#[verifier::external_type_specification]
#[verifier::external_body]
pub struct ExJsonValue(serde_json::Value);

/// A JSON document as the library reads it.
pub enum Json {
    Null,
    Bool(bool),
    /// A number, as serde_json prints it.
    Number(String),
    Str(String),
    Array(Vec<Json>),
    /// The members of an object, each key once, in the order serde_json keeps them.
    Object(Vec<(String, Json)>),
}

/// What serde_json makes of `bytes`: the document it parses them to, or the
/// text of the error it reports.
pub uninterp spec fn parsed_json(bytes: Seq<u8>) -> Result<Json, Seq<char>>;

/// Converts a `serde_json::Value` into a `Json`, variant for variant: numbers
/// by their `Display` text, arrays element by element, objects member by
/// member in the map's own order.
#[verifier::external_body]
fn json_from_value(v: serde_json::Value) -> Json {
    match v {
        serde_json::Value::Null => Json::Null,
        serde_json::Value::Bool(b) => Json::Bool(b),
        serde_json::Value::Number(n) => Json::Number(n.to_string()),
        serde_json::Value::String(s) => Json::Str(s),
        serde_json::Value::Array(items) => Json::Array(items.into_iter().map(json_from_value).collect()),
        serde_json::Value::Object(m) => Json::Object(
            m.into_iter().map(|(k, x)| (k, json_from_value(x))).collect(),
        ),
    }
}

/// `serde_json::from_slice::<serde_json::Value>`, its document converted by
/// `json_from_value` and its error by `Display`. Claimed: the call returns
/// what `parsed_json` names for the bytes, document or error text; both depend
/// on the bytes alone.
#[verifier::external_body]
pub(crate) fn parse_json(bytes: &[u8]) -> (res: Result<Json, String>)
    ensures
        match parsed_json(bytes@) {
            Ok(doc) => res matches Ok(j) && j == doc,
            Err(text) => res matches Err(t) && t@ == text,
        },
{
    serde_json::from_slice::<serde_json::Value>(bytes).map(json_from_value).map_err(|e| e.to_string())
}

/// The value of the first member named `key` among `members`.
pub open spec fn lookup(members: Seq<(String, Json)>, key: Seq<char>) -> Option<Json>
    decreases members.len(),
{
    if members.len() == 0 {
        None
    } else if members[0].0@ == key {
        Some(members[0].1)
    } else {
        lookup(members.drop_first(), key)
    }
}

/// `j[key]` in serde_json's sense: the member named `key` of an object,
/// `Null` when `j` is no object or has no such member.
pub open spec fn member(j: Json, key: Seq<char>) -> Json {
    match j {
        Json::Object(members) => match lookup(members@, key) {
            Some(v) => v,
            None => Json::Null,
        },
        _ => Json::Null,
    }
}

/// The text of a JSON string, none for any other value.
pub open spec fn str_of(j: Json) -> Option<Seq<char>> {
    match j {
        Json::Str(s) => Some(s@),
        _ => None,
    }
}

/// The member named `key` of `j`; none stands for `Null`.
pub fn get_member<'a>(j: &'a Json, key: &str) -> (res: Option<&'a Json>)
    ensures
        match res {
            Some(v) => *v == member(*j, key@),
            None => member(*j, key@) == Json::Null,
        },
{
    match j {
        Json::Object(members) => {
            let mut i: usize = 0;
            assert(members@.skip(0) == members@);
            while i < members.len()
                invariant
                    i <= members@.len(),
                    *j == Json::Object(*members),
                    lookup(members@, key@) == lookup(members@.skip(i as int), key@),
                decreases members@.len() - i,
            {
                assert(members@.skip(i as int)[0] == members@[i as int]);
                if str_eq(members[i].0.as_str(), key) {
                    assert(lookup(members@.skip(i as int), key@) == Some(members@[i as int].1));
                    return Some(&members[i].1);
                }
                assert(members@.skip(i as int).drop_first() == members@.skip(i + 1));
                i = i + 1;
            }
            None
        },
        _ => None,
    }
}

/// The text of `j` if it is a JSON string (`Value::as_str`).
pub fn as_str(j: &Json) -> (res: Option<&String>)
    ensures
        match res {
            Some(s) => str_of(*j) == Some(s@),
            None => str_of(*j) is None,
        },
{
    match j {
        Json::Str(s) => Some(s),
        _ => None,
    }
}

/// The text of the member `key` of `j`, if that member is a JSON string.
pub fn member_str<'a>(j: &'a Json, key: &str) -> (res: Option<&'a String>)
    ensures
        match res {
            Some(s) => str_of(member(*j, key@)) == Some(s@),
            None => str_of(member(*j, key@)) is None,
        },
{
    match get_member(j, key) {
        Some(v) => as_str(v),
        None => None,
    }
}

} // verus!
