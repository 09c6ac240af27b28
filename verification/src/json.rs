//! Documents in JSON, read and written by `serde_json`.
//!
//! A document is modelled by `JsonView`: what it holds, apart from how
//! `serde_json` holds it. Every call into `serde_json` that the library makes
//! stands in this file, with what it does stated over that model.

use crate::text::text_view;
use vstd::prelude::*;

verus! {

// ---------------------------------------------------------------------------
// What a document holds
// ---------------------------------------------------------------------------

/// A number of a document: a whole number from 0 to 2^64 - 1, a whole number
/// below zero, or any other number, given by the 64 bits of its binary
/// representation.
pub enum NumberView {
    Unsigned(u64),
    Negative(i64),
    Binary(u64),
}

/// What a document holds.
pub enum JsonView {
    Null,
    Flag(bool),
    Number(NumberView),
    Text(Seq<char>),
    List(Seq<JsonView>),
    Object(Map<Seq<char>, JsonView>),
}

impl JsonView {
    /// The member of an object under a key; `None` where the document is no
    /// object or the object has no such member.
    pub open spec fn member(self, key: Seq<char>) -> Option<JsonView> {
        match self {
            JsonView::Object(members) => if members.contains_key(key) {
                Some(members[key])
            } else {
                None
            },
            _ => None,
        }
    }

    /// The items of a list; `None` where the document is no list.
    pub open spec fn items(self) -> Option<Seq<JsonView>> {
        match self {
            JsonView::List(items) => Some(items),
            _ => None,
        }
    }

    /// The flag that a document is; `None` where it is none.
    pub open spec fn flag(self) -> Option<bool> {
        match self {
            JsonView::Flag(b) => Some(b),
            _ => None,
        }
    }

    /// The number that a document is, where it is a whole number from 0 to
    /// 2^64 - 1; `None` for any other document.
    pub open spec fn unsigned(self) -> Option<u64> {
        match self {
            JsonView::Number(NumberView::Unsigned(n)) => Some(n),
            _ => None,
        }
    }

    /// The text that a document is; `None` where it is no string.
    pub open spec fn text(self) -> Option<Seq<char>> {
        match self {
            JsonView::Text(s) => Some(s),
            _ => None,
        }
    }

    /// The flag under a key of an object.
    pub open spec fn flag_under(self, key: Seq<char>) -> Option<bool> {
        match self.member(key) {
            Some(m) => m.flag(),
            None => None,
        }
    }

    /// The unsigned number under a key of an object.
    pub open spec fn unsigned_under(self, key: Seq<char>) -> Option<u64> {
        match self.member(key) {
            Some(m) => m.unsigned(),
            None => None,
        }
    }

    /// The text under a key of an object.
    pub open spec fn text_under(self, key: Seq<char>) -> Option<Seq<char>> {
        match self.member(key) {
            Some(m) => m.text(),
            None => None,
        }
    }

    /// The items under a key of an object.
    pub open spec fn items_under(self, key: Seq<char>) -> Option<Seq<JsonView>> {
        match self.member(key) {
            Some(m) => m.items(),
            None => None,
        }
    }
}

// ---------------------------------------------------------------------------
// What `serde_json` holds and does
// ---------------------------------------------------------------------------

/// A document, as `serde_json` holds it.
#[verifier::external_type_specification]
#[verifier::external_body]
pub struct ExValue(serde_json::Value);

/// The members of an object, as `serde_json` holds them.
#[verifier::external_type_specification]
#[verifier::external_body]
#[verifier::reject_recursive_types(K)]
#[verifier::reject_recursive_types(V)]
pub struct ExMap<K, V>(serde_json::Map<K, V>);

/// What a `serde_json::Value` holds.
pub uninterp spec fn json_view(document: serde_json::Value) -> JsonView;

/// What a `serde_json::Map` holds: each member under its key.
pub uninterp spec fn json_members(object: serde_json::Map<String, serde_json::Value>) -> Map<
    Seq<char>,
    JsonView,
>;

/// The document that a text writes; `None` where the text is not exactly
/// one document in JSON.
pub uninterp spec fn json_document(text: Seq<char>) -> Option<JsonView>;

/// The compact text of a document: no white space between its parts, and
/// the members of an object in the order of their keys.
pub uninterp spec fn json_text(document: JsonView) -> Seq<char>;

/// What each of a list of values holds.
pub open spec fn json_views(values: Seq<serde_json::Value>) -> Seq<JsonView> {
    Seq::new(values.len(), |i: int| json_view(values[i]))
}

/// `serde_json::from_str` at the type `Value`: the document that the text
/// writes, or nothing where the text is not one document in JSON.
#[verifier::external_body]
pub(crate) fn parse_document(text: &str) -> (document: Option<serde_json::Value>)
    ensures
        document matches Some(d) ==> json_document(text@) == Some(json_view(d)),
        document is None ==> json_document(text@) is None,
{
    serde_json::from_str::<serde_json::Value>(text).ok()
}

/// `Value::get` with a string: the member of an object under `key`, and
/// nothing where the document is no object or has no such member.
#[verifier::external_body]
pub(crate) fn member<'a>(document: &'a serde_json::Value, key: &str) -> (found: Option<
    &'a serde_json::Value,
>)
    ensures
        found matches Some(m) ==> json_view(*document).member(key@) == Some(json_view(*m)),
        found is None ==> json_view(*document).member(key@) is None,
{
    document.get(key)
}

/// `Value::as_array`: the items of a list, and nothing where the document is
/// no list.
#[verifier::external_body]
pub(crate) fn items<'a>(document: &'a serde_json::Value) -> (found: Option<
    &'a Vec<serde_json::Value>,
>)
    ensures
        found matches Some(v) ==> json_view(*document).items() == Some(json_views(v@)),
        found is None ==> json_view(*document).items() is None,
{
    document.as_array()
}

/// `Value::as_bool`: the flag that the document is.
#[verifier::external_body]
pub(crate) fn as_flag(document: &serde_json::Value) -> (found: Option<bool>)
    ensures
        found == json_view(*document).flag(),
{
    document.as_bool()
}

/// `Value::as_u64`: the unsigned number that the document is.
#[verifier::external_body]
pub(crate) fn as_unsigned(document: &serde_json::Value) -> (found: Option<u64>)
    ensures
        found == json_view(*document).unsigned(),
{
    document.as_u64()
}

/// `Value::as_str`: the text that the document is.
#[verifier::external_body]
pub(crate) fn as_string<'a>(document: &'a serde_json::Value) -> (found: Option<&'a str>)
    ensures
        found matches Some(s) ==> json_view(*document).text() == Some(s@),
        found is None ==> json_view(*document).text() is None,
{
    document.as_str()
}

/// `Value::from` of a string slice: the document that is this text.
#[verifier::external_body]
pub(crate) fn value_of_text(text: &str) -> (document: serde_json::Value)
    ensures
        json_view(document) == JsonView::Text(text@),
{
    serde_json::Value::from(text)
}

/// `Value::from` of a `u64`: the document that is this number.
#[verifier::external_body]
pub(crate) fn value_of_unsigned(n: u64) -> (document: serde_json::Value)
    ensures
        json_view(document) == JsonView::Number(NumberView::Unsigned(n)),
{
    serde_json::Value::from(n)
}

/// `Value::from` of a `bool`: the document that is this flag.
#[verifier::external_body]
pub(crate) fn value_of_flag(b: bool) -> (document: serde_json::Value)
    ensures
        json_view(document) == JsonView::Flag(b),
{
    serde_json::Value::from(b)
}

/// `Map::new`: an object without members.
#[verifier::external_body]
pub(crate) fn new_object() -> (object: serde_json::Map<String, serde_json::Value>)
    ensures
        json_members(object) == empty_object(),
{
    serde_json::Map::new()
}

/// `Map::insert`: the object has the value under the key, in place of what
/// it had there, and is otherwise as before.
#[verifier::external_body]
pub(crate) fn insert_member(
    object: &mut serde_json::Map<String, serde_json::Value>,
    key: &str,
    value: serde_json::Value,
)
    ensures
        json_members(*final(object)) == json_members(*old(object)).insert(key@, json_view(value)),
{
    object.insert(key.to_owned(), value);
}

/// `to_string` of `Value::Object`, which writes as `Display` for `Value`
/// does: the compact text of the object with these members.
#[verifier::external_body]
pub(crate) fn object_text(object: serde_json::Map<String, serde_json::Value>) -> (text: String)
    ensures
        text@ == json_text(JsonView::Object(json_members(object))),
{
    serde_json::Value::Object(object).to_string()
}

// ---------------------------------------------------------------------------
// Reading and writing, step by step
// ---------------------------------------------------------------------------

/// No members at all.
pub open spec fn empty_object() -> Map<Seq<char>, JsonView> {
    Map::empty()
}

/// The flag under a key of an object.
pub(crate) fn flag_under(document: &serde_json::Value, key: &str) -> (found: Option<bool>)
    ensures
        found == json_view(*document).flag_under(key@),
{
    match member(document, key) {
        Some(m) => as_flag(m),
        None => None,
    }
}

/// The unsigned number under a key of an object.
pub(crate) fn unsigned_under(document: &serde_json::Value, key: &str) -> (found: Option<u64>)
    ensures
        found == json_view(*document).unsigned_under(key@),
{
    match member(document, key) {
        Some(m) => as_unsigned(m),
        None => None,
    }
}

/// The text under a key of an object.
pub(crate) fn text_under(document: &serde_json::Value, key: &str) -> (found: Option<String>)
    ensures
        text_view(found) == json_view(*document).text_under(key@),
{
    match member(document, key) {
        Some(m) => match as_string(m) {
            Some(s) => Some(s.to_owned()),
            None => None,
        },
        None => None,
    }
}

/// The items under a key of an object.
pub(crate) fn items_under<'a>(document: &'a serde_json::Value, key: &str) -> (found: Option<
    &'a Vec<serde_json::Value>,
>)
    ensures
        found matches Some(v) ==> json_view(*document).items_under(key@) == Some(json_views(v@)),
        found is None ==> json_view(*document).items_under(key@) is None,
{
    match member(document, key) {
        Some(m) => items(m),
        None => None,
    }
}

} // verus!
