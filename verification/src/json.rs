//! JSON documents, as `serde_json` holds them.

use vstd::prelude::*;

verus! {

/// A number in a JSON document.
pub enum JsonNumber {
    /// An integer that is not negative.
    Natural(u64),
    /// A negative integer.
    Negative(i64),
    /// Any other number, by the bits of the double that is nearest to it.
    Double(u64),
}

/// What a JSON document says.
pub enum Json {
    Null,
    Bool(bool),
    Number(JsonNumber),
    Text(Seq<char>),
    Array(Seq<Json>),
    Object(Map<Seq<char>, Json>),
}

impl Json {
    /// The member `key` of an object.
    pub open spec fn member(self, key: Seq<char>) -> Option<Json> {
        match self {
            Json::Object(members) => if members.contains_key(key) {
                Some(members[key])
            } else {
                None
            },
            _ => None,
        }
    }

    /// The text that this document is, if it is one.
    pub open spec fn text(self) -> Option<Seq<char>> {
        match self {
            Json::Text(s) => Some(s),
            _ => None,
        }
    }

    /// The truth value that this document is, if it is one.
    pub open spec fn truth(self) -> Option<bool> {
        match self {
            Json::Bool(b) => Some(b),
            _ => None,
        }
    }

    /// The integer that this document is, if it is one and not negative.
    pub open spec fn natural(self) -> Option<u64> {
        match self {
            Json::Number(JsonNumber::Natural(n)) => Some(n),
            _ => None,
        }
    }

    /// The members of an object.
    pub open spec fn members(self) -> Map<Seq<char>, Json> {
        match self {
            Json::Object(members) => members,
            _ => Map::empty(),
        }
    }
}

/// An object that has one member.
pub open spec fn object_of_one(key: Seq<char>, value: Json) -> Json {
    Json::Object(Map::empty().insert(key, value))
}

/// `serde_json::Value`, a document in memory.
#[verifier::external_type_specification]
#[verifier::external_body]
pub struct ExValue(serde_json::Value);

/// `serde_json::Error`, why a text is no document.
#[verifier::external_type_specification]
#[verifier::external_body]
pub struct ExError(serde_json::Error);

/// What a `serde_json::Value` holds.
pub uninterp spec fn contents(v: serde_json::Value) -> Json;

/// What `serde_json::from_slice` reads out of a text: the document, or the
/// error's message.
pub uninterp spec fn parsed(text: Seq<u8>) -> Result<Json, Seq<char>>;

/// The message of a `serde_json::Error`.
pub uninterp spec fn error_text(e: serde_json::Error) -> Seq<char>;

/// The text that `serde_json::to_vec` writes for a document.
pub uninterp spec fn rendered(doc: Json) -> Seq<u8>;

/// Calls `serde_json::from_slice`. Whether the text is a document, what the
/// document holds and what the error says depend on the text alone.
#[verifier::external_body]
pub(crate) fn parse(text: &[u8]) -> (r: Result<serde_json::Value, serde_json::Error>)
    ensures
        match r {
            Ok(v) => parsed(text@) == Ok::<Json, Seq<char>>(contents(v)),
            Err(e) => parsed(text@) == Err::<Json, Seq<char>>(error_text(e)),
        },
{
    serde_json::from_slice(text)
}

/// Calls `to_string` on a `serde_json::Error`.
#[verifier::external_body]
pub(crate) fn error_message(e: &serde_json::Error) -> (s: String)
    ensures
        s@ == error_text(*e),
{
    e.to_string()
}

/// Calls `serde_json::to_vec`, which does not fail on a `Value`: the text
/// depends on what the document holds alone.
#[verifier::external_body]
pub(crate) fn render(v: &serde_json::Value) -> (text: Vec<u8>)
    ensures
        text@ == rendered(contents(*v)),
{
    serde_json::to_vec(v).unwrap()
}

/// Calls `Value::get` with a key: the member of that name, if the document is
/// an object that has one.
#[verifier::external_body]
pub(crate) fn member<'a>(v: &'a serde_json::Value, key: &str) -> (m: Option<&'a serde_json::Value>)
    ensures
        match m {
            Some(w) => contents(*v).member(key@) == Some(contents(*w)),
            None => contents(*v).member(key@) is None,
        },
{
    v.get(key)
}

/// Calls `Value::as_str`: the text, if the document is one.
#[verifier::external_body]
pub(crate) fn as_text(v: &serde_json::Value) -> (s: Option<&str>)
    ensures
        match s {
            Some(t) => contents(*v).text() == Some(t@),
            None => contents(*v).text() is None,
        },
{
    v.as_str()
}

/// Calls `Value::as_bool`: the truth value, if the document is one.
#[verifier::external_body]
pub(crate) fn as_truth(v: &serde_json::Value) -> (b: Option<bool>)
    ensures
        b == contents(*v).truth(),
{
    v.as_bool()
}

/// Calls `Value::as_u64`: the integer, if the document is one that is not
/// negative.
#[verifier::external_body]
pub(crate) fn as_natural(v: &serde_json::Value) -> (n: Option<u64>)
    ensures
        n == contents(*v).natural(),
{
    v.as_u64()
}

/// Assigns to `v[key]`, through `Value`'s `IndexMut`: the member of that name
/// is replaced, or added. On a document that is no object and not null that
/// would panic.
#[verifier::external_body]
pub(crate) fn set_member(v: &mut serde_json::Value, key: &str, value: serde_json::Value)
    requires
        contents(*old(v)) is Object,
    ensures
        contents(*final(v)) == Json::Object(
            contents(*old(v)).members().insert(key@, contents(value)),
        ),
{
    v[key] = value;
}

/// `Value::Object` of a new `serde_json::Map`, which is empty.
#[verifier::external_body]
pub(crate) fn empty_object() -> (v: serde_json::Value)
    ensures
        contents(v) == Json::Object(Map::empty()),
{
    serde_json::Value::Object(serde_json::Map::new())
}

/// `Value::String`: a text.
#[verifier::external_body]
pub(crate) fn text_value(s: String) -> (v: serde_json::Value)
    ensures
        contents(v) == Json::Text(s@),
{
    serde_json::Value::String(s)
}

/// `Value::from` on a `u64`: a number.
#[verifier::external_body]
pub(crate) fn number_value(n: u64) -> (v: serde_json::Value)
    ensures
        contents(v) == Json::Number(JsonNumber::Natural(n)),
{
    serde_json::Value::from(n)
}

} // verus!
