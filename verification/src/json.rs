//! JSON documents: what they stand for, and the calls into `serde_json` that
//! read and write them.

use serde_json::{Error as JsonError, Value};
use vstd::prelude::*;

verus! {

/// The tree that a JSON document stands for.
#[verifier::ext_equal]
pub enum Json {
    Null,
    Bool(bool),
    /// A number without fraction, not negative.
    Unsigned(u64),
    /// A number without fraction, negative.
    Signed(i64),
    /// Any other number, by the bits of its `f64`.
    Float(u64),
    Text(Seq<char>),
    Array(Seq<Json>),
    Object(Map<Seq<char>, Json>),
}

/// The number of characters up to which a text is parsed.
pub const LONGEST_TEXT: usize = 0x7FFF_FFFF;

/// How deeply the documents may be nested that are written down.
pub const READABLE_DEPTH: u8 = 100;

impl Json {
    /// The member of an object under `key`; null where there is none.
    pub open spec fn field(self, key: Seq<char>) -> Json {
        match self {
            Json::Object(members) => if members.contains_key(key) {
                members[key]
            } else {
                Json::Null
            },
            _ => Json::Null,
        }
    }

    /// The tree is an object with this member under `key`.
    pub open spec fn holds(self, key: Seq<char>, member: Json) -> bool {
        self matches Json::Object(members) && members.contains_key(key) && members[key] == member
    }

    /// The number, where it is one that a `u64` holds.
    pub open spec fn as_u64(self) -> Option<u64> {
        match self {
            Json::Unsigned(n) => Some(n),
            _ => None,
        }
    }

    /// The number, where it is one that an `i64` holds.
    pub open spec fn as_i64(self) -> Option<i64> {
        match self {
            Json::Unsigned(n) => if n <= i64::MAX {
                Some(n as i64)
            } else {
                None
            },
            Json::Signed(n) => Some(n),
            _ => None,
        }
    }

    /// The characters of a string.
    pub open spec fn as_text(self) -> Option<Seq<char>> {
        match self {
            Json::Text(s) => Some(s),
            _ => None,
        }
    }

    /// The items of an array.
    pub open spec fn as_items(self) -> Option<Seq<Json>> {
        match self {
            Json::Array(items) => Some(items),
            _ => None,
        }
    }

    /// The tree holds no number with a fraction and is nested at most `depth`
    /// deep.
    pub open spec fn within(self, depth: nat) -> bool
        decreases depth,
    {
        match self {
            Json::Float(_) => false,
            Json::Array(items) => depth > 0 && forall|i: int|
                0 <= i < items.len() ==> (#[trigger] items[i]).within((depth - 1) as nat),
            Json::Object(members) => depth > 0 && forall|key: Seq<char>|
                members.contains_key(key) ==> (#[trigger] members[key]).within((depth - 1) as nat),
            _ => true,
        }
    }
}

/// A JSON document, as `serde_json` holds it.
#[verifier::external_type_specification]
#[verifier::external_body]
pub struct ExValue(Value);

/// Why a text is no JSON document.
#[verifier::external_type_specification]
#[verifier::external_body]
pub struct ExJsonError(JsonError);

/// The tree that a `serde_json::Value` holds.
pub uninterp spec fn json_contents(value: Value) -> Json;

/// The tree that `serde_json::from_str` finds in a text, if it finds one.
pub uninterp spec fn json_parsed(text: Seq<char>) -> Option<Json>;

/// The text that `serde_json` writes for a tree.
pub uninterp spec fn json_rendered(tree: Json) -> Seq<char>;

/// `serde_json::from_str` for a `Value`: the document that `text` is, or an
/// error where it is none. It counts the digits of a long number in an `i32`.
#[verifier::external_body]
pub(crate) fn parse_json(text: &str) -> (r: Result<Value, JsonError>)
    requires
        text@.len() <= LONGEST_TEXT,
    ensures
        match r {
            Ok(value) => json_parsed(text@) == Some(json_contents(value)),
            Err(_) => json_parsed(text@) is None,
        },
{
    serde_json::from_str(text)
}

/// `Value::to_string`: the document, without fractions and not nested too
/// deeply, on one line. `serde_json::from_str` finds it again there.
#[verifier::external_body]
pub(crate) fn json_to_string(value: &Value) -> (text: String)
    requires
        json_contents(*value).within(READABLE_DEPTH as nat),
    ensures
        text@ == json_rendered(json_contents(*value)),
        json_parsed(text@) == Some(json_contents(*value)),
{
    value.to_string()
}

/// `value[key]`: the member of an object, or null.
#[verifier::external_body]
pub(crate) fn json_field<'a>(value: &'a Value, key: &str) -> (r: &'a Value)
    ensures
        json_contents(*r) == json_contents(*value).field(key@),
{
    &value[key]
}

/// `Value::as_u64`.
#[verifier::external_body]
pub(crate) fn json_as_u64(value: &Value) -> (r: Option<u64>)
    ensures
        r == json_contents(*value).as_u64(),
{
    value.as_u64()
}

/// `Value::as_i64`.
#[verifier::external_body]
pub(crate) fn json_as_i64(value: &Value) -> (r: Option<i64>)
    ensures
        r == json_contents(*value).as_i64(),
{
    value.as_i64()
}

/// `Value::as_str`.
#[verifier::external_body]
pub(crate) fn json_as_str(value: &Value) -> (r: Option<&str>)
    ensures
        match r {
            Some(s) => json_contents(*value).as_text() == Some(s@),
            None => json_contents(*value).as_text() is None,
        },
{
    value.as_str()
}

/// `Value::as_array`.
#[verifier::external_body]
pub(crate) fn json_as_array(value: &Value) -> (r: Option<&Vec<Value>>)
    ensures
        match r {
            Some(items) => json_contents(*value).as_items() == Some(
                items@.map_values(|item: Value| json_contents(item)),
            ),
            None => json_contents(*value).as_items() is None,
        },
{
    value.as_array()
}

/// `Value::Null`.
#[verifier::external_body]
pub(crate) fn json_null() -> (value: Value)
    ensures
        json_contents(value) == Json::Null,
{
    Value::Null
}

/// `Value::from` a `bool`.
#[verifier::external_body]
pub(crate) fn json_bool(b: bool) -> (value: Value)
    ensures
        json_contents(value) == Json::Bool(b),
{
    Value::from(b)
}

/// `Value::from` a `u64`.
#[verifier::external_body]
pub(crate) fn json_number(n: u64) -> (value: Value)
    ensures
        json_contents(value) == Json::Unsigned(n),
{
    Value::from(n)
}

/// `Value::from` a string.
#[verifier::external_body]
pub(crate) fn json_string(s: &str) -> (value: Value)
    ensures
        json_contents(value) == Json::Text(s@),
{
    Value::from(s)
}

/// `serde_json::Map::new`, as a document: the object without members.
#[verifier::external_body]
pub(crate) fn json_object() -> (value: Value)
    ensures
        json_contents(value) == Json::Object(Map::empty()),
{
    Value::Object(serde_json::Map::new())
}

/// `value[key] = member` on an object: the member under `key` is set, or put
/// there. On most other values the assignment panics.
#[verifier::external_body]
pub(crate) fn json_set(value: &mut Value, key: &str, member: Value)
    requires
        json_contents(*old(value)) is Object,
    ensures
        json_contents(*final(value)) == Json::Object(
            json_contents(*old(value))->Object_0.insert(key@, json_contents(member)),
        ),
{
    value[key] = member;
}

/// The string under `key`, as an owned copy.
pub(crate) fn text_field(value: &Value, key: &str) -> (r: Option<String>)
    ensures
        match r {
            Some(s) => json_contents(*value).field(key@).as_text() == Some(s@),
            None => json_contents(*value).field(key@).as_text() is None,
        },
{
    match json_as_str(json_field(value, key)) {
        Some(s) => Some(s.to_owned()),
        None => None,
    }
}

/// The number under `key`.
pub(crate) fn number_field(value: &Value, key: &str) -> (r: Option<u64>)
    ensures
        r == json_contents(*value).field(key@).as_u64(),
{
    json_as_u64(json_field(value, key))
}

} // verus!
