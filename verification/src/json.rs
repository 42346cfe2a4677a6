//! JSON values: a mathematical model of `serde_json::Value`, and the calls that read, build, parse
//! and write one.
use serde_json::Value;
use vstd::prelude::*;

verus! {

/// What a JSON value holds.
pub enum Json {
    /// The JSON `null`.
    Null,
    /// A JSON boolean.
    Bool(bool),
    /// A non-negative integer.
    PosInt(u64),
    /// A negative integer.
    NegInt(i64),
    /// Any other number, by the text it is written as.
    Float(Seq<char>),
    /// A JSON string.
    Str(Seq<char>),
    /// A JSON array.
    Array(Seq<Json>),
    /// A JSON object.
    Object(Map<Seq<char>, Json>),
}

/// The outside type `serde_json::Value`, opaque here; `json` names what it holds.
#[verifier::external_type_specification]
#[verifier::external_body]
pub struct ExValue(Value);

/// The outside type `serde_json::Error`, opaque here.
#[verifier::external_type_specification]
#[verifier::external_body]
pub struct ExJsonError(serde_json::Error);

/// What a `serde_json::Value` holds.
pub uninterp spec fn json(value: Value) -> Json;

/// The value that `serde_json::from_str` reads out of a text; `None` where it fails.
pub uninterp spec fn parsed(text: Seq<char>) -> Option<Json>;

/// The text that `serde_json::to_string` writes for a value; `None` where it fails.
pub uninterp spec fn written(value: Json) -> Option<Seq<char>>;

/// The compact text that a value is displayed as.
pub uninterp spec fn displayed(value: Json) -> Seq<char>;

/// What an optional value holds.
pub open spec fn json_opt(value: Option<Value>) -> Option<Json> {
    match value {
        Some(held) => Some(json(held)),
        None => None,
    }
}

/// The member of an object under a key; `None` for a missing key or anything but an object.
pub open spec fn member(value: Json, key: Seq<char>) -> Option<Json> {
    match value {
        Json::Object(members) => if members.contains_key(key) {
            Some(members[key])
        } else {
            None
        },
        _ => None,
    }
}

/// The value two keys deep.
pub open spec fn member2(value: Json, outer: Seq<char>, inner: Seq<char>) -> Option<Json> {
    match member(value, outer) {
        Some(found) => member(found, inner),
        None => None,
    }
}

/// The text of a JSON string; `None` for anything else.
pub open spec fn string_of(value: Json) -> Option<Seq<char>> {
    match value {
        Json::Str(text) => Some(text),
        _ => None,
    }
}

/// The text of a string member.
pub open spec fn string_member(value: Json, key: Seq<char>) -> Option<Seq<char>> {
    match member(value, key) {
        Some(found) => string_of(found),
        None => None,
    }
}

/// The text of a string member two keys deep.
pub open spec fn string_member2(value: Json, outer: Seq<char>, inner: Seq<char>) -> Option<
    Seq<char>,
> {
    match member(value, outer) {
        Some(found) => string_member(found, inner),
        None => None,
    }
}

/// The members that a list of entries makes up; a later entry replaces an earlier one of its key.
pub open spec fn members_of(entries: Seq<(String, Value)>) -> Map<Seq<char>, Json>
    decreases entries.len(),
{
    if entries.len() == 0 {
        Map::empty()
    } else {
        members_of(entries.drop_last()).insert(entries.last().0@, json(entries.last().1))
    }
}

/// Whether a value nests at most so deep, and holds neither a number that is no integer nor an
/// object with the member name that `serde_json` keeps for raw values.
pub open spec fn plain(value: Json, depth: nat) -> bool
    decreases depth,
{
    match value {
        Json::Float(_) => false,
        Json::Array(items) => depth > 0 && forall|i: int|
            0 <= i < items.len() ==> plain(#[trigger] items[i], (depth - 1) as nat),
        Json::Object(members) => {
            &&& depth > 0
            &&& !members.contains_key("$serde_json::private::RawValue"@)
            &&& forall|key: Seq<char>| #[trigger]
                members.contains_key(key) ==> plain(members[key], (depth - 1) as nat)
        },
        _ => true,
    }
}

/// `serde_json::from_str::<Value>`: whether a text parses, and to what, depends on the text alone.
#[verifier::external_body]
pub(crate) fn json_parse(text: &str) -> (result: Result<Value, serde_json::Error>)
    ensures
        (match result {
            Ok(value) => Some(json(value)),
            Err(_) => None,
        }) == parsed(text@),
{
    serde_json::from_str::<Value>(text)
}

/// `serde_json::to_string` of a value: whether it is written, and as what, depends on what the
/// value holds alone. A plain value within the nesting limit of the parser is written as a text
/// that parses to it again; of other values that is not said, as a fraction can come back rounded
/// and deeper nesting is not read.
#[verifier::external_body]
pub(crate) fn json_write(value: &Value) -> (result: Result<String, serde_json::Error>)
    ensures
        (match result {
            Ok(text) => Some(text@),
            Err(_) => None,
        }) == written(json(*value)),
        plain(json(*value), 127) ==> (match result {
            Ok(text) => parsed(text@) == Some(json(*value)),
            Err(_) => false,
        }),
{
    serde_json::to_string(value)
}

/// The `Display` of `Value`: the text depends on what the value holds alone. It is the compact text
/// that `serde_json::to_string` writes, so a plain value within the nesting limit of the parser is
/// displayed as a text that parses to it again.
#[verifier::external_body]
pub(crate) fn json_display(value: &Value) -> (text: String)
    ensures
        text@ == displayed(json(*value)),
        written(json(*value)) == Some(text@),
        plain(json(*value), 127) ==> parsed(text@) == Some(json(*value)),
{
    format!("{value}")
}

/// `Value::get` with a string index: the member of an object under that key.
#[verifier::external_body]
pub(crate) fn json_get<'a>(value: &'a Value, key: &str) -> (result: Option<&'a Value>)
    ensures
        (match result {
            Some(found) => Some(json(*found)),
            None => None,
        }) == member(json(*value), key@),
{
    value.get(key)
}

/// `Value::as_str`: the text of a JSON string.
#[verifier::external_body]
pub(crate) fn json_as_str(value: &Value) -> (result: Option<&str>)
    ensures
        (match result {
            Some(text) => Some(text@),
            None => None,
        }) == string_of(json(*value)),
{
    value.as_str()
}

/// `Value::as_u64`: the number of a non-negative integer.
#[verifier::external_body]
pub(crate) fn json_as_u64(value: &Value) -> (result: Option<u64>)
    ensures
        result == (match json(*value) {
            Json::PosInt(number) => Some(number),
            _ => None,
        }),
{
    value.as_u64()
}

/// `Value::is_object`.
#[verifier::external_body]
pub(crate) fn json_is_object(value: &Value) -> (result: bool)
    ensures
        result == (json(*value) is Object),
{
    value.is_object()
}

/// `Value::clone`: the copy holds what the value holds.
#[verifier::external_body]
pub(crate) fn json_clone(value: &Value) -> (copy: Value)
    ensures
        json(copy) == json(*value),
{
    value.clone()
}

/// `Value::Null`.
#[verifier::external_body]
pub(crate) fn json_null() -> (value: Value)
    ensures
        json(value) is Null,
{
    Value::Null
}

/// `Value::String`.
#[verifier::external_body]
pub(crate) fn json_string(text: String) -> (value: Value)
    ensures
        json(value) == Json::Str(text@),
{
    Value::String(text)
}

/// `Value::from` an unsigned number.
#[verifier::external_body]
pub(crate) fn json_number(number: u64) -> (value: Value)
    ensures
        json(value) == Json::PosInt(number),
{
    Value::from(number)
}

/// `Value::Array` of elements in order.
#[verifier::external_body]
pub(crate) fn json_array(items: Vec<Value>) -> (value: Value)
    ensures
        json(value) == Json::Array(Seq::new(items@.len(), |i: int| json(items@[i]))),
{
    Value::Array(items)
}

/// `Value::Object` of `serde_json::Map::from_iter`: a later entry replaces an earlier one of its
/// key.
#[verifier::external_body]
pub(crate) fn json_object(entries: Vec<(String, Value)>) -> (value: Value)
    ensures
        json(value) == Json::Object(members_of(entries@)),
{
    Value::Object(serde_json::Map::from_iter(entries))
}

/// The text of a string member, borrowed from the value.
pub(crate) fn get_str<'a>(value: &'a Value, key: &str) -> (result: Option<&'a str>)
    ensures
        (match result {
            Some(text) => Some(text@),
            None => None,
        }) == string_member(json(*value), key@),
{
    match json_get(value, key) {
        Some(found) => json_as_str(found),
        None => None,
    }
}

/// The text of a string member two keys deep, borrowed from the value.
pub(crate) fn get_str2<'a>(value: &'a Value, outer: &str, inner: &str) -> (result: Option<&'a str>)
    ensures
        (match result {
            Some(text) => Some(text@),
            None => None,
        }) == string_member2(json(*value), outer@, inner@),
{
    match json_get(value, outer) {
        Some(found) => get_str(found, inner),
        None => None,
    }
}

/// An object of one member.
pub(crate) fn object1(key: &str, value: Value) -> (object: Value)
    ensures
        json(object) == Json::Object(Map::empty().insert(key@, json(value))),
{
    let ghost held = json(value);
    let entries: Vec<(String, Value)> = vec![(key.to_owned(), value)];
    proof {
        reveal_with_fuel(members_of, 2);
        assert(entries@.drop_last() =~= Seq::empty());
    }
    json_object(entries)
}

/// An object of two members.
pub(crate) fn object2(key1: &str, value1: Value, key2: &str, value2: Value) -> (object: Value)
    ensures
        json(object) == Json::Object(
            Map::empty().insert(key1@, json(value1)).insert(key2@, json(value2)),
        ),
{
    let entries: Vec<(String, Value)> = vec![(key1.to_owned(), value1), (key2.to_owned(), value2)];
    proof {
        reveal_with_fuel(members_of, 3);
        assert(entries@.drop_last().drop_last() =~= Seq::empty());
    }
    json_object(entries)
}

/// An object of three members.
pub(crate) fn object3(
    key1: &str,
    value1: Value,
    key2: &str,
    value2: Value,
    key3: &str,
    value3: Value,
) -> (object: Value)
    ensures
        json(object) == Json::Object(
            Map::empty().insert(key1@, json(value1)).insert(key2@, json(value2)).insert(
                key3@,
                json(value3),
            ),
        ),
{
    let entries: Vec<(String, Value)> = vec![
        (key1.to_owned(), value1),
        (key2.to_owned(), value2),
        (key3.to_owned(), value3),
    ];
    proof {
        reveal_with_fuel(members_of, 4);
        assert(entries@.drop_last().drop_last().drop_last() =~= Seq::empty());
    }
    json_object(entries)
}

} // verus!
