//! JSON values, as `serde_json` holds them.

use vstd::prelude::*;

use crate::text::decimal;

verus! {

/// The data that a JSON value stands for. A number is given by its JSON
/// literal.
pub enum Json {
    Null,
    Bool(bool),
    Number(Seq<char>),
    Text(Seq<char>),
    Array(Seq<Json>),
    Object(Map<Seq<char>, Json>),
}

/// `serde_json::Value`: any JSON value.
#[verifier::external_type_specification]
#[verifier::external_body]
pub struct ExJsonValue(serde_json::Value);

/// `serde_json::Map`: the members of a JSON object.
#[verifier::external_type_specification]
#[verifier::external_body]
#[verifier::reject_recursive_types(K)]
#[verifier::reject_recursive_types(V)]
pub struct ExJsonMap<K, V>(serde_json::Map<K, V>);

/// The data that a `serde_json::Value` holds.
pub uninterp spec fn json_of(value: serde_json::Value) -> Json;

/// The members that a `serde_json::Map` holds.
pub uninterp spec fn members_of(map: serde_json::Map<String, serde_json::Value>) -> Map<Seq<char>, Json>;

/// The compact JSON text that `serde_json` writes for a value. The data alone
/// decide it: the members of an object are kept and written in the order of
/// their names, as long as the feature `preserve_order` is off.
pub uninterp spec fn json_text(data: Json) -> Seq<char>;

/// The data of a list of JSON values, one by one.
pub open spec fn json_list(values: Seq<serde_json::Value>) -> Seq<Json> {
    values.map_values(|value: serde_json::Value| json_of(value))
}

/// `serde_json::Map::new`: a map without members.
#[verifier::external_body]
pub(crate) fn new_members() -> (members: serde_json::Map<String, serde_json::Value>)
    ensures
        members_of(members) == (Map::<Seq<char>, Json>::empty()),
{
    serde_json::Map::new()
}

/// `serde_json::Map::insert`: the member `key` becomes `value`, in place of
/// the one that was there if any. What was there before is dropped.
#[verifier::external_body]
pub(crate) fn insert_member(
    map: &mut serde_json::Map<String, serde_json::Value>,
    key: String,
    value: serde_json::Value,
)
    ensures
        members_of(*final(map)) == members_of(*old(map)).insert(key@, json_of(value)),
{
    map.insert(key, value);
}

/// `Value::from(String)`: a JSON string.
#[verifier::external_body]
pub(crate) fn text_value(text: String) -> (value: serde_json::Value)
    ensures
        json_of(value) == Json::Text(text@),
{
    serde_json::Value::from(text)
}

/// `Value::from(u32)`: a JSON number, whose literal is the decimal numeral.
#[verifier::external_body]
pub(crate) fn number_value(number: u32) -> (value: serde_json::Value)
    ensures
        json_of(value) == Json::Number(decimal(number as int)),
{
    serde_json::Value::from(number)
}

/// `Value::from(bool)`: `true` or `false`.
#[verifier::external_body]
pub(crate) fn bool_value(flag: bool) -> (value: serde_json::Value)
    ensures
        json_of(value) == Json::Bool(flag),
{
    serde_json::Value::from(flag)
}

/// `Value::from(Vec<Value>)`: a JSON array of the given values, in order.
#[verifier::external_body]
pub(crate) fn array_value(items: Vec<serde_json::Value>) -> (value: serde_json::Value)
    ensures
        json_of(value) == Json::Array(json_list(items@)),
{
    serde_json::Value::from(items)
}

/// `Value::from(Map)`: a JSON object with the given members.
#[verifier::external_body]
pub(crate) fn object_value(
    map: serde_json::Map<String, serde_json::Value>,
) -> (value: serde_json::Value)
    ensures
        json_of(value) == Json::Object(members_of(map)),
{
    serde_json::Value::from(map)
}

/// `Value::to_string`, by `Display`: the compact JSON text of the value.
#[verifier::external_body]
pub(crate) fn write_json(value: &serde_json::Value) -> (text: String)
    ensures
        text@ == json_text(json_of(*value)),
{
    value.to_string()
}

/// `Value::as_str`: the text of a JSON string, and nothing for any other
/// value.
pub assume_specification[ serde_json::Value::as_str ](value: &serde_json::Value) -> (text: Option<
    &str,
>)
    ensures
        match json_of(*value) {
            Json::Text(held) => text matches Some(found) && found@ == held,
            _ => text is None,
        },
;

/// The members of a JSON object, and nothing for any other value: tells the
/// variants of `serde_json::Value` apart.
#[verifier::external_body]
pub(crate) fn into_members(value: serde_json::Value) -> (members: Option<
    serde_json::Map<String, serde_json::Value>,
>)
    ensures
        match json_of(value) {
            Json::Object(held) => members matches Some(map) && members_of(map) == held,
            _ => members is None,
        },
{
    match value {
        serde_json::Value::Object(map) => Some(map),
        _ => None,
    }
}

/// The entries are the members, each once.
pub open spec fn lists(
    entries: Seq<(String, serde_json::Value)>,
    members: Map<Seq<char>, Json>,
) -> bool {
    &&& forall|i: int, j: int|
        0 <= i < j < entries.len() ==> (#[trigger] entries[i]).0@ != (#[trigger] entries[j]).0@
    &&& forall|i: int|
        0 <= i < entries.len() ==> members.contains_key((#[trigger] entries[i]).0@)
            && members[entries[i].0@] == json_of(entries[i].1)
    &&& forall|key: Seq<char>| #[trigger]
        members.contains_key(key) ==> exists|i: int|
            0 <= i < entries.len() && (#[trigger] entries[i]).0@ == key
}

/// `serde_json::Map::into_iter`: hands out each member once. In what order is
/// not stated: the crate's features decide it.
#[verifier::external_body]
pub(crate) fn into_entries(map: serde_json::Map<String, serde_json::Value>) -> (entries: Vec<
    (String, serde_json::Value),
>)
    ensures
        lists(entries@, members_of(map)),
{
    map.into_iter().collect()
}

} // verus!
