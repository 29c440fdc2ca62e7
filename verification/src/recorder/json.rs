//! JSON objects of the recorder's messages, built through `serde_json`.
//!
//! The members of an object are modelled as a map from keys to [`JsonItem`]s;
//! the bytes of a serialised object are named by [`json_object_bytes`].

use vstd::prelude::*;

verus! {

#[verifier::external_type_specification]
#[verifier::external_body]
#[verifier::reject_recursive_types(K)]
#[verifier::reject_recursive_types(V)]
pub struct ExJsonMap<K, V>(serde_json::Map<K, V>);

#[verifier::external_type_specification]
#[verifier::external_body]
pub struct ExJsonValue(serde_json::Value);

#[verifier::external_type_specification]
#[verifier::external_body]
pub struct ExJsonError(serde_json::Error);

/// A JSON object of `serde_json`, keyed by strings.
pub type JsonObject = serde_json::Map<String, serde_json::Value>;

/// A JSON value as the recorder's messages use them: an unsigned integer, a
/// string, or an object.
pub ghost enum JsonItem {
    UInt(u64),
    Str(Seq<char>),
    Object(Map<Seq<char>, JsonItem>),
}

/// The members of a `serde_json` object: each key with the value it holds.
pub uninterp spec fn json_object_members(m: JsonObject) -> Map<Seq<char>, JsonItem>;

/// The bytes that `serde_json::to_vec` gives for an object with these members.
pub uninterp spec fn json_object_bytes(members: Map<Seq<char>, JsonItem>) -> Seq<u8>;

/// A value to put into an object: the `serde_json` value that it becomes is
/// made from exactly what it holds.
pub enum JsonValue {
    UInt(u64),
    Str(String),
    Object(JsonObject),
}

/// The model of a value put into an object.
pub open spec fn json_item(v: JsonValue) -> JsonItem {
    match v {
        JsonValue::UInt(n) => JsonItem::UInt(n),
        JsonValue::Str(s) => JsonItem::Str(s@),
        JsonValue::Object(m) => JsonItem::Object(json_object_members(m)),
    }
}

/// The members of an empty object.
pub open spec fn no_members() -> Map<Seq<char>, JsonItem> {
    Map::empty()
}

/// An empty object, through `serde_json::Map::new`.
#[verifier::external_body]
pub(crate) fn json_object_new() -> (r: JsonObject)
    ensures
        json_object_members(r) == no_members(),
{
    serde_json::Map::new()
}

/// Sets member `key` of `m` to `value`, through `serde_json::Map::insert`; the
/// value becomes `Value::Number`, `Value::String` or `Value::Object` of what it
/// holds. Claims that the members change exactly as a map insertion does, which
/// is what `Map::insert` documents (a present key gets the new value).
#[verifier::external_body]
pub(crate) fn json_object_insert(
    m: &mut JsonObject,
    key: &str,
    value: JsonValue,
)
    ensures
        json_object_members(*final(m)) == json_object_members(*old(m)).insert(
            key@,
            json_item(value),
        ),
{
    let v = match value {
        JsonValue::UInt(n) => serde_json::Value::from(n),
        JsonValue::Str(s) => serde_json::Value::String(s),
        JsonValue::Object(o) => serde_json::Value::Object(o),
    };
    m.insert(key.to_string(), v);
}

/// Serialises the object `m` through `serde_json::to_vec`.
///
/// Claims that this succeeds, as `to_vec` documents for a value whose keys are all
/// strings and whose `Serialize` never fails (`Map<String, Value>` into a `Vec`),
/// and that the bytes are `json_object_bytes` of the members, a function of them
/// alone.
#[verifier::external_body]
fn json_object_to_vec(m: &JsonObject) -> (r: Result<Vec<u8>, serde_json::Error>)
    ensures
        r is Ok,
        r matches Ok(b) ==> b@ == json_object_bytes(json_object_members(*m)),
{
    serde_json::to_vec(m)
}

/// The serialised bytes of object `m`.
pub fn json_object_bytes_of(m: &JsonObject) -> (r: Vec<u8>)
    ensures
        r@ == json_object_bytes(json_object_members(*m)),
{
    match json_object_to_vec(m) {
        Ok(b) => b,
        Err(_) => {
            proof {
                assert(false);
            }
            Vec::new()
        },
    }
}

} // verus!
