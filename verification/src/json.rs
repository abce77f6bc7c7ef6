use vstd::prelude::*;

verus! {

/// The shape of a JSON value this library builds: strings, arrays and
/// objects only.  An object is the map from its keys to the values stored
/// under them.
pub enum JsonData {
    Str(Seq<char>),
    Arr(Seq<JsonData>),
    Obj(Map<Seq<char>, JsonData>),
}

/// The JSON value type of the outside serialization crate.
#[verifier::external_type_specification]
#[verifier::external_body]
pub struct ExJsonValue(serde_json::Value);

/// What a JSON value holds: `Some` with its shape when the value is built
/// of strings, arrays and objects alone — all this library ever builds —
/// and `None` for any other value.
pub uninterp spec fn json_model(v: serde_json::Value) -> Option<JsonData>;

/// The map a list of fields builds, inserted left to right, so a later
/// duplicate key replaces an earlier one.
pub open spec fn obj_map_of(fields: Seq<(String, serde_json::Value)>) -> Map<Seq<char>, JsonData>
    decreases fields.len(),
{
    if fields.len() == 0 {
        Map::empty()
    } else {
        obj_map_of(fields.drop_last()).insert(
            fields.last().0@,
            json_model(fields.last().1)->Some_0,
        )
    }
}

/// Relies on serde_json::Value::String: the value holds exactly the given
/// string.
#[verifier::external_body]
pub(crate) fn json_string(s: String) -> (r: serde_json::Value)
    ensures
        json_model(r) == Some(JsonData::Str(s@)),
{
    serde_json::Value::String(s)
}

/// Relies on serde_json::Value::Array: the value holds exactly the given
/// items, in order.
#[verifier::external_body]
pub(crate) fn json_array(items: Vec<serde_json::Value>) -> (r: serde_json::Value)
    requires
        forall|i: int| 0 <= i < items@.len() ==> (#[trigger] json_model(items@[i])) is Some,
    ensures
        json_model(r) == Some(
            JsonData::Arr(items@.map_values(|v: serde_json::Value| json_model(v)->Some_0)),
        ),
{
    serde_json::Value::Array(items)
}

/// Relies on serde_json::Value::Object and the map's FromIterator: the
/// value holds the given fields as a map, a later duplicate key replacing
/// an earlier one.
#[verifier::external_body]
pub(crate) fn json_object(fields: Vec<(String, serde_json::Value)>) -> (r: serde_json::Value)
    requires
        forall|i: int| 0 <= i < fields@.len() ==> (#[trigger] json_model(fields@[i].1)) is Some,
    ensures
        json_model(r) == Some(JsonData::Obj(obj_map_of(fields@))),
{
    serde_json::Value::Object(fields.into_iter().collect())
}

} // verus!
