//! JSON documents held as `serde_json` values.
use serde_json::{Map as JsonMap, Value};
use vstd::prelude::*;

verus! {

/// What a JSON document says, apart from how it is stored.
pub enum Json {
    Null,
    Bool(bool),
    /// A number, by the text it is written as.
    Number(Seq<char>),
    Text(Seq<char>),
    Array(Seq<Json>),
    Object(Map<Seq<char>, Json>),
}

#[verifier::external_type_specification]
#[verifier::external_body]
pub struct ExValue(serde_json::Value);

#[verifier::external_type_specification]
#[verifier::external_body]
#[verifier::reject_recursive_types(K)]
#[verifier::reject_recursive_types(V)]
pub struct ExJsonMap<K, V>(serde_json::Map<K, V>);

/// The document that a `serde_json::Value` holds.
pub uninterp spec fn document(value: Value) -> Json;

/// The fields that a `serde_json::Map` holds.
pub uninterp spec fn fields(map: JsonMap<String, Value>) -> Map<Seq<char>, Json>;

/// No fields at all.
pub open spec fn no_fields() -> Map<Seq<char>, Json> {
    Map::empty()
}

/// `serde_json::Map::new`: a map without fields.
#[verifier::external_body]
pub(crate) fn empty_object() -> (made: JsonMap<String, Value>)
    ensures
        fields(made) == no_fields(),
{
    JsonMap::new()
}

/// `serde_json::Map::insert`: the field is there afterwards with the given
/// value, in place of an earlier value of the same name; all others stay.
#[verifier::external_body]
pub(crate) fn insert_field(map: &mut JsonMap<String, Value>, name: String, value: Value)
    ensures
        fields(*final(map)) == fields(*old(map)).insert(name@, document(value)),
{
    map.insert(name, value);
}

/// `serde_json::Value::Object`: the document with those fields.
#[verifier::external_body]
pub(crate) fn object(map: JsonMap<String, Value>) -> (value: Value)
    ensures
        document(value) == Json::Object(fields(map)),
{
    Value::Object(map)
}

/// `serde_json::Value::String`: the document that is this text.
#[verifier::external_body]
pub(crate) fn text(content: String) -> (value: Value)
    ensures
        document(value) == Json::Text(content@),
{
    Value::String(content)
}

/// Tells the `Object` variant of `serde_json::Value` from the others: an object
/// hands out its fields, anything else is handed back as it was.
#[verifier::external_body]
pub(crate) fn into_object(value: Value) -> (parts: Result<JsonMap<String, Value>, Value>)
    ensures
        match parts {
            Ok(map) => document(value) == Json::Object(fields(map)),
            Err(other) => other == value && !(document(value) is Object),
        },
{
    match value {
        Value::Object(map) => Ok(map),
        other => Err(other),
    }
}

/// The fields that pairs of name and document make: each name with the last
/// document that it is paired with.
pub open spec fn fields_of(pairs: Seq<(String, Value)>) -> Map<Seq<char>, Json>
    decreases pairs.len(),
{
    if pairs.len() == 0 {
        no_fields()
    } else {
        fields_of(pairs.drop_last()).insert(pairs.last().0@, document(pairs.last().1))
    }
}

/// The values of a radar's controls as one object, keyed by the name of the
/// control.
pub fn get_controls(values: Vec<(String, Value)>) -> (controls: Value)
    ensures
        document(controls) == Json::Object(fields_of(values@)),
{
    let ghost all = values@;
    let mut rest = values;
    let mut full = empty_object();
    let ghost mut taken: int = 0;
    assert(all.take(0) =~= Seq::empty());
    while rest.len() > 0
        invariant
            0 <= taken <= all.len(),
            rest@ =~= all.skip(taken),
            fields(full) == fields_of(all.take(taken)),
        decreases rest.len(),
    {
        let (name, value) = rest.remove(0);
        insert_field(&mut full, name, value);
        proof {
            assert(all.take(taken + 1).drop_last() =~= all.take(taken));
            taken = taken + 1;
        }
    }
    assert(all.take(taken) =~= all);
    object(full)
}

/// What a Signal K PUT asks for.
pub struct PutBody {
    /// The path that names the control.
    pub path: String,
    /// The control as a whole, as an object of its fields, or, for a control
    /// that is only a number, that number.
    pub value: Value,
}

/// The control write that a PUT stands for: the fields of the value, or the
/// value itself where it has none, with the path beside them.
pub open spec fn put_document(path: Seq<char>, value: Json) -> Json {
    let written = match value {
        Json::Object(given) => given,
        scalar => no_fields().insert("value"@, scalar),
    };
    Json::Object(written.insert("path"@, Json::Text(path)))
}

/// Turns a Signal K PUT into the control write that it stands for. The path
/// names the control and the value carries its fields, so the two combine into
/// the request that a client writing to the stream directly would have sent.
pub fn control_value_from_put(put: PutBody) -> (write: Value)
    ensures
        document(write) == put_document(put.path@, document(put.value)),
{
    let mut body = match into_object(put.value) {
        Ok(given) => given,
        // A control that is only a number is written as one.
        Err(scalar) => {
            let mut body = empty_object();
            insert_field(&mut body, "value".to_owned(), scalar);
            body
        },
    };
    insert_field(&mut body, "path".to_owned(), text(put.path));
    object(body)
}

/// A PUT always becomes an object that names the path of the PUT, even where
/// the value has a field of that name. Every other field of the value is kept,
/// and a value without fields stands under `value`, alone beside the path.
pub proof fn put_keeps_path_and_fields(path: Seq<char>, value: Json)
    ensures
        put_document(path, value) matches Json::Object(written) && {
            &&& written.contains_key("path"@)
            &&& written["path"@] == Json::Text(path)
            &&& value matches Json::Object(given) ==> forall|name: Seq<char>|
                name != "path"@ ==> (#[trigger] written.contains_key(name) <==> given.contains_key(
                    name,
                )) && (given.contains_key(name) ==> written[name] == given[name])
            &&& !(value is Object) ==> written.dom() == set!["path"@, "value"@]
                && written["value"@] == value
        },
{
    reveal_strlit("path");
    reveal_strlit("value");
    assert("path"@.len() != "value"@.len());
    if !(value is Object) {
        let written = no_fields().insert("value"@, value).insert("path"@, Json::Text(path));
        assert(written.dom() =~= set!["path"@, "value"@]);
    }
}

/// Controls with different names keep their own values.
pub proof fn controls_keep_their_values(values: Seq<(String, Value)>, i: int)
    requires
        0 <= i < values.len(),
        forall|j: int| i < j < values.len() ==> (#[trigger] values[j]).0@ != values[i].0@,
    ensures
        fields_of(values).contains_key(values[i].0@),
        fields_of(values)[values[i].0@] == document(values[i].1),
    decreases values.len(),
{
    if i < values.len() - 1 {
        controls_keep_their_values(values.drop_last(), i);
    }
}

/// The object holds the controls that there are values of, and no others.
pub proof fn every_control_is_in_the_object(values: Seq<(String, Value)>, name: Seq<char>)
    ensures
        fields_of(values).contains_key(name) <==> exists|i: int|
            0 <= i < values.len() && (#[trigger] values[i]).0@ == name,
    decreases values.len(),
{
    if values.len() > 0 {
        let earlier = values.drop_last();
        every_control_is_in_the_object(earlier, name);
        if fields_of(earlier).contains_key(name) {
            let i = choose|i: int| 0 <= i < earlier.len() && (#[trigger] earlier[i]).0@ == name;
            assert(values[i].0@ == name);
        }
        if exists|i: int| 0 <= i < values.len() && (#[trigger] values[i]).0@ == name {
            let i = choose|i: int| 0 <= i < values.len() && (#[trigger] values[i]).0@ == name;
            if i < earlier.len() {
                assert(earlier[i].0@ == name);
            }
        }
        if values.last().0@ == name {
            assert(values[values.len() - 1].0@ == name);
        }
    }
}

} // verus!
