//! JSON objects, as far as a Mermaid configuration needs them.

use vstd::prelude::*;

verus! {

#[verifier::external_type_specification]
#[verifier::external_body]
#[verifier::reject_recursive_types(K)]
#[verifier::reject_recursive_types(V)]
pub struct ExJsonMap<K, V>(serde_json::Map<K, V>);

#[verifier::external_type_specification]
#[verifier::external_body]
pub struct ExJsonValue(serde_json::Value);

/// A JSON value. Values that no configuration here holds are `Other`.
pub enum Json {
    Text(Seq<char>),
    Flag(bool),
    Number(nat),
    Object(Map<Seq<char>, Json>),
    Other,
}

/// The members of a JSON object by their names.
pub uninterp spec fn json_members(
    object: serde_json::Map<String, serde_json::Value>,
) -> Map<Seq<char>, Json>;

/// No members.
pub open spec fn no_members() -> Map<Seq<char>, Json> {
    Map::empty()
}

/// A value for a member of a JSON object.
pub enum JsonMember {
    Text(String),
    Flag(bool),
    Number(u64),
    Object(serde_json::Map<String, serde_json::Value>),
}

impl View for JsonMember {
    type V = Json;

    open spec fn view(&self) -> Json {
        match *self {
            JsonMember::Text(text) => Json::Text(text@),
            JsonMember::Flag(flag) => Json::Flag(flag),
            JsonMember::Number(number) => Json::Number(number as nat),
            JsonMember::Object(object) => Json::Object(json_members(object)),
        }
    }
}

/// A member is seen as the JSON value that it is.
pub proof fn law_json_member(
    text: String,
    flag: bool,
    number: u64,
    object: serde_json::Map<String, serde_json::Value>,
)
    ensures
        JsonMember::Text(text)@ == Json::Text(text@),
        JsonMember::Flag(flag)@ == Json::Flag(flag),
        JsonMember::Number(number)@ == Json::Number(number as nat),
        JsonMember::Object(object)@ == Json::Object(json_members(object)),
{
}

/// `serde_json::Map::new`: an object without members.
#[verifier::external_body]
pub(crate) fn empty_object() -> (r: serde_json::Map<String, serde_json::Value>)
    ensures
        json_members(r) == no_members(),
{
    serde_json::Map::new()
}

/// `serde_json::Map::insert`: the object has the member afterwards, in the place of one of the
/// same name if there was one, and its other members are as before.
#[verifier::external_body]
pub(crate) fn insert_member(
    object: &mut serde_json::Map<String, serde_json::Value>,
    name: &str,
    value: JsonMember,
)
    ensures
        json_members(*final(object)) == json_members(*old(object)).insert(name@, value@),
{
    let value = match value {
        JsonMember::Text(text) => serde_json::Value::from(text),
        JsonMember::Flag(flag) => serde_json::Value::from(flag),
        JsonMember::Number(number) => serde_json::Value::from(number),
        JsonMember::Object(members) => serde_json::Value::from(members),
    };
    object.insert(name.to_owned(), value);
}

} // verus!
