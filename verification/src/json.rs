//! JSON objects of the `serde_json` crate.
use vstd::prelude::*;

verus! {

/// `serde_json::Value`, any JSON value.
#[verifier::external_type_specification]
#[verifier::external_body]
pub struct ExJsonValue(serde_json::Value);

/// `serde_json::Map`, the members of a JSON object.
#[verifier::external_type_specification]
#[verifier::external_body]
#[verifier::reject_recursive_types(K)]
#[verifier::reject_recursive_types(V)]
pub struct ExJsonMap<K, V>(serde_json::Map<K, V>);

/// A simple JSON value.
#[derive(Debug)]
pub enum Scalar {
    Flag(bool),
    Count(u64),
    Text(String),
    Nothing,
}

/// What a JSON value is. Other numbers, arrays and objects are told apart, but not looked into.
pub ghost enum ScalarData {
    Flag(bool),
    Count(u64),
    Text(Seq<char>),
    Nothing,
    Other(Seq<char>),
}

impl View for Scalar {
    type V = ScalarData;

    open spec fn view(&self) -> ScalarData {
        match self {
            Scalar::Flag(b) => ScalarData::Flag(*b),
            Scalar::Count(n) => ScalarData::Count(*n),
            Scalar::Text(s) => ScalarData::Text(s@),
            Scalar::Nothing => ScalarData::Nothing,
        }
    }
}

/// The members of an object, by name.
pub uninterp spec fn members(object: serde_json::Map<String, serde_json::Value>) -> Map<Seq<char>, ScalarData>;

/// The text of an object with these members, without spaces.
pub uninterp spec fn object_text(members: Map<Seq<char>, ScalarData>) -> Seq<char>;

/// No members.
pub open spec fn no_members() -> Map<Seq<char>, ScalarData> {
    Map::empty()
}

/// `serde_json::Map::new`: an object without members.
#[verifier::external_body]
pub(crate) fn new_object() -> (r: serde_json::Map<String, serde_json::Value>)
    ensures
        members(r) == no_members(),
{
    serde_json::Map::new()
}

/// `serde_json::Map::insert` sets a member.
#[verifier::external_body]
pub(crate) fn set_member(
    object: &mut serde_json::Map<String, serde_json::Value>,
    name: String,
    value: Scalar,
)
    ensures
        members(*final(object)) == members(*old(object)).insert(name@, value@),
{
    let value = match value {
        Scalar::Flag(b) => serde_json::Value::Bool(b),
        Scalar::Count(n) => serde_json::Value::from(n),
        Scalar::Text(s) => serde_json::Value::String(s),
        Scalar::Nothing => serde_json::Value::Null,
    };
    object.insert(name, value);
}

/// `serde_json::Value::to_string` on an object: its text depends on the members alone, which
/// are written in the order of their names.
#[verifier::external_body]
pub(crate) fn render_object(object: serde_json::Map<String, serde_json::Value>) -> (r: String)
    ensures
        r@ == object_text(members(object)),
{
    serde_json::Value::Object(object).to_string()
}

} // verus!
