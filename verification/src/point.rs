//! Points: what the run hands to the vector collection.
//!
//! A point pairs an identifier with the text of the section that it was
//! embedded from. The vector itself never passes through this crate: the
//! caller keeps the vectors in the order in which it reported them, which
//! is the order of the points.

use vstd::prelude::*;

verus! {

/// Name of the payload member that holds the text of a point.
pub const TEXT_FIELD: &'static str = "text";

/// `serde_json::Map`, the object of JSON, as an opaque type: what it holds
/// is spoken of through `member_names` and `string_members`.
#[verifier::external_type_specification]
#[verifier::external_body]
#[verifier::reject_recursive_types(K)]
#[verifier::reject_recursive_types(V)]
pub struct ExJsonMap<K, V>(serde_json::Map<K, V>);

/// `serde_json::Value`, any value of JSON, as an opaque type.
#[verifier::external_type_specification]
#[verifier::external_body]
pub struct ExJsonValue(serde_json::Value);

/// The names of the members of a JSON object.
pub uninterp spec fn member_names(object: serde_json::Map<String, serde_json::Value>) -> Set<
    Seq<char>,
>;

/// The members of a JSON object whose value is a string, by name.
pub uninterp spec fn string_members(object: serde_json::Map<String, serde_json::Value>) -> Map<
    Seq<char>,
    Seq<char>,
>;

/// `serde_json::Map::new`: the result is an object without members.
#[verifier::external_body]
fn empty_object() -> (object: serde_json::Map<String, serde_json::Value>)
    ensures
        member_names(object) =~= Set::empty(),
        string_members(object) =~= Map::empty(),
{
    serde_json::Map::new()
}

/// `serde_json::Map::insert` with the JSON string `value` as the value:
/// `object` gets the member `name`, or has it replaced, and keeps its other
/// members.
#[verifier::external_body]
fn insert_string(
    object: &mut serde_json::Map<String, serde_json::Value>,
    name: &str,
    value: &str,
)
    ensures
        member_names(*final(object)) == member_names(*old(object)).insert(name@),
        string_members(*final(object)) == string_members(*old(object)).insert(name@, value@),
{
    object.insert(String::from(name), serde_json::Value::String(String::from(value)));
}

/// A point as a value of mathematics.
pub struct PointView {
    pub id: u64,
    pub text: Seq<char>,
}

/// A point without its vector.
#[derive(Clone, Debug, PartialEq, Eq)]
pub struct Point {
    /// The identifier under which the point is stored.
    pub id: u64,
    /// The whole text of the section that the point was embedded from.
    pub text: String,
}

impl View for Point {
    type V = PointView;

    open spec fn view(&self) -> PointView {
        PointView { id: self.id, text: self.text@ }
    }
}

impl DeepView for Point {
    type V = PointView;

    open spec fn deep_view(&self) -> PointView {
        self@
    }
}

/// Whether `object` has the member `text` under the name `TEXT_FIELD` and
/// no other member.
pub open spec fn holds_only_text(
    object: serde_json::Map<String, serde_json::Value>,
    text: Seq<char>,
) -> bool {
    &&& member_names(object) =~= Set::empty().insert(TEXT_FIELD@)
    &&& string_members(object) =~= Map::empty().insert(TEXT_FIELD@, text)
}

impl Point {
    /// The payload that is stored with the point: a JSON object whose one
    /// member is the text.
    pub fn payload(&self) -> (object: serde_json::Map<String, serde_json::Value>)
        ensures
            holds_only_text(object, self.text@),
    {
        let mut object = empty_object();
        insert_string(&mut object, TEXT_FIELD, self.text.as_str());
        object
    }

    /// A copy of the point.
    pub fn duplicate(&self) -> (copy: Point)
        ensures
            copy@ == self@,
    {
        Point { id: self.id, text: self.text.clone() }
    }
}

} // verus!
