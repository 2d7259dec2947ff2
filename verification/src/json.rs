//! JSON documents: what a `serde_json::Value` holds, and the few operations on it that the
//! benchmark report is built from.
use vstd::prelude::*;

verus! {

/// What a JSON value holds.
///
/// An object is the mapping from its member names to its members: the order of the members is
/// not part of it. A number is `Integer` when `serde_json` stores it as a 64-bit integer, and
/// otherwise `Decimal` with the text that it is printed as.
pub enum Json {
    Null,
    Bool(bool),
    Integer(int),
    Decimal(Seq<char>),
    Text(Seq<char>),
    Array(Seq<Json>),
    Object(Map<Seq<char>, Json>),
}

impl Json {
    /// Whether members can be set on this value: it is an object, or null, which counts as an
    /// object without members.
    pub open spec fn accepts_members(self) -> bool {
        self is Object || self is Null
    }

    /// The members of an object; none for any other value.
    pub open spec fn members(self) -> Map<Seq<char>, Json> {
        match self {
            Json::Object(members) => members,
            _ => Map::empty(),
        }
    }

    /// The object that holds the members of this value and `member` under `name`, in place of
    /// the member that had this name before.
    pub open spec fn with_member(self, name: Seq<char>, member: Json) -> Json {
        Json::Object(self.members().insert(name, member))
    }

    /// Whether this value holds no number other than integers, at any depth.
    pub open spec fn integral(self) -> bool
        decreases self,
    {
        match self {
            Json::Decimal(_) => false,
            Json::Array(items) => forall|i: int|
                0 <= i < items.len() ==> (#[trigger] items[i]).integral(),
            Json::Object(members) => forall|name: Seq<char>|
                members.contains_key(name) ==> (#[trigger] members[name]).integral(),
            _ => true,
        }
    }

    /// Whether this value nests arrays and objects at most `depth` deep.
    pub open spec fn nests_within(self, depth: nat) -> bool
        decreases depth,
    {
        match self {
            Json::Array(items) => {
                &&& depth > 0
                &&& forall|i: int|
                    0 <= i < items.len() ==> (#[trigger] items[i]).nests_within((depth - 1) as nat)
            },
            Json::Object(members) => {
                &&& depth > 0
                &&& forall|name: Seq<char>|
                    members.contains_key(name) ==> (#[trigger] members[name]).nests_within(
                        (depth - 1) as nat,
                    )
            },
            _ => true,
        }
    }
}

/// How deep arrays and objects may nest in a text that `serde_json` parses.
pub open spec fn max_text_depth() -> nat {
    127
}

/// The object without members.
pub open spec fn empty_object() -> Json {
    Json::Object(Map::empty())
}

/// Declares `serde_json::Value`. `json_tree` tells what a value of it holds.
#[verifier::external_type_specification]
#[verifier::external_body]
pub struct ExValue(serde_json::Value);

/// What a `serde_json::Value` holds.
pub uninterp spec fn json_tree(value: serde_json::Value) -> Json;

/// What `serde_json::from_str` makes of a text: the document, or, when the text is not a JSON
/// document that it accepts, the message of its error.
pub uninterp spec fn parse_text(text: Seq<char>) -> Result<Json, Seq<char>>;

/// Whether parsing the text gives the document.
pub open spec fn reads_as(text: Seq<char>, document: Json) -> bool {
    parse_text(text) is Ok && parse_text(text)->Ok_0 == document
}

/// The text that `serde_json::to_string_pretty` prints for a document.
pub uninterp spec fn pretty_text(document: Json) -> Seq<char>;

/// Calls `serde_json::from_str` and, on its error, takes the error's message. The result is
/// determined by the text: `parse_text` names it. The text `{}` is the object without members.
/// The parser does not accept a document that nests deeper than `max_text_depth`.
#[verifier::external_body]
pub(crate) fn json_from_str(text: &str) -> (result: Result<serde_json::Value, String>)
    ensures
        result is Ok ==> reads_as(text@, json_tree(result->Ok_0)),
        result is Err ==> parse_text(text@) is Err && parse_text(text@)->Err_0 == result->Err_0@,
        result is Ok ==> json_tree(result->Ok_0).nests_within(max_text_depth()),
        text@ == "{}"@ ==> result is Ok && json_tree(result->Ok_0) == empty_object(),
{
    match serde_json::from_str(text) {
        Ok(value) => Ok(value),
        Err(error) => Err(error.to_string()),
    }
}

/// Calls `serde_json::to_string_pretty`, which does not fail on a `Value`: all its member names
/// are strings and all its numbers are finite. The text is determined by what the value holds:
/// `pretty_text` names it. Parsing the text gives the document back, unless the document holds a
/// decimal number, which parsing may round, or nests deeper than the parser accepts.
#[verifier::external_body]
pub(crate) fn json_to_string_pretty(value: &serde_json::Value) -> (text: String)
    ensures
        text@ == pretty_text(json_tree(*value)),
        json_tree(*value).integral() && json_tree(*value).nests_within(max_text_depth())
            ==> reads_as(text@, json_tree(*value)),
{
    serde_json::to_string_pretty(value).expect("failed to convert json to String")
}

/// Assigns to `value[name]`, the `IndexMut` of `serde_json::Value` by a string: on an object it
/// sets the member, new or not; null first becomes the object without members; on any other
/// value it panics.
#[verifier::external_body]
pub(crate) fn json_set(value: &mut serde_json::Value, name: &str, member: serde_json::Value)
    requires
        json_tree(*old(value)).accepts_members(),
    ensures
        json_tree(*final(value)) == json_tree(*old(value)).with_member(name@, json_tree(member)),
{
    value[name] = member;
}

/// Calls `serde_json::Value::is_object`.
#[verifier::external_body]
pub(crate) fn json_is_object(value: &serde_json::Value) -> (result: bool)
    ensures
        result == (json_tree(*value) is Object),
{
    value.is_object()
}

/// Calls `serde_json::Value::is_null`.
#[verifier::external_body]
pub(crate) fn json_is_null(value: &serde_json::Value) -> (result: bool)
    ensures
        result == (json_tree(*value) is Null),
{
    value.is_null()
}

/// Makes a `serde_json::Value` from a `usize`: the number with this value.
#[verifier::external_body]
pub(crate) fn json_from_usize(n: usize) -> (value: serde_json::Value)
    ensures
        json_tree(value) == Json::Integer(n as int),
{
    serde_json::Value::from(n)
}

/// Makes a `serde_json::Value` from a `&str`: the string with this text.
#[verifier::external_body]
pub(crate) fn json_from_text(text: &str) -> (value: serde_json::Value)
    ensures
        json_tree(value) == Json::Text(text@),
{
    serde_json::Value::from(text)
}

/// Makes a `serde_json::Value` from a vector of values: the array of these items, in order.
#[verifier::external_body]
pub(crate) fn json_from_items(items: Vec<serde_json::Value>) -> (value: serde_json::Value)
    ensures
        json_tree(value) == Json::Array(
            items@.map_values(|item: serde_json::Value| json_tree(item)),
        ),
{
    serde_json::Value::from(items)
}

/// Makes a `serde_json::Value` from a new `serde_json::Map`: the object without members.
#[verifier::external_body]
pub(crate) fn json_new_object() -> (value: serde_json::Value)
    ensures
        json_tree(value) == empty_object(),
{
    serde_json::Value::from(serde_json::Map::new())
}

/// The members of an object are its own, and only objects have members; objects and null, and no
/// other value, take members.
pub proof fn law_members_of_values(value: Json)
    ensures
        value matches Json::Object(members) ==> value.members() == members,
        value !is Object ==> value.members().dom() == Set::<Seq<char>>::empty(),
        value.accepts_members() <==> value is Object || value is Null,
        empty_object() is Object,
        empty_object()->Object_0.dom() == Set::<Seq<char>>::empty(),
{
}

/// Setting a member gives an object that has this member, and keeps every other member of an
/// object; null gives it no other member.
pub proof fn law_setting_a_member(value: Json, name: Seq<char>, member: Json, other: Seq<char>)
    requires
        other != name,
    ensures
        value.with_member(name, member) is Object,
        value.with_member(name, member)->Object_0.contains_key(name),
        value.with_member(name, member)->Object_0[name] == member,
        value is Object ==> (value.with_member(name, member)->Object_0.contains_key(other)
            <==> value->Object_0.contains_key(other)),
        value is Object ==> value.with_member(name, member)->Object_0[other]
            == value->Object_0[other],
        value is Null ==> !value.with_member(name, member)->Object_0.contains_key(other),
{
}

/// A value is integral unless it is a decimal number or holds one.
pub proof fn law_integral_values(value: Json)
    ensures
        value is Null || value is Bool || value is Integer || value is Text ==> value.integral(),
        value is Decimal ==> !value.integral(),
        value matches Json::Array(items) ==> (value.integral() <==> forall|i: int|
            0 <= i < items.len() ==> (#[trigger] items[i]).integral()),
        value matches Json::Object(members) ==> (value.integral() <==> forall|name: Seq<char>|
            members.contains_key(name) ==> (#[trigger] members[name]).integral()),
{
}

} // verus!
