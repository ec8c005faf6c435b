//! The boundary to the `json` crate, which holds a payload as an object and
//! renders it as text.
//!
//! Nothing in this file is proved. Each function hands its arguments to one
//! function of `json` and states what that function's source shows; the two
//! types are `json`'s own and opaque here. What they hold is spoken of
//! through [`members_held`] and [`value_held`].

use vstd::prelude::*;
use crate::field::Number;

verus! {

/// What a `json` value holds.
pub ghost enum JsonModel {
    Null,
    Boolean(bool),
    Number(Number),
    Text(Seq<char>),
    Array(Seq<JsonModel>),
    Object(Seq<Member>),
}

/// One entry of a `json` object.
pub ghost struct Member {
    pub name: Seq<char>,
    pub value: JsonModel,
}

/// `json::object::Object`: a map from names to values that keeps the order
/// in which the names came.
#[verifier::external_type_specification]
#[verifier::external_body]
pub struct ExObject(json::object::Object);

/// `json::JsonValue`: one value of a document.
#[verifier::external_type_specification]
#[verifier::external_body]
pub struct ExJsonValue(json::JsonValue);

/// The entries of a `json` object, in the order in which it yields them.
pub uninterp spec fn members_held(object: json::object::Object) -> Seq<Member>;

/// What a `json` value holds.
pub uninterp spec fn value_held(value: json::JsonValue) -> JsonModel;

/// The text that `json::stringify` gives for an object with these entries.
pub uninterp spec fn object_text(members: Seq<Member>) -> Seq<char>;

/// Whether one of the entries goes by `name`.
pub open spec fn has_name(members: Seq<Member>, name: Seq<char>) -> bool {
    exists|i: int| 0 <= i < members.len() && #[trigger] members[i].name == name
}

/// The entries after `value` was stored under `name`: in place of what went
/// by that name before, or else as a new last entry.
pub open spec fn put(members: Seq<Member>, name: Seq<char>, value: JsonModel) -> Seq<Member> {
    if has_name(members, name) {
        members.map_values(
            |member: Member|
                if member.name == name {
                    Member { name, value }
                } else {
                    member
                },
        )
    } else {
        members.push(Member { name, value })
    }
}

/// `json::object::Object::new`: an object that has no entry.
#[verifier::external_body]
pub(crate) fn empty_object() -> (object: json::object::Object)
    ensures
        members_held(object) == Seq::<Member>::empty(),
{
    json::object::Object::new()
}

/// `json::number::Number::from_parts`, as a `json` value: the number with
/// these parts, which `from_parts` stores without the zeros at the end of
/// its fraction.
#[verifier::external_body]
pub(crate) fn number_value(positive: bool, mantissa: u64, exponent: i16) -> (value:
    json::JsonValue)
    ensures
        value_held(value) == JsonModel::Number(
            Number::Finite { positive, mantissa, exponent }.canonical(),
        ),
{
    json::JsonValue::Number(json::number::Number::from_parts(positive, mantissa, exponent))
}

/// `json::number::NAN`, as a `json` value: the number that `json` keeps for
/// what is not a number.
#[verifier::external_body]
pub(crate) fn not_a_number_value() -> (value: json::JsonValue)
    ensures
        value_held(value) == JsonModel::Number(Number::NotANumber),
{
    json::JsonValue::Number(json::number::NAN)
}

/// `json::JsonValue::from` on a `bool`: the value that holds this boolean.
#[verifier::external_body]
pub(crate) fn boolean_value(flag: bool) -> (value: json::JsonValue)
    ensures
        value_held(value) == JsonModel::Boolean(flag),
{
    json::JsonValue::from(flag)
}

/// `json::JsonValue::from` on a `&str`: the value that holds this text.
#[verifier::external_body]
pub(crate) fn text_value(text: &str) -> (value: json::JsonValue)
    ensures
        value_held(value) == JsonModel::Text(text@),
{
    json::JsonValue::from(text)
}

/// `json::object::Object::insert`: stores `value` under `name`. A name the
/// object has keeps its place and gets the new value; a name it lacks
/// becomes its last entry.
#[verifier::external_body]
pub(crate) fn insert(object: &mut json::object::Object, name: &str, value: json::JsonValue)
    ensures
        members_held(*final(object)) == put(members_held(*old(object)), name@, value_held(value)),
{
    object.insert(name, value)
}

/// `json::stringify` on an object: its text, which depends on the entries
/// alone.
#[verifier::external_body]
pub(crate) fn stringify(object: json::object::Object) -> (text: String)
    ensures
        text@ == object_text(members_held(object)),
{
    json::stringify(object)
}

} // verus!
