//! The fields of an event: what each kind of field means, and how two of a
//! kind are told apart and copied.

use crate::json::{copy_json, copy_members, json_eq, normalize_bits, normal_bits, object_eq, object_model, JsonModel, JsonValue};
use crate::time::{datetime_text, export_time_layout, serialize_amplitude_timestamp, Timestamp};
use vstd::prelude::*;

verus! {

/// The view of an optional string.
pub open spec fn text_view(text: Option<String>) -> Option<Seq<char>> {
    match text {
        Some(s) => Some(s@),
        None => None,
    }
}

/// The content of an optional JSON value.
pub open spec fn json_view(value: Option<JsonValue>) -> Option<JsonModel> {
    match value {
        Some(v) => Some(v.model()),
        None => None,
    }
}

/// The map that an optional list of members stands for.
pub open spec fn object_view(members: Option<Vec<(String, JsonValue)>>) -> Option<
    Map<Seq<char>, JsonModel>,
> {
    match members {
        Some(m) => Some(object_model(m@)),
        None => None,
    }
}

/// The number that an optional bit pattern of a finite `f64` stands for: both
/// zeros are one number.
pub open spec fn float_view(bits: Option<u64>) -> Option<u64> {
    match bits {
        Some(b) => Some(normal_bits(b)),
        None => None,
    }
}

/// Whether two optional strings hold the same text.
pub fn same_text(a: &Option<String>, b: &Option<String>) -> (same: bool)
    ensures
        same == (text_view(*a) == text_view(*b)),
{
    match (a, b) {
        (None, None) => true,
        (Some(x), Some(y)) => *x == *y,
        _ => false,
    }
}

/// Whether an optional string holds exactly the given text.
pub fn text_is(a: &Option<String>, text: &str) -> (same: bool)
    ensures
        same == (text_view(*a) == Some(text@)),
{
    match a {
        None => false,
        Some(x) => {
            let wanted = text.to_owned();
            *x == wanted
        },
    }
}

/// Whether two optional integers are the same.
pub fn same_integer(a: &Option<i64>, b: &Option<i64>) -> (same: bool)
    ensures
        same == (*a == *b),
{
    match (a, b) {
        (None, None) => true,
        (Some(x), Some(y)) => *x == *y,
        _ => false,
    }
}

/// Whether two optional times are the same instant.
pub fn same_time(a: &Option<Timestamp>, b: &Option<Timestamp>) -> (same: bool)
    ensures
        same == (*a == *b),
{
    match (a, b) {
        (None, None) => true,
        (Some(x), Some(y)) => x.secs == y.secs && x.nanos == y.nanos,
        _ => false,
    }
}

/// Whether two optional JSON values are the same.
pub fn same_json(a: &Option<JsonValue>, b: &Option<JsonValue>) -> (same: bool)
    ensures
        same == (json_view(*a) == json_view(*b)),
{
    match (a, b) {
        (None, None) => true,
        (Some(x), Some(y)) => json_eq(x, y),
        _ => false,
    }
}

/// Whether two optional lists of members stand for the same map.
pub fn same_object(
    a: &Option<Vec<(String, JsonValue)>>,
    b: &Option<Vec<(String, JsonValue)>>,
) -> (same: bool)
    ensures
        same == (object_view(*a) == object_view(*b)),
{
    match (a, b) {
        (None, None) => true,
        (Some(x), Some(y)) => object_eq(x, y),
        _ => false,
    }
}

/// Whether two optional bit patterns stand for the same number.
pub fn same_float(a: &Option<u64>, b: &Option<u64>) -> (same: bool)
    ensures
        same == (float_view(*a) == float_view(*b)),
{
    match (a, b) {
        (None, None) => true,
        (Some(x), Some(y)) => normalize_bits(*x) == normalize_bits(*y),
        _ => false,
    }
}

/// A copy of an optional string.
pub fn copy_text(a: &Option<String>) -> (copy: Option<String>)
    ensures
        text_view(copy) == text_view(*a),
{
    match a {
        None => None,
        Some(x) => Some(x.clone()),
    }
}

/// A copy of an optional JSON value.
pub fn copy_json_field(a: &Option<JsonValue>) -> (copy: Option<JsonValue>)
    ensures
        json_view(copy) == json_view(*a),
{
    match a {
        None => None,
        Some(x) => Some(copy_json(x)),
    }
}

/// A copy of an optional list of members.
pub fn copy_object_field(a: &Option<Vec<(String, JsonValue)>>) -> (copy: Option<
    Vec<(String, JsonValue)>,
>)
    ensures
        object_view(copy) == object_view(*a),
{
    match a {
        None => None,
        Some(x) => Some(copy_members(x)),
    }
}

/// An optional text as JSON: a string, or `null`.
pub open spec fn text_json(text: Option<Seq<char>>) -> JsonModel {
    match text {
        Some(s) => JsonModel::Text(s),
        None => JsonModel::Null,
    }
}

/// An optional integer as JSON: a number, or `null`.
pub open spec fn integer_json(number: Option<i64>) -> JsonModel {
    match number {
        Some(i) => JsonModel::Integer(i as int),
        None => JsonModel::Null,
    }
}

/// An optional time as JSON: the text by which an export file tells it, or
/// `null` where the time is missing or the calendar cannot tell it.
pub open spec fn time_json(time: Option<Timestamp>) -> JsonModel {
    match time {
        Some(t) => match datetime_text(t.secs as int, t.nanos as int, export_time_layout()) {
            Some(s) => JsonModel::Text(s),
            None => JsonModel::Null,
        },
        None => JsonModel::Null,
    }
}

/// An optional floating-point number as JSON: a number, or `null`.
pub open spec fn float_json(bits: Option<u64>) -> JsonModel {
    match bits {
        Some(b) => JsonModel::Float(b),
        None => JsonModel::Null,
    }
}

/// An optional JSON value as JSON: itself, or `null`.
pub open spec fn value_json(value: Option<JsonModel>) -> JsonModel {
    match value {
        Some(v) => v,
        None => JsonModel::Null,
    }
}

/// An optional map as JSON: an object, or `null`.
pub open spec fn object_json(map: Option<Map<Seq<char>, JsonModel>>) -> JsonModel {
    match map {
        Some(m) => JsonModel::Object(m),
        None => JsonModel::Null,
    }
}

/// An optional text as JSON.
pub fn text_to_json(text: &Option<String>) -> (json: JsonValue)
    ensures
        json.model() == text_json(text_view(*text)),
{
    match text {
        Some(s) => JsonValue::String(s.clone()),
        None => JsonValue::Null,
    }
}

/// An optional integer as JSON.
pub fn integer_to_json(number: &Option<i64>) -> (json: JsonValue)
    ensures
        json.model() == integer_json(*number),
{
    match number {
        Some(i) => {
            if *i >= 0 {
                JsonValue::PosInt(*i as u64)
            } else {
                JsonValue::NegInt(*i)
            }
        },
        None => JsonValue::Null,
    }
}

/// An optional time as JSON.
pub fn time_to_json(time: &Option<Timestamp>) -> (json: JsonValue)
    ensures
        json.model() == time_json(*time),
{
    match serialize_amplitude_timestamp(time) {
        Ok(Some(s)) => JsonValue::String(s),
        Ok(None) => JsonValue::Null,
        Err(_) => JsonValue::Null,
    }
}

/// An optional floating-point number as JSON.
pub fn float_to_json(bits: &Option<u64>) -> (json: JsonValue)
    ensures
        json.model() == float_json(float_view(*bits)),
{
    match bits {
        Some(b) => JsonValue::Float(*b),
        None => JsonValue::Null,
    }
}

/// An optional JSON value as JSON.
pub fn value_to_json(value: &Option<JsonValue>) -> (json: JsonValue)
    ensures
        json.model() == value_json(json_view(*value)),
{
    match value {
        Some(v) => copy_json(v),
        None => JsonValue::Null,
    }
}

/// An optional list of members as JSON.
pub fn object_to_json(members: &Option<Vec<(String, JsonValue)>>) -> (json: JsonValue)
    ensures
        json.model() == object_json(object_view(*members)),
{
    match members {
        Some(m) => JsonValue::Object(copy_members(m)),
        None => JsonValue::Null,
    }
}

} // verus!
