//! The scalar parsers: each takes one untyped JSON leaf and gives the native
//! value of one semantic type, or says why the leaf is none.

use vstd::prelude::*;
use crate::error::{ActionError, ActionErrorView};
use crate::ieee::{double_to_i64, i64_double, i64_to_double, truncate_double, u64_double, u64_to_double};
use crate::json::{Json, JsonNumber};
use crate::native::{Native, NativeView};
use crate::object_id::{is_object_id_text, object_id_bytes, read_object_id};
use crate::schema::{filterable, FieldType, Graph};
use crate::text::{seq_has, vec_has};
use crate::value::{encode, Value, ValueView};

verus! {

/// The number of the calendar day that a text of the form `YYYY-MM-DD`
/// names, counted from 1 January of the year 1 as day 1, where the text names
/// one.
pub uninterp spec fn calendar_day(text: Seq<char>) -> Option<i32>;

/// The instant that an RFC 3339 text names, in milliseconds since the Unix
/// epoch, where the text names one.
pub uninterp spec fn instant_millis(text: Seq<char>) -> Option<i64>;

/// Reads a calendar day with `chrono::NaiveDate::parse_from_str` under the
/// format `%Y-%m-%d`, and hands out the day's number as
/// `chrono::Datelike::num_days_from_ce` counts it. What the parser accepts is
/// not restated here: the result is named `calendar_day`.
#[verifier::external_body]
pub(crate) fn read_calendar_day(text: &str) -> (r: Option<i32>)
    ensures
        r == calendar_day(text@),
{
    match chrono::NaiveDate::parse_from_str(text, "%Y-%m-%d") {
        Ok(day) => Some(chrono::Datelike::num_days_from_ce(&day)),
        Err(_) => None,
    }
}

/// Reads an instant with `chrono::DateTime::parse_from_rfc3339`, moves it to
/// UTC and hands out `timestamp_millis` of it. What the parser accepts is not
/// restated here: the result is named `instant_millis`.
#[verifier::external_body]
pub(crate) fn read_instant(text: &str) -> (r: Option<i64>)
    ensures
        r == instant_millis(text@),
{
    match chrono::DateTime::parse_from_rfc3339(text) {
        Ok(instant) => Some(instant.with_timezone(&chrono::Utc).timestamp_millis()),
        Err(_) => None,
    }
}

/// What a parser's result holds.
pub open spec fn native_result(r: Result<Native, ActionError>) -> Result<
    NativeView,
    ActionErrorView,
> {
    match r {
        Ok(n) => Ok(n@),
        Err(e) => Err(e@),
    }
}

/// An object identifier: a string of twenty-four hexadecimal digits.
pub open spec fn object_id_of(v: Json) -> Result<NativeView, ActionErrorView> {
    match v {
        Json::String(s) => if is_object_id_text(s@) {
            Ok(NativeView::ObjectId(object_id_bytes(s@)))
        } else {
            Err(ActionErrorView::WrongInputType)
        },
        _ => Err(ActionErrorView::WrongInputType),
    }
}

/// A string: a JSON string.
pub open spec fn string_of(v: Json) -> Result<NativeView, ActionErrorView> {
    match v {
        Json::String(s) => Ok(NativeView::String(s@)),
        _ => Err(ActionErrorView::WrongInputType),
    }
}

/// A boolean: a JSON boolean.
pub open spec fn bool_of(v: Json) -> Result<NativeView, ActionErrorView> {
    match v {
        Json::Bool(b) => Ok(NativeView::Boolean(b)),
        _ => Err(ActionErrorView::WrongInputType),
    }
}

/// An integer of any width: a JSON number, as a 64-bit signed native. An
/// integer above the signed range wraps; a double is rounded toward zero.
pub open spec fn integer_of(v: Json) -> Result<NativeView, ActionErrorView> {
    match v {
        Json::Number(JsonNumber::PosInt(n)) => Ok(NativeView::Int64(n as i64)),
        Json::Number(JsonNumber::NegInt(n)) => Ok(NativeView::Int64(n)),
        Json::Number(JsonNumber::Float(bits)) => Ok(
            NativeView::Int64(double_to_i64(bits) as i64),
        ),
        _ => Err(ActionErrorView::WrongInputType),
    }
}

/// A floating-point number of either width: a JSON number, as a native
/// double. An integer becomes the nearest double.
pub open spec fn double_of(v: Json) -> Result<NativeView, ActionErrorView> {
    match v {
        Json::Number(JsonNumber::PosInt(n)) => Ok(NativeView::Double(u64_double(n) as u64)),
        Json::Number(JsonNumber::NegInt(n)) => Ok(NativeView::Double(i64_double(n) as u64)),
        Json::Number(JsonNumber::Float(bits)) => Ok(NativeView::Double(bits)),
        _ => Err(ActionErrorView::WrongInputType),
    }
}

/// What a calendar day gives once its text has been read: the native
/// timestamp of its midnight, or a failure where the text named no day.
pub open spec fn date_from(day: Option<i32>) -> Result<NativeView, ActionErrorView> {
    match day {
        Some(d) => Ok(encode(ValueView::Date(d))),
        None => Err(ActionErrorView::WrongDateFormat),
    }
}

/// A calendar day: a string of the form `YYYY-MM-DD`.
pub open spec fn date_of(v: Json) -> Result<NativeView, ActionErrorView> {
    match v {
        Json::String(s) => date_from(calendar_day(s@)),
        _ => Err(ActionErrorView::WrongInputType),
    }
}

/// What an instant gives once its text has been read: the native timestamp,
/// or a failure where the text named no instant.
pub open spec fn datetime_from(millis: Option<i64>) -> Result<NativeView, ActionErrorView> {
    match millis {
        Some(ms) => Ok(encode(ValueView::DateTime(ms))),
        None => Err(ActionErrorView::WrongDatetimeFormat),
    }
}

/// An instant: an RFC 3339 string.
pub open spec fn datetime_of(v: Json) -> Result<NativeView, ActionErrorView> {
    match v {
        Json::String(s) => datetime_from(instant_millis(s@)),
        _ => Err(ActionErrorView::WrongInputType),
    }
}

/// A member of an enum: a string that is one of the allowed values.
pub open spec fn enum_of(v: Json, allowed: Seq<String>) -> Result<NativeView, ActionErrorView> {
    match v {
        Json::String(s) => if seq_has(allowed, s@) {
            Ok(NativeView::String(s@))
        } else {
            Err(ActionErrorView::UndefinedEnumValue)
        },
        _ => Err(ActionErrorView::WrongInputType),
    }
}

/// The native value of a leaf that is meant for a field of type `t`.
/// A decimal field takes no leaf.
pub open spec fn scalar_of(t: FieldType, v: Json, graph: Graph) -> Result<
    NativeView,
    ActionErrorView,
> {
    match t {
        FieldType::ObjectId => object_id_of(v),
        FieldType::Bool => bool_of(v),
        FieldType::I8 | FieldType::I16 | FieldType::I32 | FieldType::I64 | FieldType::I128
        | FieldType::U8 | FieldType::U16 | FieldType::U32 | FieldType::U64
        | FieldType::U128 => integer_of(v),
        FieldType::F32 | FieldType::F64 => double_of(v),
        FieldType::String => string_of(v),
        FieldType::Date => date_of(v),
        FieldType::DateTime => datetime_of(v),
        FieldType::Enum(name) => enum_of(v, graph.spec_enum(name@)),
        _ => Err(ActionErrorView::WrongInputType),
    }
}

/// Parses an object identifier.
pub fn parse_object_id(value: &Json) -> (r: Result<Native, ActionError>)
    ensures
        native_result(r) == object_id_of(*value),
{
    match value.as_str() {
        Some(text) => match read_object_id(text) {
            Some(bytes) => Ok(Native::ObjectId(bytes)),
            None => Err(ActionError::WrongInputType),
        },
        None => Err(ActionError::WrongInputType),
    }
}

/// Parses a string.
pub fn parse_string(value: &Json) -> (r: Result<Native, ActionError>)
    ensures
        native_result(r) == string_of(*value),
{
    match value.as_str() {
        Some(text) => Ok(Native::String(text.to_owned())),
        None => Err(ActionError::WrongInputType),
    }
}

/// Parses a boolean.
pub fn parse_bool(value: &Json) -> (r: Result<Native, ActionError>)
    ensures
        native_result(r) == bool_of(*value),
{
    match value.as_bool() {
        Some(b) => Ok(Native::Boolean(b)),
        None => Err(ActionError::WrongInputType),
    }
}

/// Parses an integer of any width.
pub fn parse_i64(value: &Json) -> (r: Result<Native, ActionError>)
    ensures
        native_result(r) == integer_of(*value),
{
    match value.as_number() {
        Some(JsonNumber::PosInt(n)) => Ok(
            Native::Int64(
                #[verifier::truncate]
                (n as i64),
            ),
        ),
        Some(JsonNumber::NegInt(n)) => Ok(Native::Int64(n)),
        Some(JsonNumber::Float(bits)) => Ok(Native::Int64(truncate_double(bits))),
        None => Err(ActionError::WrongInputType),
    }
}

/// Parses a floating-point number of either width.
pub fn parse_f64(value: &Json) -> (r: Result<Native, ActionError>)
    ensures
        native_result(r) == double_of(*value),
{
    match value.as_number() {
        Some(JsonNumber::PosInt(n)) => Ok(Native::Double(u64_to_double(n))),
        Some(JsonNumber::NegInt(n)) => Ok(Native::Double(i64_to_double(n))),
        Some(JsonNumber::Float(bits)) => Ok(Native::Double(bits)),
        None => Err(ActionError::WrongInputType),
    }
}

/// Turns what reading a calendar day gave into the native timestamp of the
/// day's midnight, UTC.
pub fn date_from_parts(day: Option<i32>) -> (r: Result<Native, ActionError>)
    ensures
        native_result(r) == date_from(day),
{
    match day {
        Some(d) => Ok(Value::date_to_native(d)),
        None => Err(ActionError::WrongDateFormat),
    }
}

/// Parses a calendar day.
pub fn parse_date(value: &Json) -> (r: Result<Native, ActionError>)
    ensures
        native_result(r) == date_of(*value),
{
    match value.as_str() {
        Some(text) => date_from_parts(read_calendar_day(text)),
        None => Err(ActionError::WrongInputType),
    }
}

/// Turns what reading an instant gave into the native timestamp.
pub fn datetime_from_parts(millis: Option<i64>) -> (r: Result<Native, ActionError>)
    ensures
        native_result(r) == datetime_from(millis),
{
    match millis {
        Some(ms) => Ok(Native::DateTime(ms)),
        None => Err(ActionError::WrongDatetimeFormat),
    }
}

/// Parses an instant.
pub fn parse_datetime(value: &Json) -> (r: Result<Native, ActionError>)
    ensures
        native_result(r) == datetime_of(*value),
{
    match value.as_str() {
        Some(text) => datetime_from_parts(read_instant(text)),
        None => Err(ActionError::WrongInputType),
    }
}

/// Parses a member of the enum `enum_name`.
pub fn parse_enum(value: &Json, enum_name: &str, graph: &Graph) -> (r: Result<Native, ActionError>)
    requires
        graph.has_enum(enum_name@),
    ensures
        native_result(r) == enum_of(*value, graph.spec_enum(enum_name@)),
{
    match value.as_str() {
        Some(text) => {
            if vec_has(graph.enum_values(enum_name), text) {
                Ok(Native::String(text.to_owned()))
            } else {
                Err(ActionError::UndefinedEnumValue)
            }
        },
        None => Err(ActionError::WrongInputType),
    }
}

/// Parses a leaf that is meant for a field of type `field_type`.
pub fn parse_scalar(field_type: &FieldType, value: &Json, graph: &Graph) -> (r: Result<
    Native,
    ActionError,
>)
    requires
        filterable(*field_type, *graph),
    ensures
        native_result(r) == scalar_of(*field_type, *value, *graph),
{
    match field_type {
        FieldType::ObjectId => parse_object_id(value),
        FieldType::Bool => parse_bool(value),
        FieldType::I8 | FieldType::I16 | FieldType::I32 | FieldType::I64 | FieldType::I128
        | FieldType::U8 | FieldType::U16 | FieldType::U32 | FieldType::U64
        | FieldType::U128 => parse_i64(value),
        FieldType::F32 | FieldType::F64 => parse_f64(value),
        FieldType::String => parse_string(value),
        FieldType::Date => parse_date(value),
        FieldType::DateTime => parse_datetime(value),
        FieldType::Enum(name) => parse_enum(value, name.as_str(), graph),
        FieldType::Decimal => Err(ActionError::WrongInputType),
        FieldType::Undefined => vstd::pervasive::unreached(),
        FieldType::Vec(_) => vstd::pervasive::unreached(),
        FieldType::Dictionary(_) => vstd::pervasive::unreached(),
        FieldType::Object(_) => vstd::pervasive::unreached(),
    }
}

} // verus!
