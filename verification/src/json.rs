//! JSON values as constraint compilation reads them.

use vstd::prelude::*;

verus! {

/// A JSON number.
#[derive(Clone, Debug, PartialEq, Eq)]
pub enum JsonNumber {
    /// An integer that fits 64 signed bits.
    Int(i64),
    /// Any other number, by its JSON text.
    Other { text: String },
}

/// A JSON value. Null, arrays and objects cannot be compared with a column, so only
/// their JSON text is kept.
#[derive(Clone, Debug, PartialEq, Eq)]
pub enum JsonValue {
    Bool(bool),
    Number(JsonNumber),
    String(String),
    Other { text: String },
}

/// What a [`JsonNumber`] stands for.
pub enum JsonNumberView {
    Int(i64),
    Other { text: Seq<char> },
}

/// What a [`JsonValue`] stands for.
pub enum JsonValueView {
    Bool(bool),
    Number(JsonNumberView),
    String(Seq<char>),
    Other { text: Seq<char> },
}

impl DeepView for JsonNumber {
    type V = JsonNumberView;

    open spec fn deep_view(&self) -> JsonNumberView {
        match self {
            JsonNumber::Int(number) => JsonNumberView::Int(*number),
            JsonNumber::Other { text } => JsonNumberView::Other { text: text@ },
        }
    }
}

impl DeepView for JsonValue {
    type V = JsonValueView;

    open spec fn deep_view(&self) -> JsonValueView {
        match self {
            JsonValue::Bool(flag) => JsonValueView::Bool(*flag),
            JsonValue::Number(number) => JsonValueView::Number(number.deep_view()),
            JsonValue::String(text) => JsonValueView::String(text@),
            JsonValue::Other { text } => JsonValueView::Other { text: text@ },
        }
    }
}

/// A parsed JSON value of the `serde_json` crate.
#[verifier::external_type_specification]
#[verifier::external_body]
pub struct ExSerdeValue(serde_json::Value);

/// A JSON number of the `serde_json` crate.
#[verifier::external_type_specification]
#[verifier::external_body]
pub struct ExSerdeNumber(serde_json::Number);

/// The variant of a `serde_json::Value`, with what it holds at the top.
pub enum SerdeShape {
    Null,
    Bool(bool),
    Number(serde_json::Number),
    String(String),
    Array,
    Object,
}

/// What a [`SerdeShape`] stands for.
pub enum SerdeShapeView {
    Null,
    Bool(bool),
    Number(serde_json::Number),
    String(Seq<char>),
    Array,
    Object,
}

impl DeepView for SerdeShape {
    type V = SerdeShapeView;

    open spec fn deep_view(&self) -> SerdeShapeView {
        match self {
            SerdeShape::Null => SerdeShapeView::Null,
            SerdeShape::Bool(flag) => SerdeShapeView::Bool(*flag),
            SerdeShape::Number(number) => SerdeShapeView::Number(*number),
            SerdeShape::String(text) => SerdeShapeView::String(text@),
            SerdeShape::Array => SerdeShapeView::Array,
            SerdeShape::Object => SerdeShapeView::Object,
        }
    }
}

/// Which variant a `serde_json::Value` is, with what it holds at the top.
pub uninterp spec fn serde_shape(value: serde_json::Value) -> SerdeShapeView;

/// The JSON text that `Display` gives a `serde_json::Value`.
pub uninterp spec fn serde_text(value: serde_json::Value) -> Seq<char>;

/// The result of `serde_json::Number::as_i64`.
pub uninterp spec fn serde_number_int(number: serde_json::Number) -> Option<i64>;

/// The text that `Display` gives a `serde_json::Number`.
pub uninterp spec fn serde_number_text(number: serde_json::Number) -> Seq<char>;

/// Tells the variants of `serde_json::Value` apart. The contract names what it finds.
#[verifier::external_body]
fn shape(value: &serde_json::Value) -> (found: SerdeShape)
    ensures
        found.deep_view() == serde_shape(*value),
{
    match value {
        serde_json::Value::Null => SerdeShape::Null,
        serde_json::Value::Bool(flag) => SerdeShape::Bool(*flag),
        serde_json::Value::Number(number) => SerdeShape::Number(number.clone()),
        serde_json::Value::String(text) => SerdeShape::String(text.clone()),
        serde_json::Value::Array(_) => SerdeShape::Array,
        serde_json::Value::Object(_) => SerdeShape::Object,
    }
}

/// Calls `Display` of `serde_json::Value`. The contract names the text.
#[verifier::external_body]
fn value_text(value: &serde_json::Value) -> (text: String)
    ensures
        text@ == serde_text(*value),
{
    value.to_string()
}

/// Calls `serde_json::Number::as_i64`. The contract names the result.
#[verifier::external_body]
fn number_int(number: &serde_json::Number) -> (integer: Option<i64>)
    ensures
        integer == serde_number_int(*number),
{
    number.as_i64()
}

/// Calls `Display` of `serde_json::Number`. The contract names the text.
#[verifier::external_body]
fn number_text(number: &serde_json::Number) -> (text: String)
    ensures
        text@ == serde_number_text(*number),
{
    number.to_string()
}

/// Makes a `serde_json::Value::Bool` of a flag.
#[verifier::external_body]
pub(crate) fn bool_value(flag: bool) -> (value: serde_json::Value)
    ensures
        serde_shape(value) == SerdeShapeView::Bool(flag),
{
    serde_json::Value::Bool(flag)
}

/// Makes a `serde_json::Value::String` of a text.
#[verifier::external_body]
pub(crate) fn string_value(text: String) -> (value: serde_json::Value)
    ensures
        serde_shape(value) == SerdeShapeView::String(text@),
{
    serde_json::Value::String(text)
}

/// Makes a `serde_json::Value::Number` of an integer, by `serde_json::Number::from`:
/// `as_i64` of that number gives the integer back.
#[verifier::external_body]
pub(crate) fn int_value(number: i64) -> (value: serde_json::Value)
    ensures
        serde_shape(value) is Number,
        serde_number_int(serde_shape(value)->Number_0) == Some(number),
{
    serde_json::Value::Number(serde_json::Number::from(number))
}

/// What compilation reads of a parsed JSON value.
pub open spec fn json_reading(value: serde_json::Value) -> JsonValueView {
    match serde_shape(value) {
        SerdeShapeView::Bool(flag) => JsonValueView::Bool(flag),
        SerdeShapeView::Number(number) => match serde_number_int(number) {
            Some(integer) => JsonValueView::Number(JsonNumberView::Int(integer)),
            None => JsonValueView::Number(
                JsonNumberView::Other { text: serde_number_text(number) },
            ),
        },
        SerdeShapeView::String(text) => JsonValueView::String(text),
        _ => JsonValueView::Other { text: serde_text(value) },
    }
}

impl JsonValue {
    /// Reads a parsed JSON value.
    pub fn from_serde(value: &serde_json::Value) -> (read: JsonValue)
        ensures
            read.deep_view() == json_reading(*value),
    {
        match shape(value) {
            SerdeShape::Bool(flag) => JsonValue::Bool(flag),
            SerdeShape::Number(number) => match number_int(&number) {
                Some(integer) => JsonValue::Number(JsonNumber::Int(integer)),
                None => JsonValue::Number(JsonNumber::Other { text: number_text(&number) }),
            },
            SerdeShape::String(text) => JsonValue::String(text),
            SerdeShape::Null => JsonValue::Other { text: value_text(value) },
            SerdeShape::Array => JsonValue::Other { text: value_text(value) },
            SerdeShape::Object => JsonValue::Other { text: value_text(value) },
        }
    }
}

/// A JSON value is seen by what it holds.
pub proof fn law_json_views_hold_the_values(value: JsonValue)
    ensures
        value matches JsonValue::Bool(flag) ==> value.deep_view() == JsonValueView::Bool(flag),
        value matches JsonValue::String(text) ==> value.deep_view() == JsonValueView::String(text@),
        value matches JsonValue::Number(JsonNumber::Int(number)) ==> value.deep_view()
            == JsonValueView::Number(JsonNumberView::Int(number)),
        value matches JsonValue::Number(JsonNumber::Other { text }) ==> value.deep_view()
            == JsonValueView::Number(JsonNumberView::Other { text: text@ }),
        value matches JsonValue::Other { text } ==> value.deep_view() == (JsonValueView::Other {
            text: text@,
        }),
{
}

/// A parsed JSON value is read as a flag exactly when it is that flag, as a string exactly
/// when it is that string, and as an integer exactly when it is a number that is that
/// integer. Other numbers, and other values, are read as their JSON text.
pub proof fn law_json_is_read_for_what_it_is(value: serde_json::Value)
    ensures
        json_reading(value) is Bool <==> serde_shape(value) is Bool,
        serde_shape(value) matches SerdeShapeView::Bool(flag) ==> json_reading(value)
            == JsonValueView::Bool(flag),
        json_reading(value) is String <==> serde_shape(value) is String,
        serde_shape(value) matches SerdeShapeView::String(text) ==> json_reading(value)
            == JsonValueView::String(text),
        json_reading(value) is Number <==> serde_shape(value) is Number,
        serde_shape(value) matches SerdeShapeView::Number(number) ==> {
            &&& serde_number_int(number) matches Some(integer) ==> json_reading(value)
                == JsonValueView::Number(JsonNumberView::Int(integer))
            &&& serde_number_int(number) is None ==> json_reading(value) == JsonValueView::Number(
                (JsonNumberView::Other { text: serde_number_text(number) }),
            )
        },
        serde_shape(value) is Null || serde_shape(value) is Array || serde_shape(value) is Object
            ==> json_reading(value) == (JsonValueView::Other { text: serde_text(value) }),
{
}

} // verus!
