//! Helpers of a policy enforcement point.
//!
//! - [`compiler`] compiles constraints into an access scope.
//! - [`faithful`] states how filters relate to the predicates that they come from.
//! - [`laws`] states what holds of every compilation.
//! - [`IntoPropertyValue`] turns typed values into JSON for evaluation requests.

use crate::ids::{hyphenated, Uuid};
use crate::json::{bool_value, int_value, json_reading, string_value, JsonNumberView, JsonValueView};
use vstd::prelude::*;

pub mod compiler;
pub mod faithful;
pub mod laws;

pub use compiler::{
    compile_to_access_scope, compile_to_access_scope_with_group_membership_type,
    ConstraintCompileError,
};

verus! {

/// Values that can stand in an evaluation request or a predicate.
pub trait IntoPropertyValue: Sized {
    /// The JSON value that stands for this one, as compilation reads it.
    spec fn property_value(self) -> JsonValueView;

    /// Converts into a JSON value.
    fn into_filter_value(self) -> (value: serde_json::Value)
        ensures
            json_reading(value) == self.property_value(),
    ;
}

impl IntoPropertyValue for Uuid {
    /// The text form.
    open spec fn property_value(self) -> JsonValueView {
        JsonValueView::String(hyphenated(self))
    }

    fn into_filter_value(self) -> (value: serde_json::Value) {
        string_value(self.to_string())
    }
}

impl IntoPropertyValue for &Uuid {
    /// The text form.
    open spec fn property_value(self) -> JsonValueView {
        JsonValueView::String(hyphenated(*self))
    }

    fn into_filter_value(self) -> (value: serde_json::Value) {
        string_value(self.to_string())
    }
}

impl IntoPropertyValue for String {
    open spec fn property_value(self) -> JsonValueView {
        JsonValueView::String(self@)
    }

    fn into_filter_value(self) -> (value: serde_json::Value) {
        string_value(self)
    }
}

impl IntoPropertyValue for &str {
    open spec fn property_value(self) -> JsonValueView {
        JsonValueView::String(self@)
    }

    fn into_filter_value(self) -> (value: serde_json::Value) {
        string_value(self.to_owned())
    }
}

impl IntoPropertyValue for i64 {
    open spec fn property_value(self) -> JsonValueView {
        JsonValueView::Number(JsonNumberView::Int(self))
    }

    fn into_filter_value(self) -> (value: serde_json::Value) {
        int_value(self)
    }
}

impl IntoPropertyValue for bool {
    open spec fn property_value(self) -> JsonValueView {
        JsonValueView::Bool(self)
    }

    fn into_filter_value(self) -> (value: serde_json::Value) {
        bool_value(self)
    }
}

impl IntoPropertyValue for serde_json::Value {
    /// The value itself.
    open spec fn property_value(self) -> JsonValueView {
        json_reading(self)
    }

    fn into_filter_value(self) -> (value: serde_json::Value)
        ensures
            value == self,
    {
        self
    }
}

} // verus!
