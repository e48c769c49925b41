//! Steps of a pipeline: each takes the state of a value and gives the next.

use vstd::prelude::*;
use crate::context::{Context, ContextView};
use crate::error::ActionError;
use crate::json::Json;
use crate::value::{Value, ValueView};

verus! {

/// The step that connects a record to the identity that acts.
#[derive(Debug, Clone, Copy)]
pub struct ConnectIdentityItem {}

impl ConnectIdentityItem {
    pub fn new() -> (r: Self)
        ensures
            r == (ConnectIdentityItem {  }),
    {
        Self {  }
    }

    /// Runs the step, which leaves the state as it is.
    pub fn call(&self, ctx: Context) -> (r: Result<Context, ActionError>)
        ensures
            r == Ok::<Context, ActionError>(ctx),
    {
        Ok(ctx)
    }
}

/// The step that replaces a value by a freshly drawn identifier.
#[derive(Debug, Clone, Copy)]
pub struct UUIDModifier {}

/// Draws a random identifier with `uuid::Uuid::new_v4` and writes it out with
/// `to_string`, which gives the hyphenated form: thirty-six characters. Which
/// identifier comes is left open.
#[verifier::external_body]
pub(crate) fn draw_uuid() -> (r: String)
    ensures
        r@.len() == 36,
{
    uuid::Uuid::new_v4().to_string()
}

impl UUIDModifier {
    pub fn new() -> (r: Self)
        ensures
            r == (UUIDModifier {  }),
    {
        return UUIDModifier {  };
    }

    /// The name by which the step is known.
    pub fn name(&self) -> (r: &'static str)
        ensures
            r@ == "uuid"@,
    {
        "uuid"
    }

    /// The state with the identifier `drawn` as its value.
    pub fn call_with(&self, context: &Context, drawn: String) -> (r: Context)
        ensures
            r@ == (ContextView { value: ValueView::String(drawn@), ..context@ }),
    {
        context.alter_value(Value::String(drawn))
    }

    /// Runs the step: the value becomes an identifier of thirty-six
    /// characters, and nothing else changes.
    pub fn call(&self, context: Context) -> (r: Context)
        ensures
            r@.value is String,
            r@.value->String_0.len() == 36,
            r@ == (ContextView { value: r@.value, ..context@ }),
    {
        self.call_with(&context, draw_uuid())
    }
}

/// The step that runs a raw query.
#[derive(Debug, PartialEq)]
pub struct QueryRawItem {
    pub value: Value,
}

impl QueryRawItem {
    pub fn new(value: Value) -> (r: Self)
        ensures
            r == (QueryRawItem { value }),
    {
        Self { value }
    }
}

/// The step that gives a key of a JSON object a value where it has none.
#[derive(Debug, PartialEq)]
pub struct SetDefaultItem {
    pub key: String,
    pub value: Json,
}

impl SetDefaultItem {
    pub fn new<K: Into<String>>(key: K, value: Json) -> (r: Self)
        ensures
            call_ensures(<K as Into<String>>::into, (key,), r.key),
            r.value == value,
    {
        Self { key: key.into(), value }
    }
}

} // verus!
