//! The state that a value carries through a pipeline of checks and
//! transformations.

use vstd::prelude::*;
use vstd::std_specs::convert::FromSpecImpl;
use crate::value::{Object, Value, ValueView};

verus! {

/// Whether a value has passed the checks so far.
#[derive(Debug, PartialEq, Eq)]
pub enum Validity {
    Valid,
    /// Not valid, for the reason given.
    Invalid(String),
}

impl Clone for Validity {
    fn clone(&self) -> (r: Validity)
        ensures
            r == *self,
    {
        match self {
            Validity::Valid => Validity::Valid,
            Validity::Invalid(reason) => Validity::Invalid(reason.clone()),
        }
    }
}

impl Validity {
    /// Whether the value is valid.
    pub fn is_valid(&self) -> (r: bool)
        ensures
            r == (*self is Valid),
    {
        match self {
            Validity::Valid => true,
            _ => false,
        }
    }

    /// Why the value is not valid, where it is not.
    pub fn reason(&self) -> (r: Option<&str>)
        ensures
            match *self {
                Validity::Invalid(reason) => r is Some && r->0@ == reason@,
                Validity::Valid => r is None,
            },
    {
        match self {
            Validity::Invalid(reason) => Some(reason.as_str()),
            _ => None,
        }
    }
}

impl From<&str> for Validity {
    fn from(reason: &str) -> (r: Validity)
        ensures
            r is Invalid,
            r->Invalid_0@ == reason@,
    {
        Validity::Invalid(reason.to_owned())
    }
}

impl FromSpecImpl<&str> for Validity {
    open spec fn obeys_from_spec() -> bool {
        false
    }

    open spec fn from_spec(reason: &str) -> Validity {
        Validity::Valid
    }
}

impl From<String> for Validity {
    fn from(reason: String) -> (r: Validity) {
        Validity::Invalid(reason)
    }
}

impl FromSpecImpl<String> for Validity {
    open spec fn obeys_from_spec() -> bool {
        true
    }

    open spec fn from_spec(reason: String) -> Validity {
        Validity::Invalid(reason)
    }
}

impl From<bool> for Validity {
    fn from(valid: bool) -> (r: Validity)
        ensures
            valid ==> r is Valid,
            !valid ==> r is Invalid && r->Invalid_0@ == "Value is invalid."@,
    {
        match valid {
            true => Validity::Valid,
            false => Validity::Invalid("Value is invalid.".to_owned()),
        }
    }
}

impl FromSpecImpl<bool> for Validity {
    open spec fn obeys_from_spec() -> bool {
        false
    }

    open spec fn from_spec(valid: bool) -> Validity {
        Validity::Valid
    }
}

impl From<()> for Validity {
    fn from(unit: ()) -> (r: Validity) {
        Validity::Valid
    }
}

impl FromSpecImpl<()> for Validity {
    open spec fn obeys_from_spec() -> bool {
        true
    }

    open spec fn from_spec(unit: ()) -> Validity {
        Validity::Valid
    }
}

/// Whether a condition has been evaluated on the way, and how it came out.
#[derive(Debug, Clone, Copy, PartialEq, Eq)]
pub enum Stage {
    Default,
    ConditionTrue,
    ConditionFalse,
}

impl Stage {
    /// Whether no condition has been evaluated.
    pub fn is_condition_default(&self) -> (r: bool)
        ensures
            r == (*self is Default),
    {
        match self {
            Stage::Default => true,
            _ => false,
        }
    }

    /// Whether the last condition held.
    pub fn is_condition_true(&self) -> (r: bool)
        ensures
            r == (*self is ConditionTrue),
    {
        match self {
            Stage::ConditionTrue => true,
            _ => false,
        }
    }

    /// Whether the last condition did not hold.
    pub fn is_condition_false(&self) -> (r: bool)
        ensures
            r == (*self is ConditionFalse),
    {
        match self {
            Stage::ConditionFalse => true,
            _ => false,
        }
    }
}

/// What the pipeline is run for.
#[derive(Debug, Clone, Copy, PartialEq, Eq)]
pub enum Purpose {
    Create,
    Update,
    Delete,
    Authentication,
}

/// One step of the path from an object to a value inside it.
#[derive(Debug, PartialEq, Eq)]
pub enum KeyPathItem {
    String(String),
    Number(usize),
}

impl Clone for KeyPathItem {
    fn clone(&self) -> (r: KeyPathItem)
        ensures
            r == *self,
    {
        match self {
            KeyPathItem::String(key) => KeyPathItem::String(key.clone()),
            KeyPathItem::Number(index) => KeyPathItem::Number(*index),
        }
    }
}

/// The state of a value on its way through a pipeline.
#[derive(Debug, PartialEq)]
pub struct Context {
    pub value: Value,
    pub object: Object,
    pub key_path: Vec<KeyPathItem>,
    pub identity: Option<Object>,
    pub validity: Validity,
    pub stage: Stage,
    pub purpose: Purpose,
}

/// What a [`Context`] holds.
pub struct ContextView {
    pub value: ValueView,
    pub object: Object,
    pub key_path: Seq<KeyPathItem>,
    pub identity: Option<Object>,
    pub validity: Validity,
    pub stage: Stage,
    pub purpose: Purpose,
}

impl View for Context {
    type V = ContextView;

    open spec fn view(&self) -> ContextView {
        ContextView {
            value: self.value@,
            object: self.object,
            key_path: self.key_path@,
            identity: self.identity,
            validity: self.validity,
            stage: self.stage,
            purpose: self.purpose,
        }
    }
}

/// A copy of a key path.
fn copy_key_path(path: &Vec<KeyPathItem>) -> (r: Vec<KeyPathItem>)
    ensures
        r@ == path@,
{
    let mut out: Vec<KeyPathItem> = Vec::new();
    let mut i: usize = 0;
    while i < path.len()
        invariant
            0 <= i <= path.len(),
            out@ == path@.subrange(0, i as int),
        decreases path.len() - i,
    {
        out.push(path[i].clone());
        assert(out@ =~= path@.subrange(0, i + 1));
        i += 1;
    }
    assert(out@ =~= path@);
    out
}

/// A copy of an identity.
fn copy_identity(identity: &Option<Object>) -> (r: Option<Object>)
    ensures
        r == *identity,
{
    match identity {
        Some(object) => Some(object.clone()),
        None => None,
    }
}

impl Context {
    /// The state at the start of a pipeline: the value is the object itself,
    /// at the empty key path, valid, with no condition evaluated.
    pub fn initial_state(object: Object, purpose: Purpose) -> (r: Context)
        ensures
            r@ == (ContextView {
                value: ValueView::Object(object),
                object: object,
                key_path: Seq::empty(),
                identity: match object.identity {
                    Some(inner) => Some(*inner),
                    None => None,
                },
                validity: Validity::Valid,
                stage: Stage::Default,
                purpose: purpose,
            }),
    {
        let identity = object.get_identity();
        Context {
            value: Value::Object(object.clone()),
            object: object,
            key_path: Vec::new(),
            identity: identity,
            validity: Validity::Valid,
            stage: Stage::Default,
            purpose,
        }
    }

    /// The same state at another key path.
    pub fn alter_key_path(&self, key_path: Vec<KeyPathItem>) -> (r: Context)
        ensures
            r@ == (ContextView { key_path: key_path@, ..self@ }),
    {
        Context {
            value: self.value.clone(),
            object: self.object.clone(),
            key_path,
            identity: copy_identity(&self.identity),
            validity: self.validity.clone(),
            stage: self.stage,
            purpose: self.purpose,
        }
    }

    /// The same state with another value.
    pub fn alter_value(&self, value: Value) -> (r: Context)
        ensures
            r@ == (ContextView { value: value@, ..self@ }),
    {
        Context {
            value,
            object: self.object.clone(),
            key_path: copy_key_path(&self.key_path),
            identity: copy_identity(&self.identity),
            validity: self.validity.clone(),
            stage: self.stage,
            purpose: self.purpose,
        }
    }

    /// The same state with another validity.
    pub fn alter_validity(&self, validity: Validity) -> (r: Context)
        ensures
            r@ == (ContextView { validity: validity, ..self@ }),
    {
        Context {
            value: self.value.clone(),
            object: self.object.clone(),
            key_path: copy_key_path(&self.key_path),
            identity: copy_identity(&self.identity),
            validity,
            stage: self.stage,
            purpose: self.purpose,
        }
    }

    /// The same state, not valid for the reason given: the text that
    /// `reason` converts into.
    pub fn invalid<R: Into<String>>(&self, reason: R) -> (r: Context)
        ensures
            r@.validity is Invalid,
            call_ensures(<R as Into<String>>::into, (reason,), r@.validity->Invalid_0),
            r@ == (ContextView { validity: r@.validity, ..self@ }),
    {
        self.alter_validity(Validity::Invalid(reason.into()))
    }

    /// The same state at another stage.
    pub fn alter_stage(&self, stage: Stage) -> (r: Context)
        ensures
            r@ == (ContextView { stage: stage, ..self@ }),
    {
        Context {
            value: self.value.clone(),
            object: self.object.clone(),
            key_path: copy_key_path(&self.key_path),
            identity: copy_identity(&self.identity),
            validity: self.validity.clone(),
            stage,
            purpose: self.purpose,
        }
    }

    /// Whether the value is valid.
    pub fn is_valid(&self) -> (r: bool)
        ensures
            r == (self@.validity is Valid),
    {
        self.validity.is_valid()
    }

    /// Why the value is not valid, where it is not.
    pub fn invalid_reason(&self) -> (r: Option<&str>)
        ensures
            match self@.validity {
                Validity::Invalid(reason) => r is Some && r->0@ == reason@,
                Validity::Valid => r is None,
            },
    {
        self.validity.reason()
    }

    /// Whether the last condition held.
    pub fn is_condition_true(&self) -> (r: bool)
        ensures
            r == (self@.stage is ConditionTrue),
    {
        self.stage.is_condition_true()
    }

    /// Whether the last condition did not hold.
    pub fn is_condition_false(&self) -> (r: bool)
        ensures
            r == (self@.stage is ConditionFalse),
    {
        self.stage.is_condition_false()
    }
}

impl Clone for Context {
    fn clone(&self) -> (r: Context)
        ensures
            r@ == self@,
    {
        self.alter_stage(self.stage)
    }
}

} // verus!
