//! What the schema language's decorators and pipeline items do to the
//! schema, once their arguments are resolved.

use std::sync::Arc;
use vstd::prelude::*;
use crate::items::QueryRawItem;
use crate::schema::Field;
use crate::value::Value;

verus! {

/// What an argument's expression resolved to.
#[derive(Debug, PartialEq)]
pub enum Entity {
    Value(Value),
    /// A reference to a declared item, by its path of identifiers.
    Reference(Vec<usize>),
}

impl Entity {
    /// The value, where the entity is one.
    pub fn as_value(&self) -> (r: Option<&Value>)
        ensures
            match *self {
                Entity::Value(v) => r == Some(&v),
                _ => r is None,
            },
    {
        match self {
            Entity::Value(v) => Some(v),
            _ => None,
        }
    }
}

/// An argument of a decorator or of a pipeline item.
#[derive(Debug, PartialEq)]
pub struct Argument {
    pub name: Option<String>,
    /// What the argument resolved to, once it has been resolved.
    pub resolved: Option<Entity>,
}

/// Marks a field as one that does not allow concurrent partial updates.
pub fn nonatomic_decorator(_args: Vec<Argument>, field: &mut Field)
    ensures
        *final(field) == (Field { atomic: false, ..*old(field) }),
{
    field.atomic = false;
}

/// Whether the first of `args` has resolved to a value.
pub open spec fn first_is_value(args: Seq<Argument>) -> bool {
    args.len() > 0 && args[0].resolved is Some && args[0].resolved->0 is Value
}

/// Whether the first of `args` has resolved to a value.
pub fn first_argument_is_value(args: &Vec<Argument>) -> (r: bool)
    ensures
        r == first_is_value(args@),
{
    if args.len() == 0 {
        return false;
    }
    match &args[0].resolved {
        Some(entity) => entity.as_value().is_some(),
        None => false,
    }
}

/// The raw-query step for the value of its first argument.
pub fn query_raw(args: Vec<Argument>) -> (r: Arc<QueryRawItem>)
    requires
        first_is_value(args@),
    ensures
        r.value@ == args@[0].resolved->0->Value_0@,
{
    let value = args[0].resolved.as_ref().unwrap().as_value().unwrap();
    Arc::new(QueryRawItem::new(value.clone()))
}

} // verus!
