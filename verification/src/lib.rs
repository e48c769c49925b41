//! The query compiler of an object-relational mapping layer.
//!
//! A query arrives as a JSON-shaped description: a `where` filter, a
//! pagination, and the relations to load along. Against a typed schema of
//! models, fields and relations it is compiled into the ordered stages of a
//! document-database aggregation pipeline.
//!
//! * [`json`] holds the untyped input, [`native`] the values that a plan is
//!   made of, and [`schema`] the graph of models that both are read against.
//! * [`value`] is the typed value model with its native encoding, [`scalar`]
//!   the parsers of single leaves, [`filter`] the compiler of `where`
//!   objects, and [`query`] the compiler of relations and the assembler of
//!   pipelines.
//! * [`laws`] and [`keys`] state what holds of these on all inputs.
//! * [`database_type`], [`context`], [`items`], [`decorators`], [`ast`] and
//!   [`client`] hold what the schema language and the server's pipelines
//!   share with the compiler.
//!
//! Every function states what it returns over plain mathematical values: a
//! data type's view by `@`, and specification functions on sequences of
//! characters, entries and stages. Floating-point numbers are held as their
//! bit patterns, and [`ieee`] converts them in integer arithmetic. Where a
//! result comes from another crate (the grammar of dates, a random
//! identifier) the function that makes the call says so, and a function
//! beside it takes that result as an argument.

pub mod ast;
pub mod client;
pub mod context;
pub mod database_type;
pub mod decorators;
pub mod error;
pub mod filter;
pub mod ieee;
pub mod items;
pub mod json;
pub mod keys;
pub mod laws;
pub mod native;
pub mod object_id;
pub mod query;
pub mod scalar;
pub mod schema;
pub mod text;
pub mod value;
