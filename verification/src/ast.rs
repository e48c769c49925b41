//! Items of a parsed schema file.

use std::collections::HashMap;
use std::path::PathBuf;
use vstd::prelude::*;

verus! {

/// The path of a file, as the standard library holds it. Nothing is said of
/// what is inside: imports carry it along.
#[verifier::external_type_specification]
#[verifier::external_body]
pub struct ExPathBuf(PathBuf);

/// A stretch of a source file.
#[derive(Debug, Clone, Copy, PartialEq, Eq)]
pub struct Span {
    pub start: usize,
    pub end: usize,
}

/// A name in a source file.
#[derive(Debug, PartialEq, Eq)]
pub struct Identifier {
    pub name: String,
    pub span: Span,
}

/// A string literal in a source file.
#[derive(Debug, PartialEq, Eq)]
pub struct StringLiteral {
    pub value: String,
    pub span: Span,
}

/// What an imported name refers to: a source file and an item in it.
#[derive(Debug, Clone, Copy, PartialEq, Eq)]
pub struct Reference {
    pub source_id: usize,
    pub item_id: usize,
}

/// An import of names from another source file.
pub struct Import {
    pub id: usize,
    pub source_id: usize,
    pub identifiers: Vec<Identifier>,
    pub source: StringLiteral,
    pub path: PathBuf,
    pub span: Span,
    pub resolved: bool,
    pub from_id: Option<usize>,
    pub references: HashMap<String, Reference>,
}

impl Import {
    /// An import as it is parsed: not resolved yet, with no references.
    pub fn new(
        item_id: usize,
        source_id: usize,
        identifiers: Vec<Identifier>,
        source: StringLiteral,
        path: PathBuf,
        span: Span,
    ) -> (r: Self)
        ensures
            r.id == item_id,
            r.source_id == source_id,
            r.identifiers == identifiers,
            r.source == source,
            r.path == path,
            r.span == span,
            !r.resolved,
            r.from_id is None,
            r.references@ == Map::<String, Reference>::empty(),
    {
        Self {
            id: item_id,
            source_id,
            identifiers,
            source,
            path,
            span,
            resolved: false,
            from_id: None,
            references: HashMap::new(),
        }
    }
}

} // verus!
