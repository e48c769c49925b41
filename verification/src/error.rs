//! The failures that compiling a query description can end in.

use vstd::prelude::*;

verus! {

/// Why a query description was turned down.
#[derive(Debug, Clone, PartialEq, Eq)]
pub enum ActionError {
    /// A leaf does not have the shape that its target type or operator asks for.
    WrongInputType,
    /// A string is present where a calendar day is due, and is none.
    WrongDateFormat,
    /// A string is present where an instant is due, and is none.
    WrongDatetimeFormat,
    /// A string is no member of the enum it is meant for.
    UndefinedEnumValue,
    /// A filter names a field that may not be queried.
    KeysUnallowed,
    /// The keys of a filter are no unique key of the model.
    FieldIsNotUnique,
    /// A section that the query needs is absent.
    MissingInputSection,
    /// A section is present and is no object.
    WrongJsonFormat,
    /// The description as a whole, or its graph of relations, is malformed.
    InvalidQueryInput(String),
}

/// What an [`ActionError`] holds.
pub enum ActionErrorView {
    WrongInputType,
    WrongDateFormat,
    WrongDatetimeFormat,
    UndefinedEnumValue,
    KeysUnallowed,
    FieldIsNotUnique,
    MissingInputSection,
    WrongJsonFormat,
    InvalidQueryInput(Seq<char>),
}

impl View for ActionError {
    type V = ActionErrorView;

    open spec fn view(&self) -> ActionErrorView {
        match self {
            ActionError::WrongInputType => ActionErrorView::WrongInputType,
            ActionError::WrongDateFormat => ActionErrorView::WrongDateFormat,
            ActionError::WrongDatetimeFormat => ActionErrorView::WrongDatetimeFormat,
            ActionError::UndefinedEnumValue => ActionErrorView::UndefinedEnumValue,
            ActionError::KeysUnallowed => ActionErrorView::KeysUnallowed,
            ActionError::FieldIsNotUnique => ActionErrorView::FieldIsNotUnique,
            ActionError::MissingInputSection => ActionErrorView::MissingInputSection,
            ActionError::WrongJsonFormat => ActionErrorView::WrongJsonFormat,
            ActionError::InvalidQueryInput(message) => ActionErrorView::InvalidQueryInput(
                message@,
            ),
        }
    }
}

impl ActionError {
    /// The name of the kind of failure, with its message where it has one.
    pub fn message(&self) -> (r: String)
        ensures
            r@ == self@.message(),
    {
        match self {
            ActionError::WrongInputType => "WrongInputType".to_owned(),
            ActionError::WrongDateFormat => "WrongDateFormat".to_owned(),
            ActionError::WrongDatetimeFormat => "WrongDatetimeFormat".to_owned(),
            ActionError::UndefinedEnumValue => "UndefinedEnumValue".to_owned(),
            ActionError::KeysUnallowed => "KeysUnallowed".to_owned(),
            ActionError::FieldIsNotUnique => "FieldIsNotUnique".to_owned(),
            ActionError::MissingInputSection => "MissingInputSection".to_owned(),
            ActionError::WrongJsonFormat => "WrongJsonFormat".to_owned(),
            ActionError::InvalidQueryInput(message) => message.clone(),
        }
    }
}

impl ActionErrorView {
    /// The name of the kind of failure, or the message where it has one.
    pub open spec fn message(self) -> Seq<char> {
        match self {
            ActionErrorView::WrongInputType => "WrongInputType"@,
            ActionErrorView::WrongDateFormat => "WrongDateFormat"@,
            ActionErrorView::WrongDatetimeFormat => "WrongDatetimeFormat"@,
            ActionErrorView::UndefinedEnumValue => "UndefinedEnumValue"@,
            ActionErrorView::KeysUnallowed => "KeysUnallowed"@,
            ActionErrorView::FieldIsNotUnique => "FieldIsNotUnique"@,
            ActionErrorView::MissingInputSection => "MissingInputSection"@,
            ActionErrorView::WrongJsonFormat => "WrongJsonFormat"@,
            ActionErrorView::InvalidQueryInput(message) => message,
        }
    }
}

} // verus!
