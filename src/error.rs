//! Why an expansion was refused. Every one of these ends the expansion: no
//! output is produced.

use vstd::prelude::*;

verus! {

#[derive(Debug, PartialEq, Eq)]
pub enum ExpandError {
    /// The shared-field list does not have the form `name: type, ...`;
    /// carries the parser's message.
    MalformedSharedFields(String),
    /// The shared-field list declares no field.
    EmptySharedFields,
    /// Two shared fields carry the same name.
    DuplicateSharedField(String),
    /// The annotated tokens are not an item; carries the parser's message.
    NotAnItem(String),
    /// The annotated item is not an enum.
    NotAnEnum,
    /// The named variant has positional fields, which cannot take named ones.
    PositionalFieldConflict(String),
    /// The variant already declares a field with a shared field's name.
    FieldConflict { variant: String, field: String },
}

pub ghost enum ErrorView {
    MalformedSharedFields(Seq<char>),
    EmptySharedFields,
    DuplicateSharedField(Seq<char>),
    NotAnItem(Seq<char>),
    NotAnEnum,
    PositionalFieldConflict(Seq<char>),
    FieldConflict { variant: Seq<char>, field: Seq<char> },
}

impl View for ExpandError {
    type V = ErrorView;

    open spec fn view(&self) -> ErrorView {
        match self {
            ExpandError::MalformedSharedFields(m) => ErrorView::MalformedSharedFields(m@),
            ExpandError::EmptySharedFields => ErrorView::EmptySharedFields,
            ExpandError::DuplicateSharedField(f) => ErrorView::DuplicateSharedField(f@),
            ExpandError::NotAnItem(m) => ErrorView::NotAnItem(m@),
            ExpandError::NotAnEnum => ErrorView::NotAnEnum,
            ExpandError::PositionalFieldConflict(v) => ErrorView::PositionalFieldConflict(v@),
            ExpandError::FieldConflict { variant, field } => ErrorView::FieldConflict {
                variant: variant@,
                field: field@,
            },
        }
    }
}

} // verus!
