//! Why a derivation was refused.

use vstd::prelude::*;

verus! {

/// The reason a record cannot be derived. Each one stops the derivation of
/// the whole record.
#[derive(Debug, Clone, PartialEq, Eq)]
pub enum DeriveError {
    /// The item is an enum or a union, not a record with fields.
    NotAStruct,
    /// A `query` annotation of the named field does not follow the directive
    /// grammar.
    AnnotationSyntax { field: String },
    /// The named field is not marked `required` and its declared type is not
    /// `Option`.
    NonOptionalField { field: String },
}

/// The mathematical value of a [`DeriveError`].
pub enum DeriveErrorView {
    NotAStruct,
    AnnotationSyntax { field: Seq<char> },
    NonOptionalField { field: Seq<char> },
}

impl View for DeriveError {
    type V = DeriveErrorView;

    open spec fn view(&self) -> DeriveErrorView {
        match self {
            DeriveError::NotAStruct => DeriveErrorView::NotAStruct,
            DeriveError::AnnotationSyntax { field } => DeriveErrorView::AnnotationSyntax {
                field: field@,
            },
            DeriveError::NonOptionalField { field } => DeriveErrorView::NonOptionalField {
                field: field@,
            },
        }
    }
}

/// The text of the diagnostic for an error.
pub open spec fn message_text(error: DeriveErrorView) -> Seq<char> {
    match error {
        DeriveErrorView::NotAStruct => "Can only derive QueryParams for structs."@,
        DeriveErrorView::AnnotationSyntax { field } => {
            "Unsupported #[query(...)] attribute on field `"@ + field + "`"@
        },
        DeriveErrorView::NonOptionalField { field } => {
            "Non-optional field `"@ + field
                + "` must be explicitly marked with #[query(required)]"@
        },
    }
}

impl DeriveError {
    /// The diagnostic to show for this error. It names the offending field
    /// and, for a field that is neither optional nor marked, the remedy.
    pub fn message(&self) -> (text: String)
        ensures
            text@ == message_text(self@),
    {
        match self {
            DeriveError::NotAStruct => "Can only derive QueryParams for structs.".to_owned(),
            DeriveError::AnnotationSyntax { field } => {
                let mut text = "Unsupported #[query(...)] attribute on field `".to_owned();
                text.append(field.as_str());
                text.append("`");
                text
            },
            DeriveError::NonOptionalField { field } => {
                let mut text = "Non-optional field `".to_owned();
                text.append(field.as_str());
                text.append("` must be explicitly marked with #[query(required)]");
                text
            },
        }
    }
}

} // verus!
