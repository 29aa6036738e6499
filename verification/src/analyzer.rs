//! The attribute analyzer: from one field's annotations to its policy.

use vstd::prelude::*;
use crate::descriptor::{
    FieldDescriptor, FieldDescriptorView, PathShape, PathShapeView, RawAnnotation,
    RawAnnotationView, RawDirectiveView, TypeShape, TypeShapeView,
};
use crate::error::{DeriveError, DeriveErrorView};
use crate::text::text_equal;

verus! {

broadcast use vstd::seq_lib::group_seq_properties;

/// One directive that a `query` annotation gives a field.
#[derive(Debug, Clone, PartialEq, Eq, Hash)]
pub enum FieldAttributes {
    /// The field always yields a pair.
    Required,
    /// The field never yields a pair.
    Excluded,
    /// The field's pair is written under this key instead of its own name.
    Rename(String),
}

/// The mathematical value of a [`FieldAttributes`].
pub enum FieldAttributesView {
    Required,
    Excluded,
    Rename(Seq<char>),
}

impl View for FieldAttributes {
    type V = FieldAttributesView;

    open spec fn view(&self) -> FieldAttributesView {
        match self {
            FieldAttributes::Required => FieldAttributesView::Required,
            FieldAttributes::Excluded => FieldAttributesView::Excluded,
            FieldAttributes::Rename(key) => FieldAttributesView::Rename(key@),
        }
    }
}

impl DeepView for FieldAttributes {
    type V = FieldAttributesView;

    open spec fn deep_view(&self) -> FieldAttributesView {
        self@
    }
}

/// How one entry of a `query` annotation is read.
pub enum Reading {
    /// The entry is one of the three directives.
    Attribute(FieldAttributesView),
    /// The entry is a bare name that means nothing here; it is passed over.
    Ignored,
    /// The entry breaks the grammar: a value where none belongs, or `rename`
    /// without its string literal.
    Invalid,
}

/// The reading of one entry. `required` and `exclude` stand alone, `rename`
/// needs its literal, and any other name is passed over as long as it stands
/// alone.
pub open spec fn read_directive(directive: RawDirectiveView) -> Reading {
    if directive.name == "required"@ {
        if directive.literal is None {
            Reading::Attribute(FieldAttributesView::Required)
        } else {
            Reading::Invalid
        }
    } else if directive.name == "exclude"@ {
        if directive.literal is None {
            Reading::Attribute(FieldAttributesView::Excluded)
        } else {
            Reading::Invalid
        }
    } else if directive.name == "rename"@ {
        match directive.literal {
            Some(key) => Reading::Attribute(FieldAttributesView::Rename(key)),
            None => Reading::Invalid,
        }
    } else if directive.literal is None {
        Reading::Ignored
    } else {
        Reading::Invalid
    }
}

/// The directive that an entry stands for, if it stands for one.
pub open spec fn recognized(directive: RawDirectiveView) -> Option<FieldAttributesView> {
    match read_directive(directive) {
        Reading::Attribute(attribute) => Some(attribute),
        _ => None,
    }
}

/// The directives among the entries, in their order.
pub open spec fn recognized_among(directives: Seq<RawDirectiveView>) -> Seq<FieldAttributesView> {
    directives.filter_map(|directive: RawDirectiveView| recognized(directive))
}

/// Whether an annotation is written under the reserved namespace.
pub open spec fn is_query_annotation(annotation: RawAnnotationView) -> bool {
    annotation.namespace == "query"@
}

/// Whether an annotation can be read. One outside the reserved namespace
/// always can: nothing of it is read. A `query` annotation needs an argument
/// list without an invalid entry.
pub open spec fn annotation_well_formed(annotation: RawAnnotationView) -> bool {
    is_query_annotation(annotation) ==> {
        &&& annotation.directives is Some
        &&& forall|i: int|
            0 <= i < annotation.directives->0.len() ==> !(read_directive(
                #[trigger] annotation.directives->0[i],
            ) is Invalid)
    }
}

/// The directives that an annotation gives: those of its entries when it is a
/// `query` annotation, none otherwise.
pub open spec fn annotation_attributes(annotation: RawAnnotationView) -> Seq<FieldAttributesView> {
    if is_query_annotation(annotation) && annotation.directives is Some {
        recognized_among(annotation.directives->0)
    } else {
        Seq::empty()
    }
}

/// Reads one annotation. Succeeds exactly on the well-formed ones, with the
/// directives of a `query` annotation in source order and nothing for any
/// other annotation.
pub fn parse_query_attributes(annotation: &RawAnnotation) -> (attributes: Option<
    Vec<FieldAttributes>,
>)
    ensures
        attributes is Some <==> annotation_well_formed(annotation@),
        attributes matches Some(found) ==> found.deep_view() == annotation_attributes(
            annotation@,
        ),
{
    let mut attrs: Vec<FieldAttributes> = Vec::new();
    if !text_equal(annotation.namespace.as_str(), "query") {
        return Some(attrs);
    }
    let directives = match &annotation.directives {
        Some(directives) => directives,
        None => {
            return None;
        },
    };
    let ghost entries = directives.deep_view();
    let mut i: usize = 0;
    while i < directives.len()
        invariant
            i <= directives.len(),
            entries == directives.deep_view(),
            is_query_annotation(annotation@),
            annotation@.directives == Some(entries),
            attrs.deep_view() == recognized_among(entries.take(i as int)),
            forall|j: int| 0 <= j < i ==> !(read_directive(#[trigger] entries[j]) is Invalid),
        decreases directives.len() - i,
    {
        let directive = &directives[i];
        proof {
            entries.lemma_filter_map_take_succ(
                |directive: RawDirectiveView| recognized(directive),
                i as int,
            );
        }
        if text_equal(directive.name.as_str(), "required") {
            if directive.literal.is_some() {
                return None;
            }
            attrs.push(FieldAttributes::Required);
        } else if text_equal(directive.name.as_str(), "exclude") {
            if directive.literal.is_some() {
                return None;
            }
            attrs.push(FieldAttributes::Excluded);
        } else if text_equal(directive.name.as_str(), "rename") {
            match &directive.literal {
                Some(key) => {
                    attrs.push(FieldAttributes::Rename(key.clone()));
                },
                None => {
                    return None;
                },
            }
        } else if directive.literal.is_some() {
            return None;
        }
        i += 1;
    }
    Some(attrs)
}

/// Whether every annotation of a field can be read.
pub open spec fn field_well_formed(field: FieldDescriptorView) -> bool {
    forall|i: int|
        0 <= i < field.raw_annotations.len() ==> annotation_well_formed(
            #[trigger] field.raw_annotations[i],
        )
}

/// The directives of a field: those of its annotations, one annotation after
/// the other, as if all had been written in a single one.
pub open spec fn field_attributes(field: FieldDescriptorView) -> Seq<FieldAttributesView> {
    field.raw_annotations.flat_map(
        |annotation: RawAnnotationView| annotation_attributes(annotation),
    )
}

/// The key that a directive sets, if it is a rename.
pub open spec fn rename_of(attribute: FieldAttributesView) -> Option<Seq<char>> {
    match attribute {
        FieldAttributesView::Rename(key) => Some(key),
        _ => None,
    }
}

/// The keys of the renames among the directives, in their order.
pub open spec fn renames(attributes: Seq<FieldAttributesView>) -> Seq<Seq<char>> {
    attributes.filter_map(|attribute: FieldAttributesView| rename_of(attribute))
}

/// The key a field is written under: that of its last rename, or its own
/// name, unchanged, when it has none.
pub open spec fn output_key(ident: Seq<char>, attributes: Seq<FieldAttributesView>) -> Seq<char> {
    let keys = renames(attributes);
    if keys.len() == 0 {
        ident
    } else {
        keys.last()
    }
}

/// A named field together with what its annotations say.
#[derive(Debug, Clone, PartialEq, Eq)]
pub struct FieldDescription {
    /// The field's own name.
    pub ident: String,
    /// The key the field is written under.
    pub field_name: String,
    /// The field's directives in source order.
    pub attributes: Vec<FieldAttributes>,
}

/// The mathematical value of a [`FieldDescription`].
pub struct FieldDescriptionView {
    pub ident: Seq<char>,
    pub field_name: Seq<char>,
    pub attributes: Seq<FieldAttributesView>,
}

impl View for FieldDescription {
    type V = FieldDescriptionView;

    open spec fn view(&self) -> FieldDescriptionView {
        FieldDescriptionView {
            ident: self.ident@,
            field_name: self.field_name@,
            attributes: self.attributes.deep_view(),
        }
    }
}

impl FieldDescription {
    /// Whether the field is marked `required`.
    pub fn is_required(&self) -> (required: bool)
        ensures
            required == self@.attributes.contains(FieldAttributesView::Required),
    {
        let mut i: usize = 0;
        while i < self.attributes.len()
            invariant
                i <= self.attributes.len(),
                !self@.attributes.take(i as int).contains(FieldAttributesView::Required),
            decreases self.attributes.len() - i,
        {
            if let FieldAttributes::Required = &self.attributes[i] {
                assert(self@.attributes[i as int] == FieldAttributesView::Required);
                return true;
            }
            i += 1;
        }
        false
    }

    /// Whether the field is marked `exclude`.
    pub fn is_excluded(&self) -> (excluded: bool)
        ensures
            excluded == self@.attributes.contains(FieldAttributesView::Excluded),
    {
        let mut i: usize = 0;
        while i < self.attributes.len()
            invariant
                i <= self.attributes.len(),
                !self@.attributes.take(i as int).contains(FieldAttributesView::Excluded),
            decreases self.attributes.len() - i,
        {
            if let FieldAttributes::Excluded = &self.attributes[i] {
                assert(self@.attributes[i as int] == FieldAttributesView::Excluded);
                return true;
            }
            i += 1;
        }
        false
    }
}

/// The key a described field is written under: the key of the last rename
/// among its directives, or the field's own name when there is none.
pub fn name_from_field_description(field: &FieldDescription) -> (name: String)
    ensures
        name@ == output_key(field@.ident, field@.attributes),
{
    let mut name = field.ident.clone();
    let ghost attributes = field@.attributes;
    let mut i: usize = 0;
    while i < field.attributes.len()
        invariant
            i <= field.attributes.len(),
            attributes == field@.attributes,
            name@ == output_key(field@.ident, attributes.take(i as int)),
        decreases field.attributes.len() - i,
    {
        proof {
            attributes.lemma_filter_map_take_succ(
                |attribute: FieldAttributesView| rename_of(attribute),
                i as int,
            );
        }
        if let FieldAttributes::Rename(rename) = &field.attributes[i] {
            name = rename.clone();
        }
        i += 1;
    }
    name
}

/// What [`map_field_to_description`] makes of a field that can be read.
pub open spec fn described(field: FieldDescriptorView) -> FieldDescriptionView
    recommends
        field.name is Some,
{
    FieldDescriptionView {
        ident: field.name->0,
        field_name: output_key(field.name->0, field_attributes(field)),
        attributes: field_attributes(field),
    }
}

/// Reads the annotations of a named field and settles its key. Fails, naming
/// the field, exactly when one of its annotations cannot be read.
pub fn map_field_to_description(field: &FieldDescriptor) -> (description: Result<
    FieldDescription,
    DeriveError,
>)
    requires
        field.name is Some,
    ensures
        description is Ok <==> field_well_formed(field@),
        description matches Ok(found) ==> found@ == described(field@),
        description matches Err(error) ==> error@ == (DeriveErrorView::AnnotationSyntax {
            field: field@.name->0,
        }),
{
    let ident: &String = field.name.as_ref().unwrap();
    let ghost annotations = field@.raw_annotations;
    let mut attributes: Vec<FieldAttributes> = Vec::new();
    let mut i: usize = 0;
    while i < field.raw_annotations.len()
        invariant
            i <= field.raw_annotations.len(),
            annotations == field@.raw_annotations,
            field.name == Some(*ident),
            attributes.deep_view() == annotations.take(i as int).flat_map(
                |annotation: RawAnnotationView| annotation_attributes(annotation),
            ),
            forall|j: int| 0 <= j < i ==> annotation_well_formed(#[trigger] annotations[j]),
        decreases field.raw_annotations.len() - i,
    {
        proof {
            annotations.lemma_flat_map_take_append(
                |annotation: RawAnnotationView| annotation_attributes(annotation),
                i as int,
            );
        }
        match parse_query_attributes(&field.raw_annotations[i]) {
            Some(mut found) => {
                attributes.append(&mut found);
            },
            None => {
                return Err(DeriveError::AnnotationSyntax { field: ident.clone() });
            },
        }
        i += 1;
    }
    let mut desc = FieldDescription {
        ident: ident.clone(),
        field_name: ident.clone(),
        attributes,
    };
    let name = name_from_field_description(&desc);
    desc.field_name = name;
    Ok(desc)
}

/// Whether a path is the single segment `Option`, with no leading `::`.
pub open spec fn is_option_path(path: PathShapeView) -> bool {
    &&& !path.leading_colon
    &&& path.segments.len() == 1
    &&& path.segments[0] == "Option"@
}

/// Whether a declared type has the shape of a value that may be absent: an
/// unqualified path that is just `Option`.
pub open spec fn has_optional_shape(declared: TypeShapeView) -> bool {
    match declared {
        TypeShapeView::Path { qualified, path } => !qualified && is_option_path(path),
        TypeShapeView::Other => false,
    }
}

/// Whether a path names `Option` and nothing else.
pub fn path_is_option(path: &PathShape) -> (is_option: bool)
    ensures
        is_option == is_option_path(path@),
{
    !path.leading_colon && path.segments.len() == 1 && text_equal(
        path.segments[0].as_str(),
        "Option",
    )
}

/// Checks that a field without `required` is declared as an `Option`. Fails,
/// naming the field, exactly when it is not.
pub fn validate_optional_field(field: &FieldDescriptor) -> (checked: Result<(), DeriveError>)
    requires
        field.name is Some,
    ensures
        checked is Ok <==> has_optional_shape(field@.declared_type),
        checked matches Err(error) ==> error@ == (DeriveErrorView::NonOptionalField {
            field: field@.name->0,
        }),
{
    let optional = match &field.declared_type {
        TypeShape::Path { qualified, path } => !*qualified && path_is_option(path),
        TypeShape::Other => false,
    };
    if optional {
        Ok(())
    } else {
        let ident: &String = field.name.as_ref().unwrap();
        Err(DeriveError::NonOptionalField { field: ident.clone() })
    }
}

/// How a field that takes part yields its pair.
#[derive(Debug, Clone, Copy, PartialEq, Eq)]
pub enum Participation {
    /// Always.
    Required,
    /// Only when its value is present.
    Optional,
}

/// The settled policy of one field that takes part in the output.
#[derive(Debug, Clone, PartialEq, Eq)]
pub struct FieldPolicy {
    /// The field's position among the fields of its record.
    pub index: usize,
    /// The field's own name.
    pub ident: String,
    /// The key the field's pair is written under.
    pub output_key: String,
    pub participation: Participation,
}

/// The mathematical value of a [`FieldPolicy`].
pub struct FieldPolicyView {
    pub index: nat,
    pub ident: Seq<char>,
    pub output_key: Seq<char>,
    pub participation: Participation,
}

impl View for FieldPolicy {
    type V = FieldPolicyView;

    open spec fn view(&self) -> FieldPolicyView {
        FieldPolicyView {
            index: self.index as nat,
            ident: self.ident@,
            output_key: self.output_key@,
            participation: self.participation,
        }
    }
}

impl DeepView for FieldPolicy {
    type V = FieldPolicyView;

    open spec fn deep_view(&self) -> FieldPolicyView {
        self@
    }
}

/// The policy of the field at `index` under the given participation.
pub open spec fn policy_for(
    index: nat,
    field: FieldDescriptorView,
    participation: Participation,
) -> FieldPolicyView
    recommends
        field.name is Some,
{
    FieldPolicyView {
        index,
        ident: field.name->0,
        output_key: output_key(field.name->0, field_attributes(field)),
        participation,
    }
}

/// What becomes of a named field. An annotation that cannot be read rejects
/// it. Otherwise `exclude` drops it, whatever else it carries; `required`
/// makes it mandatory; and without either it is optional, which its declared
/// type has to allow.
pub open spec fn resolved(index: nat, field: FieldDescriptorView) -> Result<
    Option<FieldPolicyView>,
    DeriveErrorView,
>
    recommends
        field.name is Some,
{
    let attributes = field_attributes(field);
    if !field_well_formed(field) {
        Err(DeriveErrorView::AnnotationSyntax { field: field.name->0 })
    } else if attributes.contains(FieldAttributesView::Excluded) {
        Ok(None)
    } else if attributes.contains(FieldAttributesView::Required) {
        Ok(Some(policy_for(index, field, Participation::Required)))
    } else if has_optional_shape(field.declared_type) {
        Ok(Some(policy_for(index, field, Participation::Optional)))
    } else {
        Err(DeriveErrorView::NonOptionalField { field: field.name->0 })
    }
}

/// Settles the policy of the named field at position `index` of its record:
/// `Ok(None)` for an excluded field, its policy for one that takes part, and
/// the error for one that is rejected.
pub fn resolve(index: usize, field: &FieldDescriptor) -> (outcome: Result<
    Option<FieldPolicy>,
    DeriveError,
>)
    requires
        field.name is Some,
    ensures
        match resolved(index as nat, field@) {
            Ok(Some(policy)) => outcome matches Ok(Some(found)) && found@ == policy,
            Ok(None) => outcome matches Ok(None),
            Err(error) => outcome matches Err(found) && found@ == error,
        },
{
    let description = match map_field_to_description(field) {
        Ok(description) => description,
        Err(error) => {
            return Err(error);
        },
    };
    if description.is_excluded() {
        return Ok(None);
    }
    let participation = if description.is_required() {
        Participation::Required
    } else {
        match validate_optional_field(field) {
            Ok(()) => Participation::Optional,
            Err(error) => {
                return Err(error);
            },
        }
    };
    Ok(
        Some(
            FieldPolicy {
                index,
                ident: description.ident,
                output_key: description.field_name,
                participation,
            },
        ),
    )
}

} // verus!
