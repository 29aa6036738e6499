//! The description of a record type that derivation starts from.

use vstd::prelude::*;

verus! {

/// One entry of an annotation's argument list: `name` alone, or
/// `name = "literal"`.
#[derive(Debug, Clone, PartialEq, Eq)]
pub struct RawDirective {
    /// The entry's name as written; a path of several segments keeps its `::`.
    pub name: String,
    /// The contents of the string literal after `=`, if there is one.
    pub literal: Option<String>,
}

/// The mathematical value of a [`RawDirective`].
pub struct RawDirectiveView {
    pub name: Seq<char>,
    pub literal: Option<Seq<char>>,
}

impl View for RawDirective {
    type V = RawDirectiveView;

    open spec fn view(&self) -> RawDirectiveView {
        RawDirectiveView { name: self.name@, literal: self.literal.deep_view() }
    }
}

impl DeepView for RawDirective {
    type V = RawDirectiveView;

    open spec fn deep_view(&self) -> RawDirectiveView {
        self@
    }
}

/// One annotation attached to a field: the namespace it is written under and
/// its argument list.
#[derive(Debug, Clone, PartialEq, Eq)]
pub struct RawAnnotation {
    /// The annotation's own name, such as `query` or `doc`.
    pub namespace: String,
    /// The entries of the parenthesised argument list in source order, or
    /// `None` when the annotation has no such list or the list is not a
    /// comma-separated run of `name` and `name = "literal"` entries.
    pub directives: Option<Vec<RawDirective>>,
}

/// The mathematical value of a [`RawAnnotation`].
pub struct RawAnnotationView {
    pub namespace: Seq<char>,
    pub directives: Option<Seq<RawDirectiveView>>,
}

impl View for RawAnnotation {
    type V = RawAnnotationView;

    open spec fn view(&self) -> RawAnnotationView {
        RawAnnotationView {
            namespace: self.namespace@,
            directives: self.directives.deep_view(),
        }
    }
}

impl DeepView for RawAnnotation {
    type V = RawAnnotationView;

    open spec fn deep_view(&self) -> RawAnnotationView {
        self@
    }
}

/// A path as it is written in a type position.
#[derive(Debug, Clone, PartialEq, Eq)]
pub struct PathShape {
    /// Whether the path starts with `::`.
    pub leading_colon: bool,
    /// The identifiers of the path's segments, without their arguments.
    pub segments: Vec<String>,
}

/// The mathematical value of a [`PathShape`].
pub struct PathShapeView {
    pub leading_colon: bool,
    pub segments: Seq<Seq<char>>,
}

impl View for PathShape {
    type V = PathShapeView;

    open spec fn view(&self) -> PathShapeView {
        PathShapeView {
            leading_colon: self.leading_colon,
            segments: self.segments.deep_view(),
        }
    }
}

impl DeepView for PathShape {
    type V = PathShapeView;

    open spec fn deep_view(&self) -> PathShapeView {
        self@
    }
}

/// What derivation needs to know of a field's declared type.
#[derive(Debug, Clone, PartialEq, Eq)]
pub enum TypeShape {
    /// A path type such as `Option<i32>` or `<T as Trait>::Out`.
    Path {
        /// Whether the path is qualified by a self type (`<T as Trait>::..`).
        qualified: bool,
        path: PathShape,
    },
    /// Any other type: a reference, a tuple, an array, and so on.
    Other,
}

/// The mathematical value of a [`TypeShape`].
pub enum TypeShapeView {
    Path { qualified: bool, path: PathShapeView },
    Other,
}

impl View for TypeShape {
    type V = TypeShapeView;

    open spec fn view(&self) -> TypeShapeView {
        match self {
            TypeShape::Path { qualified, path } => TypeShapeView::Path {
                qualified: *qualified,
                path: path@,
            },
            TypeShape::Other => TypeShapeView::Other,
        }
    }
}

impl DeepView for TypeShape {
    type V = TypeShapeView;

    open spec fn deep_view(&self) -> TypeShapeView {
        self@
    }
}

/// One field of a record.
#[derive(Debug, Clone, PartialEq, Eq)]
pub struct FieldDescriptor {
    /// The field's identifier; `None` for the positional field of a tuple
    /// record.
    pub name: Option<String>,
    pub declared_type: TypeShape,
    /// The field's annotations in source order.
    pub raw_annotations: Vec<RawAnnotation>,
}

/// The mathematical value of a [`FieldDescriptor`].
pub struct FieldDescriptorView {
    pub name: Option<Seq<char>>,
    pub declared_type: TypeShapeView,
    pub raw_annotations: Seq<RawAnnotationView>,
}

impl View for FieldDescriptor {
    type V = FieldDescriptorView;

    open spec fn view(&self) -> FieldDescriptorView {
        FieldDescriptorView {
            name: self.name.deep_view(),
            declared_type: self.declared_type@,
            raw_annotations: self.raw_annotations.deep_view(),
        }
    }
}

impl DeepView for FieldDescriptor {
    type V = FieldDescriptorView;

    open spec fn deep_view(&self) -> FieldDescriptorView {
        self@
    }
}

/// The kind of item a derivation is asked for.
#[derive(Debug, Clone, Copy, PartialEq, Eq)]
pub enum DataShape {
    Struct,
    Enum,
    Union,
}

/// A record type: its kind and its fields in declaration order.
#[derive(Debug, Clone, PartialEq, Eq)]
pub struct RecordDescriptor {
    pub shape: DataShape,
    pub fields: Vec<FieldDescriptor>,
}

/// The mathematical value of a [`RecordDescriptor`].
pub struct RecordDescriptorView {
    pub shape: DataShape,
    pub fields: Seq<FieldDescriptorView>,
}

impl View for RecordDescriptor {
    type V = RecordDescriptorView;

    open spec fn view(&self) -> RecordDescriptorView {
        RecordDescriptorView { shape: self.shape, fields: self.fields.deep_view() }
    }
}

impl DeepView for RecordDescriptor {
    type V = RecordDescriptorView;

    open spec fn deep_view(&self) -> RecordDescriptorView {
        self@
    }
}

} // verus!
