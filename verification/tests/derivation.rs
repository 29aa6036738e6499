use to_query_params::analyzer::{FieldPolicy, Participation};
use to_query_params::assembler::{self, assemble, QueryPlan};
use to_query_params::descriptor::{
    DataShape, FieldDescriptor, PathShape, RawAnnotation, RawDirective, RecordDescriptor, TypeShape,
};
use to_query_params::error::DeriveError;

fn bare(name: &str) -> RawDirective {
    RawDirective { name: name.to_string(), literal: None }
}

fn valued(name: &str, literal: &str) -> RawDirective {
    RawDirective { name: name.to_string(), literal: Some(literal.to_string()) }
}

fn query(directives: Vec<RawDirective>) -> RawAnnotation {
    RawAnnotation { namespace: "query".to_string(), directives: Some(directives) }
}

fn plain(name: &str) -> TypeShape {
    TypeShape::Path {
        qualified: false,
        path: PathShape { leading_colon: false, segments: vec![name.to_string()] },
    }
}

fn field(name: &str, declared_type: &str, raw_annotations: Vec<RawAnnotation>) -> FieldDescriptor {
    FieldDescriptor {
        name: Some(name.to_string()),
        declared_type: plain(declared_type),
        raw_annotations,
    }
}

fn positional(declared_type: &str, raw_annotations: Vec<RawAnnotation>) -> FieldDescriptor {
    FieldDescriptor { name: None, declared_type: plain(declared_type), raw_annotations }
}

fn record(fields: Vec<FieldDescriptor>) -> RecordDescriptor {
    RecordDescriptor { shape: DataShape::Struct, fields }
}

fn policy(index: usize, ident: &str, key: &str, participation: Participation) -> FieldPolicy {
    FieldPolicy {
        index,
        ident: ident.to_string(),
        output_key: key.to_string(),
        participation,
    }
}

#[test]
fn policies_are_split_with_their_order_kept() {
    let plan = assemble(vec![
        policy(0, "a", "a", Participation::Optional),
        policy(1, "b", "beta", Participation::Required),
        policy(3, "d", "d", Participation::Optional),
        policy(4, "e", "e", Participation::Required),
    ]);
    assert_eq!(
        plan,
        QueryPlan {
            required: vec![
                policy(1, "b", "beta", Participation::Required),
                policy(4, "e", "e", Participation::Required),
            ],
            optional: vec![
                policy(0, "a", "a", Participation::Optional),
                policy(3, "d", "d", Participation::Optional),
            ],
        }
    );
}

#[test]
fn no_policies_give_an_empty_plan() {
    assert_eq!(assemble(vec![]), QueryPlan { required: vec![], optional: vec![] });
}

#[test]
fn a_struct_with_all_kinds_of_fields() {
    let plan = assembler::derive(&record(vec![
        field("id", "i32", vec![query(vec![bare("required")])]),
        field("product_type", "Option", vec![query(vec![valued("rename", "type")])]),
        field("max_price", "Option", vec![query(vec![valued("rename", "maxPrice")])]),
        field("private_data", "i32", vec![query(vec![bare("exclude")])]),
    ]));
    assert_eq!(
        plan,
        Ok(QueryPlan {
            required: vec![policy(0, "id", "id", Participation::Required)],
            optional: vec![
                policy(1, "product_type", "type", Participation::Optional),
                policy(2, "max_price", "maxPrice", Participation::Optional),
            ],
        })
    );
}

#[test]
fn a_struct_without_fields_has_an_empty_plan() {
    assert_eq!(
        assembler::derive(&record(vec![])),
        Ok(QueryPlan { required: vec![], optional: vec![] })
    );
}

#[test]
fn positional_fields_take_no_part() {
    let plan = assembler::derive(&record(vec![
        positional("i32", vec![]),
        positional("i32", vec![query(vec![bare("rename")])]),
        field("a", "i32", vec![query(vec![bare("required")])]),
    ]));
    assert_eq!(
        plan,
        Ok(QueryPlan {
            required: vec![policy(2, "a", "a", Participation::Required)],
            optional: vec![],
        })
    );
}

#[test]
fn an_enum_is_refused() {
    let item = RecordDescriptor { shape: DataShape::Enum, fields: vec![] };
    assert_eq!(assembler::derive(&item), Err(DeriveError::NotAStruct));
}

#[test]
fn a_union_is_refused() {
    let item = RecordDescriptor {
        shape: DataShape::Union,
        fields: vec![field("a", "i32", vec![query(vec![bare("required")])])],
    };
    assert_eq!(assembler::derive(&item), Err(DeriveError::NotAStruct));
}

#[test]
fn a_field_that_is_no_option_must_be_marked_required() {
    let plan = assembler::derive(&record(vec![
        field("a", "Option", vec![]),
        field("b", "i32", vec![]),
    ]));
    assert_eq!(plan, Err(DeriveError::NonOptionalField { field: "b".to_string() }));
}

#[test]
fn one_bad_annotation_refuses_the_whole_struct() {
    let plan = assembler::derive(&record(vec![
        field("a", "i32", vec![query(vec![bare("required")])]),
        field("b", "i32", vec![query(vec![bare("required"), bare("rename")])]),
        field("c", "i32", vec![query(vec![bare("required")])]),
    ]));
    assert_eq!(plan, Err(DeriveError::AnnotationSyntax { field: "b".to_string() }));
}

#[test]
fn the_first_rejected_field_gives_the_error() {
    let plan = assembler::derive(&record(vec![
        field("a", "i32", vec![]),
        field("b", "i32", vec![query(vec![bare("rename")])]),
    ]));
    assert_eq!(plan, Err(DeriveError::NonOptionalField { field: "a".to_string() }));
    let plan = assembler::derive(&record(vec![
        field("a", "i32", vec![query(vec![bare("rename")])]),
        field("b", "i32", vec![]),
    ]));
    assert_eq!(plan, Err(DeriveError::AnnotationSyntax { field: "a".to_string() }));
}

#[test]
fn an_excluded_field_is_still_read() {
    let plan = assembler::derive(&record(vec![field(
        "a",
        "i32",
        vec![query(vec![bare("exclude"), valued("required", "no")])],
    )]));
    assert_eq!(plan, Err(DeriveError::AnnotationSyntax { field: "a".to_string() }));
}

#[test]
fn the_messages_name_the_field_and_the_remedy() {
    assert_eq!(DeriveError::NotAStruct.message(), "Can only derive QueryParams for structs.");
    assert_eq!(
        DeriveError::NonOptionalField { field: "price".to_string() }.message(),
        "Non-optional field `price` must be explicitly marked with #[query(required)]"
    );
    assert_eq!(
        DeriveError::AnnotationSyntax { field: "b".to_string() }.message(),
        "Unsupported #[query(...)] attribute on field `b`"
    );
}

#[test]
fn a_repeated_directive_counts_once() {
    let plan = assembler::derive(&record(vec![field(
        "a",
        "i32",
        vec![query(vec![bare("required"), bare("required")]), query(vec![bare("required")])],
    )]));
    assert_eq!(
        plan,
        Ok(QueryPlan {
            required: vec![policy(0, "a", "a", Participation::Required)],
            optional: vec![],
        })
    );
}

#[test]
fn the_last_of_several_renames_gives_the_key() {
    let plan = assembler::derive(&record(vec![field(
        "a",
        "Option",
        vec![
            query(vec![valued("rename", "first")]),
            query(vec![valued("rename", "second"), valued("rename", "third")]),
        ],
    )]));
    assert_eq!(
        plan,
        Ok(QueryPlan {
            required: vec![],
            optional: vec![policy(0, "a", "third", Participation::Optional)],
        })
    );
}

#[test]
fn a_rename_touches_only_its_own_field() {
    let plan = assembler::derive(&record(vec![
        field("a", "i32", vec![query(vec![bare("required"), valued("rename", "alpha")])]),
        field("b", "i32", vec![query(vec![bare("required")])]),
        field("alpha", "i32", vec![query(vec![bare("required")])]),
    ]));
    assert_eq!(
        plan,
        Ok(QueryPlan {
            required: vec![
                policy(0, "a", "alpha", Participation::Required),
                policy(1, "b", "b", Participation::Required),
                policy(2, "alpha", "alpha", Participation::Required),
            ],
            optional: vec![],
        })
    );
}

#[test]
fn annotations_of_other_namespaces_change_nothing() {
    let plan = assembler::derive(&record(vec![field(
        "a",
        "Option",
        vec![
            RawAnnotation { namespace: "doc".to_string(), directives: None },
            RawAnnotation {
                namespace: "serde".to_string(),
                directives: Some(vec![valued("rename", "other"), bare("required")]),
            },
            query(vec![bare("unknown")]),
        ],
    )]));
    assert_eq!(
        plan,
        Ok(QueryPlan {
            required: vec![],
            optional: vec![policy(0, "a", "a", Participation::Optional)],
        })
    );
}
