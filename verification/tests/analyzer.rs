use to_query_params::analyzer::{
    map_field_to_description, name_from_field_description, parse_query_attributes, path_is_option,
    resolve, validate_optional_field, FieldAttributes, FieldDescription, FieldPolicy,
    Participation,
};
use to_query_params::descriptor::{
    FieldDescriptor, PathShape, RawAnnotation, RawDirective, TypeShape,
};
use to_query_params::error::DeriveError;

fn bare(name: &str) -> RawDirective {
    RawDirective { name: name.to_string(), literal: None }
}

fn valued(name: &str, literal: &str) -> RawDirective {
    RawDirective { name: name.to_string(), literal: Some(literal.to_string()) }
}

fn annotation(namespace: &str, directives: Vec<RawDirective>) -> RawAnnotation {
    RawAnnotation { namespace: namespace.to_string(), directives: Some(directives) }
}

fn unreadable(namespace: &str) -> RawAnnotation {
    RawAnnotation { namespace: namespace.to_string(), directives: None }
}

fn path(leading_colon: bool, segments: &[&str]) -> PathShape {
    PathShape {
        leading_colon,
        segments: segments.iter().map(|segment| segment.to_string()).collect(),
    }
}

fn plain(name: &str) -> TypeShape {
    TypeShape::Path { qualified: false, path: path(false, &[name]) }
}

fn field(
    name: &str,
    declared_type: TypeShape,
    raw_annotations: Vec<RawAnnotation>,
) -> FieldDescriptor {
    FieldDescriptor { name: Some(name.to_string()), declared_type, raw_annotations }
}

#[test]
fn reads_the_three_directives_in_source_order() {
    let read = parse_query_attributes(&annotation(
        "query",
        vec![valued("rename", "alpha"), bare("required"), bare("exclude")],
    ));
    assert_eq!(
        read,
        Some(vec![
            FieldAttributes::Rename("alpha".to_string()),
            FieldAttributes::Required,
            FieldAttributes::Excluded,
        ])
    );
}

#[test]
fn an_empty_argument_list_gives_no_directive() {
    assert_eq!(parse_query_attributes(&annotation("query", vec![])), Some(vec![]));
}

#[test]
fn an_annotation_of_another_namespace_is_not_read() {
    assert_eq!(
        parse_query_attributes(&annotation("serde", vec![valued("rename", "x"), bare("required")])),
        Some(vec![])
    );
    assert_eq!(parse_query_attributes(&unreadable("doc")), Some(vec![]));
    assert_eq!(
        parse_query_attributes(&annotation("other", vec![valued("required", "oops")])),
        Some(vec![])
    );
}

#[test]
fn an_unknown_bare_name_is_passed_over() {
    assert_eq!(
        parse_query_attributes(&annotation("query", vec![bare("skip"), bare("required")])),
        Some(vec![FieldAttributes::Required])
    );
    assert_eq!(
        parse_query_attributes(&annotation("query", vec![bare("a::required")])),
        Some(vec![])
    );
}

#[test]
fn a_query_annotation_without_a_readable_list_is_refused() {
    assert_eq!(parse_query_attributes(&unreadable("query")), None);
}

#[test]
fn rename_without_a_literal_is_refused() {
    assert_eq!(parse_query_attributes(&annotation("query", vec![bare("rename")])), None);
    assert_eq!(
        parse_query_attributes(&annotation("query", vec![bare("required"), bare("rename")])),
        None
    );
}

#[test]
fn a_value_where_none_belongs_is_refused() {
    assert_eq!(parse_query_attributes(&annotation("query", vec![valued("required", "yes")])), None);
    assert_eq!(parse_query_attributes(&annotation("query", vec![valued("exclude", "yes")])), None);
    assert_eq!(parse_query_attributes(&annotation("query", vec![valued("other", "yes")])), None);
}

#[test]
fn the_key_is_the_name_without_a_rename() {
    let description = FieldDescription {
        ident: "max_price".to_string(),
        field_name: "max_price".to_string(),
        attributes: vec![FieldAttributes::Required],
    };
    assert_eq!(name_from_field_description(&description), "max_price");
}

#[test]
fn the_last_rename_wins() {
    let description = FieldDescription {
        ident: "a".to_string(),
        field_name: "a".to_string(),
        attributes: vec![
            FieldAttributes::Rename("first".to_string()),
            FieldAttributes::Required,
            FieldAttributes::Rename("second".to_string()),
            FieldAttributes::Excluded,
        ],
    };
    assert_eq!(name_from_field_description(&description), "second");
}

#[test]
fn a_rename_is_taken_verbatim() {
    let description = FieldDescription {
        ident: "a".to_string(),
        field_name: "a".to_string(),
        attributes: vec![FieldAttributes::Rename("Max Price?".to_string())],
    };
    assert_eq!(name_from_field_description(&description), "Max Price?");
}

#[test]
fn required_and_excluded_are_found_wherever_they_stand() {
    let description = FieldDescription {
        ident: "a".to_string(),
        field_name: "a".to_string(),
        attributes: vec![
            FieldAttributes::Rename("x".to_string()),
            FieldAttributes::Required,
            FieldAttributes::Required,
        ],
    };
    assert!(description.is_required());
    assert!(!description.is_excluded());
    let bare = FieldDescription {
        ident: "a".to_string(),
        field_name: "a".to_string(),
        attributes: vec![],
    };
    assert!(!bare.is_required());
    assert!(!bare.is_excluded());
    let excluded = FieldDescription {
        ident: "a".to_string(),
        field_name: "a".to_string(),
        attributes: vec![FieldAttributes::Excluded],
    };
    assert!(excluded.is_excluded());
    assert!(!excluded.is_required());
}

#[test]
fn annotations_of_a_field_are_merged_in_order() {
    let described = map_field_to_description(&field(
        "c",
        plain("i32"),
        vec![
            annotation("query", vec![valued("rename", "gamma")]),
            annotation("doc", vec![]),
            annotation("query", vec![bare("required"), valued("rename", "delta")]),
        ],
    ));
    assert_eq!(
        described,
        Ok(FieldDescription {
            ident: "c".to_string(),
            field_name: "delta".to_string(),
            attributes: vec![
                FieldAttributes::Rename("gamma".to_string()),
                FieldAttributes::Required,
                FieldAttributes::Rename("delta".to_string()),
            ],
        })
    );
}

#[test]
fn a_field_without_annotations_keeps_its_name() {
    let described = map_field_to_description(&field("min_price", plain("Option"), vec![]));
    assert_eq!(
        described,
        Ok(FieldDescription {
            ident: "min_price".to_string(),
            field_name: "min_price".to_string(),
            attributes: vec![],
        })
    );
}

#[test]
fn an_unreadable_annotation_names_its_field() {
    let described = map_field_to_description(&field(
        "b",
        plain("i32"),
        vec![
            annotation("query", vec![bare("required")]),
            annotation("query", vec![bare("rename")]),
        ],
    ));
    assert_eq!(described, Err(DeriveError::AnnotationSyntax { field: "b".to_string() }));
}

#[test]
fn only_the_single_segment_option_is_optional() {
    assert!(path_is_option(&path(false, &["Option"])));
    assert!(!path_is_option(&path(true, &["Option"])));
    assert!(!path_is_option(&path(false, &["std", "option", "Option"])));
    assert!(!path_is_option(&path(false, &["option"])));
    assert!(!path_is_option(&path(false, &["Vec"])));
    assert!(!path_is_option(&path(false, &[])));
}

#[test]
fn an_option_field_passes_validation() {
    assert_eq!(validate_optional_field(&field("a", plain("Option"), vec![])), Ok(()));
}

#[test]
fn a_field_that_is_no_option_fails_validation() {
    assert_eq!(
        validate_optional_field(&field("price", plain("i32"), vec![])),
        Err(DeriveError::NonOptionalField { field: "price".to_string() })
    );
    assert_eq!(
        validate_optional_field(&field("r", TypeShape::Other, vec![])),
        Err(DeriveError::NonOptionalField { field: "r".to_string() })
    );
    let qualified = TypeShape::Path { qualified: true, path: path(false, &["Option"]) };
    assert_eq!(
        validate_optional_field(&field("q", qualified, vec![])),
        Err(DeriveError::NonOptionalField { field: "q".to_string() })
    );
}

#[test]
fn a_required_field_resolves_to_a_required_policy() {
    let outcome = resolve(
        3,
        &field("id", plain("i32"), vec![annotation("query", vec![bare("required")])]),
    );
    assert_eq!(
        outcome,
        Ok(Some(FieldPolicy {
            index: 3,
            ident: "id".to_string(),
            output_key: "id".to_string(),
            participation: Participation::Required,
        }))
    );
}

#[test]
fn a_required_field_may_have_any_type() {
    let outcome = resolve(
        0,
        &field("id", TypeShape::Other, vec![annotation("query", vec![bare("required")])]),
    );
    assert!(matches!(outcome, Ok(Some(policy)) if policy.participation == Participation::Required));
    let outcome = resolve(
        0,
        &field("id", plain("Option"), vec![annotation("query", vec![bare("required")])]),
    );
    assert!(matches!(outcome, Ok(Some(policy)) if policy.participation == Participation::Required));
}

#[test]
fn an_unmarked_option_field_resolves_to_an_optional_policy() {
    let outcome = resolve(
        1,
        &field(
            "max_price",
            plain("Option"),
            vec![annotation("query", vec![valued("rename", "maxPrice")])],
        ),
    );
    assert_eq!(
        outcome,
        Ok(Some(FieldPolicy {
            index: 1,
            ident: "max_price".to_string(),
            output_key: "maxPrice".to_string(),
            participation: Participation::Optional,
        }))
    );
}

#[test]
fn exclude_wins_over_required() {
    let outcome = resolve(
        0,
        &field(
            "secret",
            plain("i32"),
            vec![annotation("query", vec![bare("required"), bare("exclude")])],
        ),
    );
    assert_eq!(outcome, Ok(None));
    let outcome = resolve(
        0,
        &field(
            "secret",
            plain("i32"),
            vec![
                annotation("query", vec![bare("exclude")]),
                annotation("query", vec![bare("required")]),
            ],
        ),
    );
    assert_eq!(outcome, Ok(None));
}

#[test]
fn an_excluded_field_is_not_validated() {
    let outcome =
        resolve(0, &field("local", plain("i32"), vec![annotation("query", vec![bare("exclude")])]));
    assert_eq!(outcome, Ok(None));
    let outcome = resolve(
        0,
        &field("local", TypeShape::Other, vec![annotation("query", vec![bare("exclude")])]),
    );
    assert_eq!(outcome, Ok(None));
}

#[test]
fn an_excluded_field_with_an_unreadable_annotation_is_rejected() {
    let outcome = resolve(
        0,
        &field(
            "local",
            plain("i32"),
            vec![annotation("query", vec![bare("exclude")]), unreadable("query")],
        ),
    );
    assert_eq!(outcome, Err(DeriveError::AnnotationSyntax { field: "local".to_string() }));
}

#[test]
fn an_unmarked_field_that_is_no_option_is_rejected() {
    let outcome = resolve(0, &field("price", plain("i32"), vec![]));
    assert_eq!(outcome, Err(DeriveError::NonOptionalField { field: "price".to_string() }));
    let outcome = resolve(
        0,
        &field("price", plain("i32"), vec![annotation("query", vec![valued("rename", "p")])]),
    );
    assert_eq!(outcome, Err(DeriveError::NonOptionalField { field: "price".to_string() }));
}

#[test]
fn the_syntax_of_a_field_is_judged_before_its_type() {
    let outcome = resolve(0, &field("price", plain("i32"), vec![unreadable("query")]));
    assert_eq!(outcome, Err(DeriveError::AnnotationSyntax { field: "price".to_string() }));
}
