//! The assembler: from the fields of a record to the plan of its pairs.

use vstd::prelude::*;
use crate::analyzer::{resolve, resolved, FieldPolicy, FieldPolicyView, Participation};
use crate::descriptor::{DataShape, FieldDescriptorView, RecordDescriptor, RecordDescriptorView};
use crate::error::{DeriveError, DeriveErrorView};

verus! {

broadcast use vstd::seq_lib::group_seq_properties;

/// The plan of a record's pairs: first one pair for each mandatory field,
/// then one for each optional field whose value is present.
#[derive(Debug, Clone, PartialEq, Eq)]
pub struct QueryPlan {
    /// The mandatory fields in declaration order.
    pub required: Vec<FieldPolicy>,
    /// The optional fields in declaration order.
    pub optional: Vec<FieldPolicy>,
}

/// The mathematical value of a [`QueryPlan`].
pub struct QueryPlanView {
    pub required: Seq<FieldPolicyView>,
    pub optional: Seq<FieldPolicyView>,
}

impl View for QueryPlan {
    type V = QueryPlanView;

    open spec fn view(&self) -> QueryPlanView {
        QueryPlanView {
            required: self.required.deep_view(),
            optional: self.optional.deep_view(),
        }
    }
}

/// The plan for a list of policies: the mandatory ones and the optional ones,
/// each group in the order of the list.
pub open spec fn assembled(policies: Seq<FieldPolicyView>) -> QueryPlanView {
    QueryPlanView {
        required: policies.filter(
            |policy: FieldPolicyView| policy.participation is Required,
        ),
        optional: policies.filter(
            |policy: FieldPolicyView| policy.participation is Optional,
        ),
    }
}

/// Splits the policies of a record into its plan.
pub fn assemble(policies: Vec<FieldPolicy>) -> (plan: QueryPlan)
    ensures
        plan@ == assembled(policies.deep_view()),
{
    let ghost items = policies@;
    let ghost all = policies.deep_view();
    let mut required: Vec<FieldPolicy> = Vec::new();
    let mut optional: Vec<FieldPolicy> = Vec::new();
    for policy in it: policies
        invariant
            it.seq() == items,
            all.len() == items.len(),
            forall|i: int| 0 <= i < items.len() ==> all[i] == (#[trigger] items[i])@,
            required.deep_view() == all.take(it.index() as int).filter(
                |policy: FieldPolicyView| policy.participation is Required,
            ),
            optional.deep_view() == all.take(it.index() as int).filter(
                |policy: FieldPolicyView| policy.participation is Optional,
            ),
    {
        let ghost i = it.index();
        proof {
            assert(all.take(i + 1) =~= all.take(i).push(policy@));
            all.take(i).lemma_filter_push(
                policy@,
                |policy: FieldPolicyView| policy.participation is Required,
            );
            all.take(i).lemma_filter_push(
                policy@,
                |policy: FieldPolicyView| policy.participation is Optional,
            );
        }
        match policy.participation {
            Participation::Required => {
                required.push(policy);
            },
            Participation::Optional => {
                optional.push(policy);
            },
        }
    }
    QueryPlan { required, optional }
}

/// What becomes of the field at position `i`. A field without a name takes
/// no part and is not looked at.
pub open spec fn outcome_at(fields: Seq<FieldDescriptorView>, i: int) -> Result<
    Option<FieldPolicyView>,
    DeriveErrorView,
> {
    if fields[i].name is Some {
        resolved(i as nat, fields[i])
    } else {
        Ok(None)
    }
}

/// The outcomes of all fields, in declaration order.
pub open spec fn outcomes(fields: Seq<FieldDescriptorView>) -> Seq<
    Result<Option<FieldPolicyView>, DeriveErrorView>,
> {
    Seq::new(fields.len(), |i: int| outcome_at(fields, i))
}

/// The policy that an outcome carries, if it carries one.
pub open spec fn accepted(outcome: Result<Option<FieldPolicyView>, DeriveErrorView>) -> Option<
    FieldPolicyView,
> {
    match outcome {
        Ok(Some(policy)) => Some(policy),
        _ => None,
    }
}

/// The policies of the fields that take part, in declaration order.
pub open spec fn policies_of(fields: Seq<FieldDescriptorView>) -> Seq<FieldPolicyView> {
    outcomes(fields).filter_map(
        |outcome: Result<Option<FieldPolicyView>, DeriveErrorView>| accepted(outcome),
    )
}

/// Whether the field at position `i` is rejected and none before it is.
pub open spec fn is_first_rejected(fields: Seq<FieldDescriptorView>, i: int) -> bool {
    &&& 0 <= i < fields.len()
    &&& outcome_at(fields, i) is Err
    &&& forall|j: int| 0 <= j < i ==> #[trigger] outcome_at(fields, j) is Ok
}

/// Whether some field is rejected.
pub open spec fn has_rejected(fields: Seq<FieldDescriptorView>) -> bool {
    exists|i: int| 0 <= i < fields.len() && #[trigger] outcome_at(fields, i) is Err
}

/// The position of the first rejected field.
pub open spec fn first_rejected(fields: Seq<FieldDescriptorView>) -> int
    recommends
        has_rejected(fields),
{
    choose|i: int| is_first_rejected(fields, i)
}

/// The result of a derivation. Only a struct can be derived. One rejected
/// field rejects the record, with the error of the first such field in
/// declaration order. Otherwise the plan is assembled from the policies of the
/// fields that take part.
pub open spec fn derived(record: RecordDescriptorView) -> Result<QueryPlanView, DeriveErrorView> {
    if !(record.shape is Struct) {
        Err(DeriveErrorView::NotAStruct)
    } else if has_rejected(record.fields) {
        Err(outcome_at(record.fields, first_rejected(record.fields))->Err_0)
    } else {
        Ok(assembled(policies_of(record.fields)))
    }
}

/// Only one position can be the first rejected one.
pub proof fn lemma_first_rejected_unique(fields: Seq<FieldDescriptorView>, i: int)
    requires
        is_first_rejected(fields, i),
    ensures
        has_rejected(fields),
        first_rejected(fields) == i,
{
    let k = first_rejected(fields);
    if k < i {
        assert(outcome_at(fields, k) is Ok);
    } else if i < k {
        assert(outcome_at(fields, i) is Ok);
    }
}

/// Where a field is rejected, there is a first rejected field, at that
/// position or before it.
pub proof fn lemma_rejection_has_a_first(fields: Seq<FieldDescriptorView>, i: int)
    requires
        0 <= i < fields.len(),
        outcome_at(fields, i) is Err,
    ensures
        is_first_rejected(fields, first_rejected(fields)),
        first_rejected(fields) <= i,
    decreases i,
{
    if exists|j: int| 0 <= j < i && #[trigger] outcome_at(fields, j) is Err {
        let j = choose|j: int| 0 <= j < i && #[trigger] outcome_at(fields, j) is Err;
        lemma_rejection_has_a_first(fields, j);
    } else {
        lemma_first_rejected_unique(fields, i);
    }
}

/// Derives the plan of a record, or says why it has none.
pub fn derive(record: &RecordDescriptor) -> (plan: Result<QueryPlan, DeriveError>)
    ensures
        match derived(record@) {
            Ok(expected) => plan matches Ok(found) && found@ == expected,
            Err(error) => plan matches Err(found) && found@ == error,
        },
{
    match record.shape {
        DataShape::Struct => {},
        _ => {
            return Err(DeriveError::NotAStruct);
        },
    }
    let ghost fields = record@.fields;
    let mut policies: Vec<FieldPolicy> = Vec::new();
    let mut i: usize = 0;
    while i < record.fields.len()
        invariant
            i <= record.fields.len(),
            fields == record@.fields,
            record.shape is Struct,
            policies.deep_view() == outcomes(fields).take(i as int).filter_map(
                |outcome: Result<Option<FieldPolicyView>, DeriveErrorView>| accepted(outcome),
            ),
            forall|j: int| 0 <= j < i ==> #[trigger] outcome_at(fields, j) is Ok,
        decreases record.fields.len() - i,
    {
        let field = &record.fields[i];
        proof {
            outcomes(fields).lemma_filter_map_take_succ(
                |outcome: Result<Option<FieldPolicyView>, DeriveErrorView>| accepted(outcome),
                i as int,
            );
        }
        if field.name.is_some() {
            match resolve(i, field) {
                Ok(Some(policy)) => {
                    policies.push(policy);
                },
                Ok(None) => {},
                Err(error) => {
                    proof {
                        lemma_first_rejected_unique(fields, i as int);
                    }
                    return Err(error);
                },
            }
        }
        i += 1;
    }
    Ok(assemble(policies))
}

} // verus!
