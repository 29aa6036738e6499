//! What holds of every derivation and of the pairs it leads to.

use vstd::prelude::*;
use crate::analyzer::{
    field_attributes, has_optional_shape, output_key, policy_for, renames, resolved,
    field_well_formed, FieldAttributesView, FieldPolicyView, Participation,
};
use crate::assembler::{
    accepted, derived, first_rejected, has_rejected, is_first_rejected,
    lemma_rejection_has_a_first, outcome_at, outcomes, policies_of, QueryPlanView,
};
use crate::descriptor::{FieldDescriptorView, RecordDescriptorView};
use crate::encoding::{encoded_pairs, percent_encoded};
use crate::error::DeriveErrorView;
use crate::params::{
    is_present, optional_pairs, pair_of, plan_accepts, produced_pairs, required_pairs,
};

verus! {

broadcast use vstd::seq_lib::group_seq_properties;

/// Whether a policy is the one that derivation settles for the field at its
/// own position.
pub open spec fn stems_from(policy: FieldPolicyView, fields: Seq<FieldDescriptorView>) -> bool {
    &&& policy.index < fields.len()
    &&& fields[policy.index as int].name is Some
    &&& resolved(policy.index, fields[policy.index as int]) == Ok::<
        Option<FieldPolicyView>,
        DeriveErrorView,
    >(Some(policy))
}

/// Whether the policies stand in the order in which their fields are
/// declared.
pub open spec fn in_declaration_order(policies: Seq<FieldPolicyView>) -> bool {
    forall|j: int, k: int|
        0 <= j < k < policies.len() ==> (#[trigger] policies[j]).index < (
        #[trigger] policies[k]).index
}

/// The policies of the first `count` fields.
spec fn policies_before(fields: Seq<FieldDescriptorView>, count: int) -> Seq<FieldPolicyView> {
    outcomes(fields).take(count).filter_map(
        |outcome: Result<Option<FieldPolicyView>, DeriveErrorView>| accepted(outcome),
    )
}

/// The policies of the first `count` fields are those settled for the fields
/// that take part among them, in declaration order.
proof fn lemma_policies_before(fields: Seq<FieldDescriptorView>, count: int)
    requires
        0 <= count <= fields.len(),
    ensures
        forall|j: int|
            0 <= j < policies_before(fields, count).len() ==> stems_from(
                #[trigger] policies_before(fields, count)[j],
                fields,
            ) && policies_before(fields, count)[j].index < count,
        in_declaration_order(policies_before(fields, count)),
        forall|i: int|
            0 <= i < count && accepted(#[trigger] outcome_at(fields, i)) is Some
                ==> policies_before(fields, count).contains(accepted(outcome_at(fields, i))->0),
    decreases count,
{
    if count > 0 {
        let earlier = policies_before(fields, count - 1);
        let now = policies_before(fields, count);
        lemma_policies_before(fields, count - 1);
        outcomes(fields).lemma_filter_map_take_succ(
            |outcome: Result<Option<FieldPolicyView>, DeriveErrorView>| accepted(outcome),
            count - 1,
        );
        if accepted(outcome_at(fields, count - 1)) is Some {
            assert forall|i: int|
                0 <= i < count - 1 && accepted(
                    #[trigger] outcome_at(fields, i),
                ) is Some implies now.contains(accepted(outcome_at(fields, i))->0) by {
                let found = accepted(outcome_at(fields, i))->0;
                let at = choose|at: int| 0 <= at < earlier.len() && earlier[at] == found;
                assert(now[at] == found);
            }
        }
    }
}

/// Filtering keeps the declaration order and keeps exactly the policies that
/// pass.
proof fn lemma_filter_in_order(
    policies: Seq<FieldPolicyView>,
    keep: spec_fn(FieldPolicyView) -> bool,
)
    requires
        in_declaration_order(policies),
    ensures
        in_declaration_order(policies.filter(keep)),
        forall|j: int|
            0 <= j < policies.filter(keep).len() ==> keep(#[trigger] policies.filter(keep)[j])
                && policies.contains(policies.filter(keep)[j]),
        forall|i: int|
            0 <= i < policies.len() && keep(#[trigger] policies[i]) ==> policies.filter(
                keep,
            ).contains(policies[i]),
    decreases policies.len(),
{
    reveal(Seq::filter);
    if policies.len() > 0 {
        let front = policies.drop_last();
        let last = policies.last();
        let kept_front = front.filter(keep);
        let kept = policies.filter(keep);
        lemma_filter_in_order(front, keep);
        assert forall|j: int| 0 <= j < kept_front.len() implies (#[trigger] kept_front[j]).index
            < last.index && policies.contains(kept_front[j]) by {
            let at = choose|at: int| 0 <= at < front.len() && front[at] == kept_front[j];
            assert(policies[at] == kept_front[j]);
        }
        assert forall|i: int|
            0 <= i < policies.len() - 1 && keep(#[trigger] policies[i]) implies kept.contains(
            policies[i],
        ) by {
            let at = choose|at: int| 0 <= at < kept_front.len() && kept_front[at] == front[i];
            assert(kept[at] == policies[i]);
        }
    }
}

/// Every policy of a derived plan is the one settled for the field at its
/// position, the mandatory ones stand under `required` and the optional ones
/// under `optional`, both in declaration order, and no field that takes
/// part is missing.
pub proof fn lemma_plan_structure(record: RecordDescriptorView)
    requires
        derived(record) is Ok,
    ensures
        forall|j: int|
            0 <= j < derived(record)->Ok_0.required.len() ==> stems_from(
                #[trigger] derived(record)->Ok_0.required[j],
                record.fields,
            ) && derived(record)->Ok_0.required[j].participation is Required,
        forall|j: int|
            0 <= j < derived(record)->Ok_0.optional.len() ==> stems_from(
                #[trigger] derived(record)->Ok_0.optional[j],
                record.fields,
            ) && derived(record)->Ok_0.optional[j].participation is Optional,
        in_declaration_order(derived(record)->Ok_0.required),
        in_declaration_order(derived(record)->Ok_0.optional),
        forall|i: int|
            0 <= i < record.fields.len() ==> match #[trigger] outcome_at(record.fields, i) {
                Ok(Some(policy)) => if policy.participation is Required {
                    derived(record)->Ok_0.required.contains(policy)
                } else {
                    derived(record)->Ok_0.optional.contains(policy)
                },
                _ => true,
            },
{
    let fields = record.fields;
    let plan = derived(record)->Ok_0;
    let policies = policies_of(fields);
    let required = |policy: FieldPolicyView| policy.participation is Required;
    let optional = |policy: FieldPolicyView| policy.participation is Optional;
    lemma_policies_before(fields, fields.len() as int);
    lemma_filter_in_order(policies, required);
    lemma_filter_in_order(policies, optional);
    assert forall|j: int| 0 <= j < plan.required.len() implies stems_from(
        #[trigger] plan.required[j],
        fields,
    ) && plan.required[j].participation is Required by {
        assert(policies.contains(plan.required[j]));
    }
    assert forall|j: int| 0 <= j < plan.optional.len() implies stems_from(
        #[trigger] plan.optional[j],
        fields,
    ) && plan.optional[j].participation is Optional by {
        assert(policies.contains(plan.optional[j]));
    }
    assert forall|i: int| 0 <= i < fields.len() implies match #[trigger] outcome_at(fields, i) {
        Ok(Some(policy)) => if policy.participation is Required {
            plan.required.contains(policy)
        } else {
            plan.optional.contains(policy)
        },
        _ => true,
    } by {
        if let Ok(Some(policy)) = outcome_at(fields, i) {
            let at = choose|at: int| 0 <= at < policies.len() && policies[at] == policy;
            assert(required(policies[at]) || optional(policies[at]));
        }
    }
}

/// Where every item is picked, the picked values are all there, in order.
proof fn lemma_filter_map_of_all<A, B>(items: Seq<A>, pick: spec_fn(A) -> Option<B>, picked: Seq<B>)
    requires
        picked.len() == items.len(),
        forall|i: int| 0 <= i < items.len() ==> pick(#[trigger] items[i]) == Some(picked[i]),
    ensures
        items.filter_map(pick) == picked,
    decreases items.len(),
{
    if items.len() > 0 {
        lemma_filter_map_of_all(items.drop_last(), pick, picked.drop_last());
    }
}

/// Where every item passes, filtering changes nothing.
proof fn lemma_filter_keeps_all<A>(items: Seq<A>, keep: spec_fn(A) -> bool)
    requires
        forall|i: int| 0 <= i < items.len() ==> keep(#[trigger] items[i]),
    ensures
        items.filter(keep) == items,
    decreases items.len(),
{
    reveal(Seq::filter);
    if items.len() > 0 {
        lemma_filter_keeps_all(items.drop_last(), keep);
    }
}

/// Where no item passes, filtering leaves nothing.
proof fn lemma_filter_keeps_none<A>(items: Seq<A>, keep: spec_fn(A) -> bool)
    requires
        forall|i: int| 0 <= i < items.len() ==> !keep(#[trigger] items[i]),
    ensures
        items.filter(keep) == Seq::<A>::empty(),
    decreases items.len(),
{
    reveal(Seq::filter);
    if items.len() > 0 {
        lemma_filter_keeps_none(items.drop_last(), keep);
    }
}

/// The key that the field at position `i` is written under.
pub open spec fn key_at(fields: Seq<FieldDescriptorView>, i: int) -> Seq<char> {
    output_key(fields[i].name->0, field_attributes(fields[i]))
}

/// The pair of the field at position `i`: its key and its value.
pub open spec fn pair_at(
    fields: Seq<FieldDescriptorView>,
    values: Seq<Option<Seq<char>>>,
    i: int,
) -> (Seq<char>, Seq<char>) {
    (key_at(fields, i), values[i]->0)
}

/// The policies of a record whose fields all take part in the same way.
spec fn uniform_policies(fields: Seq<FieldDescriptorView>, participation: Participation) -> Seq<
    FieldPolicyView,
> {
    Seq::new(fields.len(), |i: int| policy_for(i as nat, fields[i], participation))
}

/// A struct whose fields all take part in the same way is derived, with all
/// of them in the matching part of the plan.
proof fn lemma_uniform_record(record: RecordDescriptorView, participation: Participation)
    requires
        record.shape is Struct,
        forall|i: int|
            0 <= i < record.fields.len() ==> #[trigger] outcome_at(record.fields, i) == Ok::<
                Option<FieldPolicyView>,
                DeriveErrorView,
            >(Some(policy_for(i as nat, record.fields[i], participation))),
    ensures
        derived(record) is Ok,
        participation is Required ==> derived(record)->Ok_0 == (QueryPlanView {
            required: uniform_policies(record.fields, participation),
            optional: Seq::empty(),
        }),
        participation is Optional ==> derived(record)->Ok_0 == (QueryPlanView {
            required: Seq::empty(),
            optional: uniform_policies(record.fields, participation),
        }),
{
    let fields = record.fields;
    let expected = uniform_policies(fields, participation);
    assert forall|i: int| 0 <= i < outcomes(fields).len() implies accepted(
        #[trigger] outcomes(fields)[i],
    ) == Some(expected[i]) by {
        assert(outcomes(fields)[i] == outcome_at(fields, i));
    }
    lemma_filter_map_of_all(
        outcomes(fields),
        |outcome: Result<Option<FieldPolicyView>, DeriveErrorView>| accepted(outcome),
        expected,
    );
    if participation is Required {
        lemma_filter_keeps_all(
            expected,
            |policy: FieldPolicyView| policy.participation is Required,
        );
        lemma_filter_keeps_none(
            expected,
            |policy: FieldPolicyView| policy.participation is Optional,
        );
    } else {
        lemma_filter_keeps_all(
            expected,
            |policy: FieldPolicyView| policy.participation is Optional,
        );
        lemma_filter_keeps_none(
            expected,
            |policy: FieldPolicyView| policy.participation is Required,
        );
    }
}

/// Whether a record is a struct whose fields are all named, readable, marked
/// `required` and not excluded.
pub open spec fn only_required_fields(record: RecordDescriptorView) -> bool {
    &&& record.shape is Struct
    &&& forall|i: int|
        0 <= i < record.fields.len() ==> {
            let field = #[trigger] record.fields[i];
            &&& field.name is Some
            &&& field_well_formed(field)
            &&& field_attributes(field).contains(FieldAttributesView::Required)
            &&& !field_attributes(field).contains(FieldAttributesView::Excluded)
        }
}

/// A record with only required fields is derived, and an instance of it
/// yields exactly one pair per field, in declaration order: the field's key
/// with the field's value.
pub proof fn lemma_required_fields_yield_one_pair_each(
    record: RecordDescriptorView,
    values: Seq<Option<Seq<char>>>,
)
    requires
        only_required_fields(record),
        values.len() == record.fields.len(),
        forall|i: int| 0 <= i < values.len() ==> (#[trigger] values[i]) is Some,
    ensures
        derived(record) is Ok,
        plan_accepts(derived(record)->Ok_0, values),
        produced_pairs(derived(record)->Ok_0, values).len() == record.fields.len(),
        forall|i: int|
            0 <= i < record.fields.len() ==> #[trigger] produced_pairs(
                derived(record)->Ok_0,
                values,
            )[i] == pair_at(record.fields, values, i),
{
    let fields = record.fields;
    assert forall|i: int| 0 <= i < fields.len() implies #[trigger] outcome_at(fields, i) == Ok::<
        Option<FieldPolicyView>,
        DeriveErrorView,
    >(Some(policy_for(i as nat, fields[i], Participation::Required))) by {
        assert(fields[i].name is Some);
    }
    lemma_uniform_record(record, Participation::Required);
    let plan = derived(record)->Ok_0;
    assert(optional_pairs(plan, values) =~= Seq::empty());
}

/// Whether a record is a struct whose fields are all named, readable and
/// declared as `Option`, none of them marked `required` or excluded.
pub open spec fn only_optional_fields(record: RecordDescriptorView) -> bool {
    &&& record.shape is Struct
    &&& forall|i: int|
        0 <= i < record.fields.len() ==> {
            let field = #[trigger] record.fields[i];
            &&& field.name is Some
            &&& field_well_formed(field)
            &&& has_optional_shape(field.declared_type)
            &&& !field_attributes(field).contains(FieldAttributesView::Required)
            &&& !field_attributes(field).contains(FieldAttributesView::Excluded)
        }
}

/// Whether a pair is that of a field of the plan whose value is present.
pub open spec fn pair_has_a_field(
    plan: QueryPlanView,
    values: Seq<Option<Seq<char>>>,
    pair: (Seq<char>, Seq<char>),
) -> bool {
    exists|policy: FieldPolicyView|
        {
            &&& plan.required.contains(policy) || plan.optional.contains(policy)
            &&& is_present(policy, values)
            &&& pair == #[trigger] pair_of(policy, values)
        }
}

/// Every pair of an instance belongs to a field of its plan whose value is
/// present.
pub proof fn lemma_every_pair_has_a_field(plan: QueryPlanView, values: Seq<Option<Seq<char>>>)
    requires
        plan_accepts(plan, values),
    ensures
        forall|j: int|
            0 <= j < produced_pairs(plan, values).len() ==> pair_has_a_field(
                plan,
                values,
                #[trigger] produced_pairs(plan, values)[j],
            ),
{
    let pairs = produced_pairs(plan, values);
    let keep = |policy: FieldPolicyView| is_present(policy, values);
    let present = plan.optional.filter(keep);
    assert forall|j: int| 0 <= j < pairs.len() implies pair_has_a_field(
        plan,
        values,
        #[trigger] pairs[j],
    ) by {
        if j < plan.required.len() {
            assert(pairs[j] == pair_of(plan.required[j], values));
        } else {
            let policy = present[j - plan.required.len()];
            plan.optional.lemma_filter_contains_rev(keep, policy);
            plan.optional.lemma_filter_pred(keep, j - plan.required.len());
            assert(pairs[j] == pair_of(policy, values));
        }
    }
}

/// Whether a pair is that of a field of the record whose value is present.
pub open spec fn pair_of_present_field(
    fields: Seq<FieldDescriptorView>,
    values: Seq<Option<Seq<char>>>,
    pair: (Seq<char>, Seq<char>),
) -> bool {
    exists|i: int|
        0 <= i < fields.len() && values[i] is Some && pair == #[trigger] pair_at(fields, values, i)
}

/// A record with only optional fields is derived, with every field in the
/// optional part of its plan. An absent value leaves no pair: each pair of an
/// instance is the key and the value of a field whose value is present, each
/// such field has its pair, and an instance without any value has no pair.
pub proof fn lemma_absent_values_leave_no_pair(
    record: RecordDescriptorView,
    values: Seq<Option<Seq<char>>>,
)
    requires
        only_optional_fields(record),
        values.len() == record.fields.len(),
    ensures
        derived(record) is Ok,
        plan_accepts(derived(record)->Ok_0, values),
        derived(record)->Ok_0.required.len() == 0,
        derived(record)->Ok_0.optional.len() == record.fields.len(),
        forall|j: int|
            0 <= j < produced_pairs(derived(record)->Ok_0, values).len()
                ==> pair_of_present_field(
                record.fields,
                values,
                #[trigger] produced_pairs(derived(record)->Ok_0, values)[j],
            ),
        forall|i: int|
            0 <= i < record.fields.len() && (#[trigger] values[i]) is Some ==> produced_pairs(
                derived(record)->Ok_0,
                values,
            ).contains(pair_at(record.fields, values, i)),
        (forall|i: int| 0 <= i < values.len() ==> (#[trigger] values[i]) is None)
            ==> produced_pairs(derived(record)->Ok_0, values).len() == 0,
{
    let fields = record.fields;
    assert forall|i: int| 0 <= i < fields.len() implies #[trigger] outcome_at(fields, i) == Ok::<
        Option<FieldPolicyView>,
        DeriveErrorView,
    >(Some(policy_for(i as nat, fields[i], Participation::Optional))) by {
        assert(fields[i].name is Some);
    }
    lemma_uniform_record(record, Participation::Optional);
    let plan = derived(record)->Ok_0;
    let pairs = produced_pairs(plan, values);
    let keep = |policy: FieldPolicyView| is_present(policy, values);
    let present = plan.optional.filter(keep);
    assert forall|j: int| 0 <= j < pairs.len() implies pair_of_present_field(
        fields,
        values,
        #[trigger] pairs[j],
    ) by {
        let policy = present[j];
        plan.optional.lemma_filter_contains_rev(keep, policy);
        plan.optional.lemma_filter_pred(keep, j);
        let i = choose|i: int| 0 <= i < plan.optional.len() && plan.optional[i] == policy;
        assert(pairs[j] == pair_at(fields, values, i));
    }
    assert forall|i: int|
        0 <= i < fields.len() && (#[trigger] values[i]) is Some implies pairs.contains(
        pair_at(fields, values, i),
    ) by {
        plan.optional.lemma_filter_contains(keep, i);
        let at = choose|at: int| 0 <= at < present.len() && present[at] == plan.optional[i];
        assert(pairs[at] == pair_at(fields, values, i));
    }
    if forall|i: int| 0 <= i < values.len() ==> (#[trigger] values[i]) is None {
        assert forall|i: int| 0 <= i < plan.optional.len() implies !keep(
            #[trigger] plan.optional[i],
        ) by {
            assert(values[i] is None);
        }
        lemma_filter_keeps_none(plan.optional, keep);
    }
}

/// Whether a field takes part in the output: it has a name and does not
/// carry `exclude`.
pub open spec fn takes_part(field: FieldDescriptorView) -> bool {
    field.name is Some && !field_attributes(field).contains(FieldAttributesView::Excluded)
}

/// Two filters of which every item passes exactly one share the items
/// between them.
proof fn lemma_filter_splits<A>(items: Seq<A>, left: spec_fn(A) -> bool, right: spec_fn(A) -> bool)
    requires
        forall|i: int| 0 <= i < items.len() ==> left(#[trigger] items[i]) != right(items[i]),
    ensures
        items.filter(left).len() + items.filter(right).len() == items.len(),
    decreases items.len(),
{
    reveal(Seq::filter);
    if items.len() > 0 {
        lemma_filter_splits(items.drop_last(), left, right);
    }
}

/// Where no field is rejected, the first `count` fields have one policy for
/// each field that takes part.
proof fn lemma_policies_counted(fields: Seq<FieldDescriptorView>, count: int)
    requires
        0 <= count <= fields.len(),
        forall|i: int| 0 <= i < fields.len() ==> #[trigger] outcome_at(fields, i) is Ok,
    ensures
        policies_before(fields, count).len() == fields.take(count).filter(
            |field: FieldDescriptorView| takes_part(field),
        ).len(),
    decreases count,
{
    let keep = |field: FieldDescriptorView| takes_part(field);
    if count > 0 {
        lemma_policies_counted(fields, count - 1);
        outcomes(fields).lemma_filter_map_take_succ(
            |outcome: Result<Option<FieldPolicyView>, DeriveErrorView>| accepted(outcome),
            count - 1,
        );
        assert(fields.take(count) =~= fields.take(count - 1).push(fields[count - 1]));
        fields.take(count - 1).lemma_filter_push(fields[count - 1], keep);
    }
}

/// A derived plan holds one policy for each field that takes part: as many
/// as the record has fields, less the positional and the excluded ones.
pub proof fn lemma_one_policy_per_field_that_takes_part(record: RecordDescriptorView)
    requires
        derived(record) is Ok,
    ensures
        derived(record)->Ok_0.required.len() + derived(record)->Ok_0.optional.len()
            == record.fields.filter(|field: FieldDescriptorView| takes_part(field)).len(),
{
    let fields = record.fields;
    let policies = policies_of(fields);
    assert forall|i: int| 0 <= i < fields.len() implies #[trigger] outcome_at(fields, i) is Ok by {
        assert(!has_rejected(fields));
    }
    lemma_policies_counted(fields, fields.len() as int);
    lemma_filter_splits(
        policies,
        |policy: FieldPolicyView| policy.participation is Required,
        |policy: FieldPolicyView| policy.participation is Optional,
    );
}

/// The values of an instance fit the plan of its record as soon as there is
/// one for each field and none is missing for a field marked `required`.
pub proof fn lemma_complete_instance_fits(
    record: RecordDescriptorView,
    values: Seq<Option<Seq<char>>>,
)
    requires
        derived(record) is Ok,
        values.len() == record.fields.len(),
        forall|i: int|
            0 <= i < record.fields.len() && field_attributes(#[trigger] record.fields[i]).contains(
                FieldAttributesView::Required,
            ) ==> values[i] is Some,
    ensures
        plan_accepts(derived(record)->Ok_0, values),
{
    let plan = derived(record)->Ok_0;
    lemma_plan_structure(record);
    assert forall|j: int| 0 <= j < plan.required.len() implies (#[trigger] plan.required[j]).index
        < values.len() && values[plan.required[j].index as int] is Some by {
        assert(stems_from(plan.required[j], record.fields));
    }
    assert forall|j: int| 0 <= j < plan.optional.len() implies (#[trigger] plan.optional[j]).index
        < values.len() by {
        assert(stems_from(plan.optional[j], record.fields));
    }
}

/// Every field of a derived plan is written under the key of its own last
/// rename, and under its own name, unchanged, when it carries no rename. The
/// annotations of the other fields play no part in it.
pub proof fn lemma_key_is_rename_or_name(record: RecordDescriptorView, policy: FieldPolicyView)
    requires
        derived(record) is Ok,
        derived(record)->Ok_0.required.contains(policy) || derived(record)->Ok_0.optional.contains(
            policy,
        ),
    ensures
        policy.index < record.fields.len(),
        record.fields[policy.index as int].name is Some,
        policy.ident == record.fields[policy.index as int].name->0,
        policy.output_key == key_at(record.fields, policy.index as int),
        renames(field_attributes(record.fields[policy.index as int])).len() == 0
            ==> policy.output_key == policy.ident,
        renames(field_attributes(record.fields[policy.index as int])).len() > 0
            ==> policy.output_key == renames(
            field_attributes(record.fields[policy.index as int]),
        ).last(),
{
    lemma_plan_structure(record);
}

/// Whether a pair is that of a field of the plan, other than the field at
/// position `i`, whose value is present.
pub open spec fn pair_of_other_field(
    plan: QueryPlanView,
    values: Seq<Option<Seq<char>>>,
    i: int,
    pair: (Seq<char>, Seq<char>),
) -> bool {
    exists|policy: FieldPolicyView|
        {
            &&& plan.required.contains(policy) || plan.optional.contains(policy)
            &&& policy.index != i
            &&& is_present(policy, values)
            &&& pair == #[trigger] pair_of(policy, values)
        }
}

/// A field that carries `exclude` has no place in a derived plan, whatever
/// else it carries and whatever its type, and every pair of an instance is
/// that of another field, whatever value the excluded field holds.
pub proof fn lemma_excluded_field_never_appears(
    record: RecordDescriptorView,
    values: Seq<Option<Seq<char>>>,
    i: int,
)
    requires
        derived(record) is Ok,
        plan_accepts(derived(record)->Ok_0, values),
        0 <= i < record.fields.len(),
        field_attributes(record.fields[i]).contains(FieldAttributesView::Excluded),
    ensures
        forall|j: int|
            0 <= j < derived(record)->Ok_0.required.len() ==> (
            #[trigger] derived(record)->Ok_0.required[j]).index != i,
        forall|j: int|
            0 <= j < derived(record)->Ok_0.optional.len() ==> (
            #[trigger] derived(record)->Ok_0.optional[j]).index != i,
        forall|j: int|
            0 <= j < produced_pairs(derived(record)->Ok_0, values).len() ==> pair_of_other_field(
                derived(record)->Ok_0,
                values,
                i,
                #[trigger] produced_pairs(derived(record)->Ok_0, values)[j],
            ),
{
    let plan = derived(record)->Ok_0;
    let pairs = produced_pairs(plan, values);
    lemma_plan_structure(record);
    lemma_every_pair_has_a_field(plan, values);
    assert forall|j: int| 0 <= j < pairs.len() implies pair_of_other_field(
        plan,
        values,
        i,
        #[trigger] pairs[j],
    ) by {
        let policy = choose|policy: FieldPolicyView|
            {
                &&& plan.required.contains(policy) || plan.optional.contains(policy)
                &&& is_present(policy, values)
                &&& pairs[j] == #[trigger] pair_of(policy, values)
            };
        assert(stems_from(policy, record.fields));
    }
}

/// The pairs of the mandatory fields come first, one for each in declaration
/// order; the pairs of the optional fields whose value is present follow, in
/// their own declaration order.
pub proof fn lemma_required_pairs_come_first(
    record: RecordDescriptorView,
    values: Seq<Option<Seq<char>>>,
)
    requires
        derived(record) is Ok,
        plan_accepts(derived(record)->Ok_0, values),
    ensures
        in_declaration_order(derived(record)->Ok_0.required),
        in_declaration_order(derived(record)->Ok_0.optional),
        in_declaration_order(
            derived(record)->Ok_0.optional.filter(
                |policy: FieldPolicyView| is_present(policy, values),
            ),
        ),
        produced_pairs(derived(record)->Ok_0, values).len() >= derived(record)->Ok_0.required.len(),
        produced_pairs(derived(record)->Ok_0, values).take(
            derived(record)->Ok_0.required.len() as int,
        ) == required_pairs(derived(record)->Ok_0, values),
        produced_pairs(derived(record)->Ok_0, values).skip(
            derived(record)->Ok_0.required.len() as int,
        ) == optional_pairs(derived(record)->Ok_0, values),
        forall|j: int|
            0 <= j < derived(record)->Ok_0.required.len() ==> #[trigger] produced_pairs(
                derived(record)->Ok_0,
                values,
            )[j] == pair_of(derived(record)->Ok_0.required[j], values),
{
    let plan = derived(record)->Ok_0;
    lemma_plan_structure(record);
    lemma_filter_in_order(plan.optional, |policy: FieldPolicyView| is_present(policy, values));
}

/// Encoding keeps the number of pairs and their order: the pair at each
/// position is the pair that stood there, its key and its value encoded
/// independently of each other.
pub proof fn lemma_encoding_keeps_count_and_order(pairs: Seq<(Seq<char>, Seq<char>)>)
    ensures
        encoded_pairs(pairs).len() == pairs.len(),
        forall|i: int|
            0 <= i < pairs.len() ==> #[trigger] encoded_pairs(pairs)[i] == (
                percent_encoded(pairs[i].0),
                percent_encoded(pairs[i].1),
            ),
{
}

/// A named field that is neither excluded nor marked `required` and whose
/// declared type is not `Option` makes the derivation of its record fail: it
/// is never taken for a mandatory field nor silently left out. The error is
/// that of the first rejected field, which stands at that position or before
/// it; if it is that field itself and its annotations can be read, the error
/// names it as a non-optional field.
pub proof fn lemma_non_optional_field_fails(record: RecordDescriptorView, i: int)
    requires
        0 <= i < record.fields.len(),
        record.fields[i].name is Some,
        !field_attributes(record.fields[i]).contains(FieldAttributesView::Excluded),
        !field_attributes(record.fields[i]).contains(FieldAttributesView::Required),
        !has_optional_shape(record.fields[i].declared_type),
    ensures
        derived(record) is Err,
        record.shape is Struct ==> {
            &&& is_first_rejected(record.fields, first_rejected(record.fields))
            &&& first_rejected(record.fields) <= i
            &&& derived(record)->Err_0 == outcome_at(
                record.fields,
                first_rejected(record.fields),
            )->Err_0
        },
        record.shape is Struct && first_rejected(record.fields) == i && field_well_formed(
            record.fields[i],
        ) ==> derived(record)->Err_0 == (DeriveErrorView::NonOptionalField {
            field: record.fields[i].name->0,
        }),
{
    assert(outcome_at(record.fields, i) is Err);
    lemma_rejection_has_a_first(record.fields, i);
}

} // verus!
