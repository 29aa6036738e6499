//! The pairs of one record instance.

use vstd::prelude::*;
use crate::analyzer::FieldPolicyView;
use crate::assembler::{QueryPlan, QueryPlanView};
use crate::encoding::{encode_pairs, encoded_pairs};

verus! {

broadcast use vstd::seq_lib::group_seq_properties;

/// A value that can be written as query parameters.
pub trait ToQueryParams {
    /// The `(key, value)` pairs of this value, not encoded.
    fn to_query_params(&self) -> (pairs: Vec<(String, String)>);

    /// The pairs of [`to_query_params`](ToQueryParams::to_query_params) in
    /// the same order, with every key and every value percent-encoded: the
    /// result is the encoding of a list of pairs that `to_query_params` gives
    /// for this value. An impl that replaces this method is held to the same.
    fn to_encoded_params(&self) -> (pairs: Vec<(String, String)>)
        ensures
            exists|plain: Vec<(String, String)>|
                #[trigger] call_ensures(Self::to_query_params, (self,), plain) && pairs.deep_view()
                    == encoded_pairs(plain.deep_view()),
    {
        let plain = self.to_query_params();
        encode_pairs(&plain)
    }
}

/// Whether the values of an instance fit a plan: every field of the plan has
/// a position among the values, and the value of every mandatory field is
/// there.
pub open spec fn plan_accepts(plan: QueryPlanView, values: Seq<Option<Seq<char>>>) -> bool {
    &&& forall|i: int|
        0 <= i < plan.required.len() ==> (#[trigger] plan.required[i]).index < values.len()
            && values[plan.required[i].index as int] is Some
    &&& forall|i: int|
        0 <= i < plan.optional.len() ==> (#[trigger] plan.optional[i]).index < values.len()
}

/// The pair of a field whose value is present.
pub open spec fn pair_of(policy: FieldPolicyView, values: Seq<Option<Seq<char>>>) -> (
    Seq<char>,
    Seq<char>,
) {
    (policy.output_key, values[policy.index as int]->0)
}

/// Whether the value of a field is present.
pub open spec fn is_present(policy: FieldPolicyView, values: Seq<Option<Seq<char>>>) -> bool {
    values[policy.index as int] is Some
}

/// One pair for each mandatory field, in the order of the plan.
pub open spec fn required_pairs(plan: QueryPlanView, values: Seq<Option<Seq<char>>>) -> Seq<
    (Seq<char>, Seq<char>),
> {
    plan.required.map_values(|policy: FieldPolicyView| pair_of(policy, values))
}

/// One pair for each optional field whose value is present, in the order of
/// the plan. A field whose value is absent leaves nothing.
pub open spec fn optional_pairs(plan: QueryPlanView, values: Seq<Option<Seq<char>>>) -> Seq<
    (Seq<char>, Seq<char>),
> {
    plan.optional.filter(|policy: FieldPolicyView| is_present(policy, values)).map_values(
        |policy: FieldPolicyView| pair_of(policy, values),
    )
}

/// The pairs of an instance: those of the mandatory fields first, then those
/// of the optional fields.
pub open spec fn produced_pairs(plan: QueryPlanView, values: Seq<Option<Seq<char>>>) -> Seq<
    (Seq<char>, Seq<char>),
> {
    required_pairs(plan, values) + optional_pairs(plan, values)
}

/// Tells whether the values of an instance fit a plan.
pub fn plan_fits(plan: &QueryPlan, values: &Vec<Option<String>>) -> (fits: bool)
    ensures
        fits == plan_accepts(plan@, values.deep_view()),
{
    let ghost given = values.deep_view();
    let mut i: usize = 0;
    while i < plan.required.len()
        invariant
            i <= plan.required.len(),
            given == values.deep_view(),
            forall|j: int|
                0 <= j < i ==> (#[trigger] plan@.required[j]).index < given.len()
                    && given[plan@.required[j].index as int] is Some,
        decreases plan.required.len() - i,
    {
        let index = plan.required[i].index;
        assert(plan@.required[i as int].index == index);
        if index >= values.len() || values[index].is_none() {
            return false;
        }
        i += 1;
    }
    let mut k: usize = 0;
    while k < plan.optional.len()
        invariant
            k <= plan.optional.len(),
            given == values.deep_view(),
            forall|j: int| 0 <= j < k ==> (#[trigger] plan@.optional[j]).index < given.len(),
        decreases plan.optional.len() - k,
    {
        let index = plan.optional[k].index;
        assert(plan@.optional[k as int].index == index);
        if index >= values.len() {
            return false;
        }
        k += 1;
    }
    true
}

/// Builds the pairs of an instance from its plan and the text of its field
/// values, one value per field of the record in declaration order, `None`
/// where a value is absent.
pub fn produce_pairs(plan: &QueryPlan, values: &Vec<Option<String>>) -> (pairs: Vec<
    (String, String),
>)
    requires
        plan_accepts(plan@, values.deep_view()),
    ensures
        pairs.deep_view() == produced_pairs(plan@, values.deep_view()),
{
    let ghost given = values.deep_view();
    let ghost required = plan@.required;
    let ghost optional = plan@.optional;
    let mut query_params: Vec<(String, String)> = Vec::new();
    let mut i: usize = 0;
    while i < plan.required.len()
        invariant
            i <= plan.required.len(),
            given == values.deep_view(),
            required == plan@.required,
            plan_accepts(plan@, given),
            query_params.deep_view() == required.take(i as int).map_values(
                |policy: FieldPolicyView| pair_of(policy, given),
            ),
        decreases plan.required.len() - i,
    {
        let policy = &plan.required[i];
        proof {
            required.lemma_map_take_succ(
                |policy: FieldPolicyView| pair_of(policy, given),
                i as int,
            );
        }
        let value: &String = values[policy.index].as_ref().unwrap();
        query_params.push((policy.output_key.clone(), value.clone()));
        i += 1;
    }
    let mut k: usize = 0;
    while k < plan.optional.len()
        invariant
            k <= plan.optional.len(),
            given == values.deep_view(),
            optional == plan@.optional,
            plan_accepts(plan@, given),
            query_params.deep_view() == required_pairs(plan@, given) + optional.take(
                k as int,
            ).filter(|policy: FieldPolicyView| is_present(policy, given)).map_values(
                |policy: FieldPolicyView| pair_of(policy, given),
            ),
        decreases plan.optional.len() - k,
    {
        let policy = &plan.optional[k];
        let ghost before = query_params.deep_view();
        proof {
            assert(optional[k as int] == policy@);
            assert(optional.take(k + 1) =~= optional.take(k as int).push(policy@));
            optional.take(k as int).lemma_filter_push(
                policy@,
                |policy: FieldPolicyView| is_present(policy, given),
            );
        }
        if let Some(val) = &values[policy.index] {
            query_params.push((policy.output_key.clone(), val.clone()));
            assert(query_params.deep_view() =~= before.push(pair_of(policy@, given)));
        }
        k += 1;
    }
    query_params
}

/// One instance of a derived record: the plan of its type and the text of
/// its field values, which fit the plan.
#[derive(Debug)]
pub struct Record {
    plan: QueryPlan,
    values: Vec<Option<String>>,
}

impl Record {
    #[verifier::type_invariant]
    spec fn fits(self) -> bool {
        plan_accepts(self.plan@, self.values.deep_view())
    }

    /// The plan of the instance.
    pub closed spec fn plan(self) -> QueryPlanView {
        self.plan@
    }

    /// The field values of the instance, in declaration order.
    pub closed spec fn values(self) -> Seq<Option<Seq<char>>> {
        self.values.deep_view()
    }

    /// Binds field values to a plan. There is an instance exactly when the
    /// values fit the plan.
    pub fn new(plan: QueryPlan, values: Vec<Option<String>>) -> (record: Option<Record>)
        ensures
            record is Some <==> plan_accepts(plan@, values.deep_view()),
            record matches Some(found) ==> found.plan() == plan@ && found.values()
                == values.deep_view(),
    {
        if plan_fits(&plan, &values) {
            Some(Record { plan, values })
        } else {
            None
        }
    }
}

impl ToQueryParams for Record {
    /// The pairs of the mandatory fields in declaration order, then those of
    /// the optional fields whose value is present, in declaration order.
    fn to_query_params(&self) -> (pairs: Vec<(String, String)>)
        ensures
            pairs.deep_view() == produced_pairs(self.plan(), self.values()),
    {
        proof {
            use_type_invariant(self);
        }
        produce_pairs(&self.plan, &self.values)
    }
}

} // verus!
