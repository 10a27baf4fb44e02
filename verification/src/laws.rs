//! The global guarantees of the engine, each proved once and for all:
//! the validity partition, the vacuous-schema case, independence from
//! element order, what one missing group costs, the unknown-floor
//! fallback, and the independence of duplicated parameter requirements.

use vstd::prelude::*;
use crate::aggregate::{
    agg_invalid, agg_missing_params, agg_missing_psets, agg_valid, floor_fn, floor_observed,
    floor_tally, invalid_fn, mm_fn, mp_fn, one_fn, outcome_fn, outcome_seq, valid_fn,
};
use crate::model::{
    ElementData, PropertyGroup, PsetRequirement, RequiredSchema, SpecOutcome, find_entry,
    find_group, group_has_param, unknown_floor,
};
use crate::sums::{
    compose_nat, lemma_sum_by_constant, lemma_sum_by_ge_elem, lemma_sum_by_map,
    lemma_sum_by_permutation, lemma_sum_by_pointwise_add, lemma_sum_by_pos_exists,
    lemma_sum_by_remove,
};
use crate::validate::{
    missing_in_params, missing_params_in, missing_psets_in, param_missing_fn, pset_missing_fn,
    pset_params_fn, spec_outcome,
};

verus! {

/// Every element is exactly one of valid and invalid, so the two counts
/// partition the total.  (Its per-floor form — the `valid + invalid`
/// sums of the floor rows adding up to the total — is the
/// `entries_total` clause of `result_matches`.)
pub proof fn lemma_validity_partition(outs: Seq<SpecOutcome>)
    ensures
        agg_valid(outs) + agg_invalid(outs) == outs.len(),
{
    assert(forall|i: int|
        0 <= i < outs.len() ==> #[trigger] one_fn()(outs[i]) == valid_fn()(outs[i]) + invalid_fn()(
            outs[i],
        ));
    lemma_sum_by_pointwise_add(outs, valid_fn(), invalid_fn(), one_fn());
    lemma_sum_by_constant(outs, one_fn(), 1);
    assert(outs.len() * 1 == outs.len()) by (nonlinear_arith);
}

/// An empty schema requires nothing: every element is valid and no
/// occurrence of anything is missing.
pub proof fn lemma_vacuous_schema(elements: Seq<String>, schema: RequiredSchema, data: ElementData)
    requires
        schema.psets@.len() == 0,
    ensures
        agg_valid(outcome_seq(elements, schema, data)) == elements.len(),
        agg_missing_psets(outcome_seq(elements, schema, data)) == 0,
        agg_missing_params(outcome_seq(elements, schema, data)) == 0,
{
    let outs = outcome_seq(elements, schema, data);
    assert forall|i: int| 0 <= i < outs.len() implies #[trigger] valid_fn()(outs[i]) == 1 && mp_fn()(
        outs[i],
    ) == 0 && mm_fn()(outs[i]) == 0 by {
        assert(outs[i] == outcome_fn(schema, data)(elements[i]));
        assert(outs[i] == spec_outcome(schema, data, elements[i]@));
    };
    lemma_sum_by_constant(outs, valid_fn(), 1);
    assert(outs.len() * 1 == outs.len()) by (nonlinear_arith);
    lemma_sum_by_constant(outs, mp_fn(), 0);
    assert(outs.len() * 0 == 0) by (nonlinear_arith);
    lemma_sum_by_constant(outs, mm_fn(), 0);
}

/// A floor is observed exactly when its two tallies are not both zero.
pub proof fn lemma_observed_iff_tally(outs: Seq<SpecOutcome>, f: Seq<char>)
    ensures
        floor_observed(outs, f) <==> floor_tally(outs, f, true) + floor_tally(outs, f, false)
            > 0,
{
    if floor_observed(outs, f) {
        let w = choose|w: int| 0 <= w < outs.len() && outs[w].floor == f;
        let want = outs[w].is_valid;
        assert(floor_fn(f, want)(outs[w]) == 1nat);
        lemma_sum_by_ge_elem(outs, floor_fn(f, want), w);
    }
    if floor_tally(outs, f, true) > 0 {
        lemma_sum_by_pos_exists(outs, floor_fn(f, true));
        let w = choose|w: int| 0 <= w < outs.len() && floor_fn(f, true)(outs[w]) > 0;
        assert(outs[w].floor == f);
    } else if floor_tally(outs, f, false) > 0 {
        lemma_sum_by_pos_exists(outs, floor_fn(f, false));
        let w = choose|w: int| 0 <= w < outs.len() && floor_fn(f, false)(outs[w]) > 0;
        assert(outs[w].floor == f);
    }
}

/// Permuting the element list changes no aggregate: the element lists
/// only matter through their multiset.  Every global count, every
/// floor's two tallies, and the set of observed floors agree.
pub proof fn lemma_order_independence(
    e1: Seq<String>,
    e2: Seq<String>,
    schema: RequiredSchema,
    data: ElementData,
)
    requires
        e1.to_multiset() == e2.to_multiset(),
    ensures
        e1.len() == e2.len(),
        agg_valid(outcome_seq(e1, schema, data)) == agg_valid(outcome_seq(e2, schema, data)),
        agg_missing_psets(outcome_seq(e1, schema, data)) == agg_missing_psets(
            outcome_seq(e2, schema, data),
        ),
        agg_missing_params(outcome_seq(e1, schema, data)) == agg_missing_params(
            outcome_seq(e2, schema, data),
        ),
        forall|f: Seq<char>, w: bool|
            floor_tally(outcome_seq(e1, schema, data), f, w) == floor_tally(
                outcome_seq(e2, schema, data),
                f,
                w,
            ),
        forall|f: Seq<char>|
            floor_observed(outcome_seq(e1, schema, data), f) <==> floor_observed(
                outcome_seq(e2, schema, data),
                f,
            ),
{
    let o1 = outcome_seq(e1, schema, data);
    let o2 = outcome_seq(e2, schema, data);
    let m = outcome_fn(schema, data);
    e1.to_multiset_ensures();
    e2.to_multiset_ensures();
    lemma_sum_by_map(e1, m, valid_fn());
    lemma_sum_by_map(e2, m, valid_fn());
    lemma_sum_by_permutation(e1, e2, compose_nat(valid_fn(), m));
    lemma_sum_by_map(e1, m, mp_fn());
    lemma_sum_by_map(e2, m, mp_fn());
    lemma_sum_by_permutation(e1, e2, compose_nat(mp_fn(), m));
    lemma_sum_by_map(e1, m, mm_fn());
    lemma_sum_by_map(e2, m, mm_fn());
    lemma_sum_by_permutation(e1, e2, compose_nat(mm_fn(), m));
    assert forall|f: Seq<char>, w: bool| floor_tally(o1, f, w) == floor_tally(o2, f, w) by {
        lemma_sum_by_map(e1, m, floor_fn(f, w));
        lemma_sum_by_map(e2, m, floor_fn(f, w));
        lemma_sum_by_permutation(e1, e2, compose_nat(floor_fn(f, w), m));
    };
    assert forall|f: Seq<char>| floor_observed(o1, f) <==> floor_observed(o2, f) by {
        lemma_observed_iff_tally(o1, f);
        lemma_observed_iff_tally(o2, f);
        assert(floor_tally(o1, f, true) == floor_tally(o2, f, true));
        assert(floor_tally(o1, f, false) == floor_tally(o2, f, false));
    };
}

/// A required group that the element lacks entirely costs exactly one
/// missing-group occurrence and no missing-parameter occurrence: taking
/// that requirement out of the schema lowers the group count by one and
/// leaves the parameter count unchanged.
pub proof fn lemma_missing_group_counted_once(
    groups: Seq<PropertyGroup>,
    psets: Seq<PsetRequirement>,
    j: int,
)
    requires
        0 <= j < psets.len(),
        find_group(groups, psets[j].name@) is None,
    ensures
        missing_psets_in(groups, psets) == missing_psets_in(groups, psets.remove(j)) + 1,
        missing_params_in(groups, psets) == missing_params_in(groups, psets.remove(j)),
{
    lemma_sum_by_remove(psets, pset_missing_fn(groups), j);
    lemma_sum_by_remove(psets, pset_params_fn(groups), j);
    assert(pset_missing_fn(groups)(psets[j]) == 1nat);
    assert(pset_params_fn(groups)(psets[j]) == 0nat);
}

/// An element with no floor label of its own — or no record at all — is
/// grouped under the `"unknown"` floor.
pub proof fn lemma_unknown_floor_fallback(
    schema: RequiredSchema,
    data: ElementData,
    id: Seq<char>,
)
    requires
        match find_entry(data.entries@, id) {
            Some(r) => r.floor is None,
            None => true,
        },
    ensures
        spec_outcome(schema, data, id).floor == unknown_floor(),
{
}

/// A parameter name required twice is checked twice: when the element
/// lacks it, the two occurrences together cost two missing-parameter
/// occurrences, not one.
pub proof fn lemma_duplicate_param_requirement(
    g: PropertyGroup,
    req: Seq<String>,
    i: int,
    j: int,
)
    requires
        0 <= i < j < req.len(),
        req[i]@ == req[j]@,
        !group_has_param(g, req[i]@),
    ensures
        missing_in_params(g, req) == missing_in_params(g, req.remove(j).remove(i)) + 2,
{
    lemma_sum_by_remove(req, param_missing_fn(g), j);
    assert(param_missing_fn(g)(req[j]) == 1nat);
    assert(req.remove(j)[i] == req[i]);
    lemma_sum_by_remove(req.remove(j), param_missing_fn(g), i);
    assert(param_missing_fn(g)(req.remove(j)[i]) == 1nat);
}

} // verus!
