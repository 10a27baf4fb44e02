//! Folding per-element outcomes into the two reports: the global counts
//! and the per-floor breakdown.  Every aggregate is a sum over the
//! outcome sequence, which is why the reports do not depend on the order
//! in which the elements were evaluated (see [`crate::laws`]).

use vstd::prelude::*;
use crate::model::{
    AnalysisResult, ElementData, ElementOutcome, FloorEntry, RequiredSchema, SpecOutcome,
};
use crate::sums::{
    lemma_sum_by_bound, lemma_sum_by_ge_elem, lemma_sum_by_pos_exists, lemma_sum_by_push,
    lemma_sum_by_take_le, lemma_sum_by_take_step, lemma_sum_by_update, sum_by,
};
use crate::validate::{
    lemma_missing_le_totals, schema_param_total, spec_outcome, validate_element,
};

verus! {

/// Contribution of one outcome to the valid-element count.
pub open spec fn valid_fn() -> spec_fn(SpecOutcome) -> nat {
    |o: SpecOutcome| if o.is_valid {
        1nat
    } else {
        0nat
    }
}

/// Contribution of one outcome to the invalid-element count.
pub open spec fn invalid_fn() -> spec_fn(SpecOutcome) -> nat {
    |o: SpecOutcome| if o.is_valid {
        0nat
    } else {
        1nat
    }
}

/// Contribution of one outcome to the element count.
pub open spec fn one_fn() -> spec_fn(SpecOutcome) -> nat {
    |o: SpecOutcome| 1nat
}

/// Contribution of one outcome to the missing-group count.
pub open spec fn mp_fn() -> spec_fn(SpecOutcome) -> nat {
    |o: SpecOutcome| o.missing_psets
}

/// Contribution of one outcome to the missing-parameter count.
pub open spec fn mm_fn() -> spec_fn(SpecOutcome) -> nat {
    |o: SpecOutcome| o.missing_params
}

/// Contribution of one outcome to one floor's valid (or invalid) count.
pub open spec fn floor_fn(f: Seq<char>, want_valid: bool) -> spec_fn(SpecOutcome) -> nat {
    |o: SpecOutcome| if o.floor == f && o.is_valid == want_valid {
        1nat
    } else {
        0nat
    }
}

/// Size of one row of the per-floor breakdown.
pub open spec fn entry_total_fn() -> spec_fn(FloorEntry) -> nat {
    |e: FloorEntry| (e.valid + e.invalid) as nat
}

/// The mathematical shadow of one outcome.
pub open spec fn view_fn() -> spec_fn(ElementOutcome) -> SpecOutcome {
    |o: ElementOutcome| o@
}

/// The mathematical shadows of a sequence of outcomes.
pub open spec fn outcome_views(s: Seq<ElementOutcome>) -> Seq<SpecOutcome> {
    s.map_values(view_fn())
}

/// The outcome of one element identifier, as a function.
pub open spec fn outcome_fn(schema: RequiredSchema, data: ElementData) -> spec_fn(String) -> SpecOutcome {
    |e: String| spec_outcome(schema, data, e@)
}

/// The outcomes of a whole element list, in list order.
pub open spec fn outcome_seq(
    elements: Seq<String>,
    schema: RequiredSchema,
    data: ElementData,
) -> Seq<SpecOutcome> {
    elements.map_values(outcome_fn(schema, data))
}

/// Number of valid outcomes.
pub open spec fn agg_valid(outs: Seq<SpecOutcome>) -> nat {
    sum_by(outs, valid_fn())
}

/// Number of invalid outcomes.
pub open spec fn agg_invalid(outs: Seq<SpecOutcome>) -> nat {
    sum_by(outs, invalid_fn())
}

/// Cumulative missing-group count: occurrences, not elements.
pub open spec fn agg_missing_psets(outs: Seq<SpecOutcome>) -> nat {
    sum_by(outs, mp_fn())
}

/// Cumulative missing-parameter count: occurrences, not elements.
pub open spec fn agg_missing_params(outs: Seq<SpecOutcome>) -> nat {
    sum_by(outs, mm_fn())
}

/// How many outcomes of the given floor are valid (`want_valid`) or
/// invalid (`!want_valid`).
pub open spec fn floor_tally(outs: Seq<SpecOutcome>, f: Seq<char>, want_valid: bool) -> nat {
    sum_by(outs, floor_fn(f, want_valid))
}

/// Whether some outcome is grouped under the given floor.
pub open spec fn floor_observed(outs: Seq<SpecOutcome>, f: Seq<char>) -> bool {
    exists|i: int| 0 <= i < outs.len() && outs[i].floor == f
}

/// Whether the breakdown has a row for the given floor.
pub open spec fn has_floor_entry(es: Seq<FloorEntry>, f: Seq<char>) -> bool {
    exists|k: int| 0 <= k < es.len() && es[k].name@ == f
}

/// Total number of elements accounted for by the breakdown.
pub open spec fn entries_total(es: Seq<FloorEntry>) -> nat {
    sum_by(es, entry_total_fn())
}

/// No two rows of the breakdown name the same floor.
pub open spec fn distinct_floor_names(es: Seq<FloorEntry>) -> bool {
    forall|k: int, l: int| 0 <= k < l < es.len() ==> es[k].name@ != es[l].name@
}

/// What the reports say of a sequence of outcomes: exact global counts,
/// and one row per observed floor with that floor's exact counts.
pub open spec fn result_matches(r: AnalysisResult, outs: Seq<SpecOutcome>) -> bool {
    &&& r.total_elements as nat == outs.len()
    &&& r.valid_elements as nat == agg_valid(outs)
    &&& r.missing_psets as nat == agg_missing_psets(outs)
    &&& r.missing_params as nat == agg_missing_params(outs)
    &&& distinct_floor_names(r.floors@)
    &&& forall|k: int|
        0 <= k < r.floors@.len() ==> (#[trigger] r.floors@[k]).valid as nat == floor_tally(
            outs,
            r.floors@[k].name@,
            true,
        ) && r.floors@[k].invalid as nat == floor_tally(outs, r.floors@[k].name@, false)
    &&& forall|f: Seq<char>|
        #![trigger has_floor_entry(r.floors@, f)]
        #![trigger floor_observed(outs, f)]
        has_floor_entry(r.floors@, f) <==> floor_observed(outs, f)
    &&& entries_total(r.floors@) == outs.len()
}

/// Row of the breakdown that names the given floor, if one exists.
fn find_floor_entry(floors: &Vec<FloorEntry>, name: &String) -> (r: Option<usize>)
    ensures
        match r {
            Some(k) => k < floors@.len() && floors@[k as int].name@ == name@,
            None => !has_floor_entry(floors@, name@),
        },
{
    let n: usize = floors.len();
    let mut i: usize = 0;
    while i < n
        invariant
            i <= n,
            n == floors@.len(),
            forall|l: int| 0 <= l < i as int ==> floors@[l].name@ != name@,
        decreases n - i,
    {
        if floors[i].name == *name {
            return Some(i);
        }
        i = i + 1;
    }
    None
}

/// Fold a sequence of per-element outcomes into the reports.  The fold
/// is exact: each aggregate field equals the corresponding sum over the
/// outcomes, and the breakdown has one row per observed floor.
pub fn aggregate_outcomes(outcomes: &Vec<ElementOutcome>) -> (r: AnalysisResult)
    requires
        agg_missing_psets(outcome_views(outcomes@)) <= usize::MAX,
        agg_missing_params(outcome_views(outcomes@)) <= usize::MAX,
    ensures
        result_matches(r, outcome_views(outcomes@)),
{
    let ghost outs = outcome_views(outcomes@);
    let n: usize = outcomes.len();
    let mut valid_acc: usize = 0;
    let mut mp_acc: usize = 0;
    let mut mm_acc: usize = 0;
    let mut floors: Vec<FloorEntry> = Vec::new();
    let mut i: usize = 0;
    proof {
        assert(outs.take(0) =~= Seq::<SpecOutcome>::empty());
    }
    while i < n
        invariant
            i <= n,
            n == outcomes@.len(),
            outs == outcome_views(outcomes@),
            agg_missing_psets(outs) <= usize::MAX,
            agg_missing_params(outs) <= usize::MAX,
            valid_acc as nat == agg_valid(outs.take(i as int)),
            valid_acc <= i,
            mp_acc as nat == agg_missing_psets(outs.take(i as int)),
            mm_acc as nat == agg_missing_params(outs.take(i as int)),
            entries_total(floors@) == i as nat,
            distinct_floor_names(floors@),
            forall|k: int|
                0 <= k < floors@.len() ==> (#[trigger] floors@[k]).valid as nat == floor_tally(
                    outs.take(i as int),
                    floors@[k].name@,
                    true,
                ) && floors@[k].invalid as nat == floor_tally(
                    outs.take(i as int),
                    floors@[k].name@,
                    false,
                ),
            forall|k: int|
                0 <= k < floors@.len() ==> (#[trigger] floors@[k]).valid + floors@[k].invalid
                    >= 1,
            forall|f: Seq<char>|
                #![trigger has_floor_entry(floors@, f)]
                !has_floor_entry(floors@, f) ==> floor_tally(outs.take(i as int), f, true) == 0
                    && floor_tally(outs.take(i as int), f, false) == 0,
        decreases n - i,
    {
        let o = &outcomes[i];
        let ghost so = outs[i as int];
        proof {
            assert(so == view_fn()(outcomes@[i as int]));
            assert(so == outcomes@[i as int]@);
            lemma_sum_by_take_step(outs, valid_fn(), i as int);
            lemma_sum_by_take_step(outs, mp_fn(), i as int);
            lemma_sum_by_take_step(outs, mm_fn(), i as int);
            lemma_sum_by_take_le(outs, mp_fn(), i as int + 1);
            lemma_sum_by_take_le(outs, mm_fn(), i as int + 1);
        }
        if o.is_valid {
            valid_acc = valid_acc + 1;
        }
        mp_acc = mp_acc + o.missing_psets;
        mm_acc = mm_acc + o.missing_params;
        match find_floor_entry(&floors, &o.floor) {
            Some(k) => {
                proof {
                    lemma_sum_by_ge_elem(floors@, entry_total_fn(), k as int);
                    assert(entry_total_fn()(floors@[k as int]) == (floors@[k as int].valid
                        + floors@[k as int].invalid) as nat);
                }
                let ghost old_floors = floors@;
                let e = &floors[k];
                let new_e = FloorEntry {
                    name: e.name.clone(),
                    valid: if o.is_valid {
                        e.valid + 1
                    } else {
                        e.valid
                    },
                    invalid: if o.is_valid {
                        e.invalid
                    } else {
                        e.invalid + 1
                    },
                };
                floors[k] = new_e;
                proof {
                    assert(floors@ == old_floors.update(k as int, new_e));
                    assert(new_e.name@ == so.floor);
                    lemma_sum_by_update(old_floors, entry_total_fn(), k as int, new_e);
                    assert(entry_total_fn()(new_e) == entry_total_fn()(old_floors[k as int]) + 1);
                    assert forall|l: int| 0 <= l < floors@.len() implies (#[trigger] floors@[l]).valid
                        as nat == floor_tally(outs.take(i as int + 1), floors@[l].name@, true)
                        && floors@[l].invalid as nat == floor_tally(
                        outs.take(i as int + 1),
                        floors@[l].name@,
                        false,
                    ) by {
                        let fname = floors@[l].name@;
                        lemma_sum_by_take_step(outs, floor_fn(fname, true), i as int);
                        lemma_sum_by_take_step(outs, floor_fn(fname, false), i as int);
                        if l == k {
                            assert(floor_fn(fname, true)(so) == if so.is_valid {
                                1nat
                            } else {
                                0nat
                            });
                            assert(floor_fn(fname, false)(so) == if so.is_valid {
                                0nat
                            } else {
                                1nat
                            });
                        } else {
                            assert(floors@[l] == old_floors[l]);
                            assert(fname != so.floor);
                            assert(floor_fn(fname, true)(so) == 0nat);
                            assert(floor_fn(fname, false)(so) == 0nat);
                        }
                    };
                    assert forall|f: Seq<char>| !has_floor_entry(floors@, f) implies floor_tally(
                        outs.take(i as int + 1),
                        f,
                        true,
                    ) == 0 && floor_tally(outs.take(i as int + 1), f, false) == 0 by {
                        assert(forall|l: int|
                            0 <= l < old_floors.len() ==> (#[trigger] old_floors[l]).name@
                                == floors@[l].name@);
                        assert(!has_floor_entry(old_floors, f));
                        assert(floors@[k as int].name@ == so.floor);
                        assert(f != so.floor);
                        lemma_sum_by_take_step(outs, floor_fn(f, true), i as int);
                        lemma_sum_by_take_step(outs, floor_fn(f, false), i as int);
                        assert(floor_fn(f, true)(so) == 0nat);
                        assert(floor_fn(f, false)(so) == 0nat);
                    };
                }
            },
            None => {
                let new_e = FloorEntry {
                    name: o.floor.clone(),
                    valid: if o.is_valid {
                        1
                    } else {
                        0
                    },
                    invalid: if o.is_valid {
                        0
                    } else {
                        1
                    },
                };
                let ghost old_floors = floors@;
                floors.push(new_e);
                proof {
                    assert(floors@ == old_floors.push(new_e));
                    assert(new_e.name@ == so.floor);
                    lemma_sum_by_push(old_floors, entry_total_fn(), new_e);
                    assert(entry_total_fn()(new_e) == 1nat);
                    assert(!has_floor_entry(old_floors, so.floor));
                    assert forall|l: int| 0 <= l < floors@.len() implies (#[trigger] floors@[l]).valid
                        as nat == floor_tally(outs.take(i as int + 1), floors@[l].name@, true)
                        && floors@[l].invalid as nat == floor_tally(
                        outs.take(i as int + 1),
                        floors@[l].name@,
                        false,
                    ) by {
                        let fname = floors@[l].name@;
                        lemma_sum_by_take_step(outs, floor_fn(fname, true), i as int);
                        lemma_sum_by_take_step(outs, floor_fn(fname, false), i as int);
                        if l == old_floors.len() {
                            assert(floors@[l] == new_e);
                            assert(floor_tally(outs.take(i as int), fname, true) == 0);
                            assert(floor_tally(outs.take(i as int), fname, false) == 0);
                            assert(floor_fn(fname, true)(so) == if so.is_valid {
                                1nat
                            } else {
                                0nat
                            });
                            assert(floor_fn(fname, false)(so) == if so.is_valid {
                                0nat
                            } else {
                                1nat
                            });
                        } else {
                            assert(floors@[l] == old_floors[l]);
                            assert(fname != so.floor);
                            assert(floor_fn(fname, true)(so) == 0nat);
                            assert(floor_fn(fname, false)(so) == 0nat);
                        }
                    };
                    assert forall|f: Seq<char>| !has_floor_entry(floors@, f) implies floor_tally(
                        outs.take(i as int + 1),
                        f,
                        true,
                    ) == 0 && floor_tally(outs.take(i as int + 1), f, false) == 0 by {
                        assert(floors@[old_floors.len() as int] == new_e);
                        assert(f != so.floor);
                        assert forall|l: int| 0 <= l < old_floors.len() implies (
                        #[trigger] old_floors[l]).name@ != f by {
                            assert(old_floors[l] == floors@[l]);
                            assert(floors@[l].name@ != f);
                        };
                        assert(!has_floor_entry(old_floors, f));
                        lemma_sum_by_take_step(outs, floor_fn(f, true), i as int);
                        lemma_sum_by_take_step(outs, floor_fn(f, false), i as int);
                        assert(floor_fn(f, true)(so) == 0nat);
                        assert(floor_fn(f, false)(so) == 0nat);
                    };
                }
            },
        }
        i = i + 1;
    }
    proof {
        assert(outs.take(n as int) =~= outs);
    }
    let r = AnalysisResult {
        total_elements: n,
        valid_elements: valid_acc,
        missing_psets: mp_acc,
        missing_params: mm_acc,
        floors,
    };
    proof {
        assert forall|f: Seq<char>| has_floor_entry(r.floors@, f) <==> floor_observed(
            outs,
            f,
        ) by {
            if has_floor_entry(r.floors@, f) {
                let k = choose|k: int| 0 <= k < r.floors@.len() && r.floors@[k].name@ == f;
                assert(r.floors@[k].valid + r.floors@[k].invalid >= 1);
                if r.floors@[k].valid as nat >= 1 {
                    lemma_sum_by_pos_exists(outs, floor_fn(f, true));
                    let w = choose|w: int| 0 <= w < outs.len() && floor_fn(f, true)(outs[w]) > 0;
                    assert(outs[w].floor == f);
                } else {
                    lemma_sum_by_pos_exists(outs, floor_fn(f, false));
                    let w = choose|w: int| 0 <= w < outs.len() && floor_fn(f, false)(outs[w]) > 0;
                    assert(outs[w].floor == f);
                }
            }
            if floor_observed(outs, f) {
                let w = choose|w: int| 0 <= w < outs.len() && outs[w].floor == f;
                let want = outs[w].is_valid;
                assert(floor_fn(f, want)(outs[w]) == 1nat);
                lemma_sum_by_ge_elem(outs, floor_fn(f, want), w);
                assert(floor_tally(outs, f, want) >= 1);
                if !has_floor_entry(r.floors@, f) {
                    assert(floor_tally(outs, f, true) == 0 && floor_tally(outs, f, false) == 0);
                }
            }
        };
    }
    r
}

/// The single entry point of the engine: validate every element of the
/// list — duplicates are processed and counted independently — and fold
/// the outcomes into the reports.  A pure, total function of its three
/// inputs; the bounds in `requires` only keep the occurrence counts
/// within the machine word.
pub fn analyze_elements(
    elements: &Vec<String>,
    schema: &RequiredSchema,
    data: &ElementData,
) -> (r: AnalysisResult)
    requires
        elements@.len() * schema.psets@.len() <= usize::MAX,
        elements@.len() * schema_param_total(*schema) <= usize::MAX,
        schema_param_total(*schema) <= usize::MAX,
    ensures
        r.total_elements as nat == elements@.len(),
        result_matches(r, outcome_seq(elements@, *schema, *data)),
{
    let ghost outs = outcome_seq(elements@, *schema, *data);
    let n: usize = elements.len();
    let mut outcomes: Vec<ElementOutcome> = Vec::new();
    let mut i: usize = 0;
    while i < n
        invariant
            i <= n,
            n == elements@.len(),
            schema_param_total(*schema) <= usize::MAX,
            outs == outcome_seq(elements@, *schema, *data),
            outcomes@.len() == i as nat,
            forall|k: int| 0 <= k < i as int ==> (#[trigger] outcomes@[k])@ == outs[k],
        decreases n - i,
    {
        let o = validate_element(schema, data, &elements[i]);
        outcomes.push(o);
        proof {
            assert(outs[i as int] == outcome_fn(*schema, *data)(elements@[i as int]));
            assert(outcome_fn(*schema, *data)(elements@[i as int]) == spec_outcome(
                *schema,
                *data,
                elements@[i as int]@,
            ));
        }
        i = i + 1;
    }
    proof {
        assert forall|k: int| 0 <= k < outs.len() implies #[trigger] outcome_views(outcomes@)[k]
            == outs[k] by {
            assert(outcome_views(outcomes@)[k] == view_fn()(outcomes@[k]));
            assert(view_fn()(outcomes@[k]) == outcomes@[k]@);
        };
        assert(outcome_views(outcomes@) =~= outs);
        assert forall|k: int| 0 <= k < outs.len() implies #[trigger] mp_fn()(outs[k])
            <= schema.psets@.len() && mm_fn()(outs[k]) <= schema_param_total(*schema) by {
            assert(outs[k] == outcome_fn(*schema, *data)(elements@[k]));
            assert(outs[k] == spec_outcome(*schema, *data, elements@[k]@));
            lemma_missing_le_totals(crate::model::record_groups(*data, elements@[k]@), schema.psets@);
        };
        lemma_sum_by_bound(outs, mp_fn(), schema.psets@.len());
        lemma_sum_by_bound(outs, mm_fn(), schema_param_total(*schema));
    }
    aggregate_outcomes(&outcomes)
}

} // verus!
