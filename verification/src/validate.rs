//! The per-element validation rule: how many required property groups an
//! element lacks, how many required parameters it lacks inside the groups
//! it does have, and whether it is valid (both counts zero).

use vstd::prelude::*;
use crate::model::{
    ElementData, ElementOutcome, ElementRecord, ParamList, PropertyGroup, PsetRequirement,
    RequiredSchema, SpecOutcome, find_entry, find_group, group_has_param, record_groups,
    spec_floor,
};
use crate::sums::{
    lemma_sum_by_bound, lemma_sum_by_ge_elem, lemma_sum_by_pointwise_le, lemma_sum_by_take_le,
    lemma_sum_by_take_step, sum_by,
};

verus! {

/// Contribution of one required parameter name: 1 when the group lacks
/// it, 0 when it carries it.
pub open spec fn param_missing_fn(g: PropertyGroup) -> spec_fn(String) -> nat {
    |p: String| if group_has_param(g, p@) {
        0nat
    } else {
        1nat
    }
}

/// Number of required names of `req` that `g` lacks; a name that occurs
/// several times is counted once per occurrence.
pub open spec fn missing_in_params(g: PropertyGroup, req: Seq<String>) -> nat {
    sum_by(req, param_missing_fn(g))
}

/// Contribution of one required list of a schema group.
pub open spec fn list_missing_fn(g: PropertyGroup) -> spec_fn(ParamList) -> nat {
    |l: ParamList| missing_in_params(g, l.params@)
}

/// Missing parameters of `g` over all required lists of its schema entry.
pub open spec fn missing_in_lists(g: PropertyGroup, lists: Seq<ParamList>) -> nat {
    sum_by(lists, list_missing_fn(g))
}

/// Length of one required list.
pub open spec fn list_len_fn() -> spec_fn(ParamList) -> nat {
    |l: ParamList| l.params@.len()
}

/// Total number of required parameter names across the given lists.
pub open spec fn lists_param_total(lists: Seq<ParamList>) -> nat {
    sum_by(lists, list_len_fn())
}

/// Total number of required parameter names of one schema group.
pub open spec fn pset_total_fn() -> spec_fn(PsetRequirement) -> nat {
    |p: PsetRequirement| lists_param_total(p.lists@)
}

/// Total number of required parameter names in the whole schema.
pub open spec fn schema_param_total(schema: RequiredSchema) -> nat {
    sum_by(schema.psets@, pset_total_fn())
}

/// Contribution of one schema group to the missing-group count: 1 when
/// the element lacks the group entirely.
pub open spec fn pset_missing_fn(groups: Seq<PropertyGroup>) -> spec_fn(PsetRequirement) -> nat {
    |p: PsetRequirement| if find_group(groups, p.name@) is None {
        1nat
    } else {
        0nat
    }
}

/// Contribution of one schema group to the missing-parameter count:
/// parameters are only checked when the group is present.
pub open spec fn pset_params_fn(groups: Seq<PropertyGroup>) -> spec_fn(PsetRequirement) -> nat {
    |p: PsetRequirement| match find_group(groups, p.name@) {
        Some(g) => missing_in_lists(g, p.lists@),
        None => 0nat,
    }
}

/// How many required groups the element lacks entirely.
pub open spec fn missing_psets_in(groups: Seq<PropertyGroup>, psets: Seq<PsetRequirement>) -> nat {
    sum_by(psets, pset_missing_fn(groups))
}

/// How many required parameters the element lacks, over the groups it
/// does have.
pub open spec fn missing_params_in(groups: Seq<PropertyGroup>, psets: Seq<PsetRequirement>) -> nat {
    sum_by(psets, pset_params_fn(groups))
}

/// The outcome of validating one element: valid exactly when nothing
/// required is missing, grouped under its floor.
pub open spec fn spec_outcome(schema: RequiredSchema, data: ElementData, id: Seq<char>) -> SpecOutcome {
    let groups = record_groups(data, id);
    let mp = missing_psets_in(groups, schema.psets@);
    let mm = missing_params_in(groups, schema.psets@);
    SpecOutcome {
        is_valid: mp == 0 && mm == 0,
        floor: spec_floor(data, id),
        missing_psets: mp,
        missing_params: mm,
    }
}

/// The missing counts are bounded by the size of the schema: at most one
/// missing group per required group, at most one missing parameter per
/// required parameter name.
pub proof fn lemma_missing_le_totals(groups: Seq<PropertyGroup>, psets: Seq<PsetRequirement>)
    ensures
        missing_psets_in(groups, psets) <= psets.len(),
        missing_params_in(groups, psets) <= sum_by(psets, pset_total_fn()),
{
    assert(forall|i: int|
        0 <= i < psets.len() ==> #[trigger] pset_missing_fn(groups)(psets[i]) <= 1);
    lemma_sum_by_bound(psets, pset_missing_fn(groups), 1);
    assert(psets.len() * 1 == psets.len()) by (nonlinear_arith);
    assert forall|i: int| 0 <= i < psets.len() implies #[trigger] pset_params_fn(groups)(psets[i])
        <= pset_total_fn()(psets[i]) by {
        let p = psets[i];
        match find_group(groups, p.name@) {
            Some(g) => {
                lemma_missing_in_lists_le_total(g, p.lists@);
            },
            None => {},
        }
    };
    lemma_sum_by_pointwise_le(psets, pset_params_fn(groups), pset_total_fn());
}

/// Inside one schema group, the missing-parameter count is bounded by
/// the number of required names.
pub proof fn lemma_missing_in_lists_le_total(g: PropertyGroup, lists: Seq<ParamList>)
    ensures
        missing_in_lists(g, lists) <= lists_param_total(lists),
{
    assert forall|i: int| 0 <= i < lists.len() implies #[trigger] list_missing_fn(g)(lists[i])
        <= list_len_fn()(lists[i]) by {
        let l = lists[i];
        assert(forall|k: int|
            0 <= k < l.params@.len() ==> #[trigger] param_missing_fn(g)(l.params@[k]) <= 1);
        lemma_sum_by_bound(l.params@, param_missing_fn(g), 1);
        assert(l.params@.len() * 1 == l.params@.len()) by (nonlinear_arith);
    };
    lemma_sum_by_pointwise_le(lists, list_missing_fn(g), list_len_fn());
}

/// Record of the given element in the table, if any: the executable
/// counterpart of [`find_entry`].
fn find_record<'a>(data: &'a ElementData, id: &String) -> (r: Option<&'a ElementRecord>)
    ensures
        match r {
            Some(rec) => find_entry(data.entries@, id@) == Some(*rec),
            None => find_entry(data.entries@, id@) is None,
        },
{
    let n: usize = data.entries.len();
    let mut i: usize = 0;
    proof {
        assert(data.entries@.skip(0) =~= data.entries@);
    }
    while i < n
        invariant
            i <= n,
            n == data.entries@.len(),
            find_entry(data.entries@, id@) == find_entry(data.entries@.skip(i as int), id@),
        decreases n - i,
    {
        let e = &data.entries[i];
        proof {
            assert(data.entries@.skip(i as int)[0] == data.entries@[i as int]);
        }
        if e.id == *id {
            return Some(&e.record);
        }
        proof {
            assert(data.entries@.skip(i as int).drop_first() =~= data.entries@.skip(
                i as int + 1,
            ));
        }
        i = i + 1;
    }
    proof {
        assert(data.entries@.skip(n as int) =~= Seq::<crate::model::ElementEntry>::empty());
    }
    None
}

/// First group of the given name, if any: the executable counterpart of
/// [`find_group`].
fn find_group_exec<'a>(groups: &'a Vec<PropertyGroup>, name: &String) -> (r: Option<
    &'a PropertyGroup,
>)
    ensures
        match r {
            Some(g) => find_group(groups@, name@) == Some(*g),
            None => find_group(groups@, name@) is None,
        },
{
    let n: usize = groups.len();
    let mut i: usize = 0;
    proof {
        assert(groups@.skip(0) =~= groups@);
    }
    while i < n
        invariant
            i <= n,
            n == groups@.len(),
            find_group(groups@, name@) == find_group(groups@.skip(i as int), name@),
        decreases n - i,
    {
        let g = &groups[i];
        proof {
            assert(groups@.skip(i as int)[0] == groups@[i as int]);
        }
        if g.name == *name {
            return Some(g);
        }
        proof {
            assert(groups@.skip(i as int).drop_first() =~= groups@.skip(i as int + 1));
        }
        i = i + 1;
    }
    proof {
        assert(groups@.skip(n as int) =~= Seq::<PropertyGroup>::empty());
    }
    None
}

/// Whether the group carries a parameter of the given name.
fn group_contains_param(g: &PropertyGroup, name: &String) -> (r: bool)
    ensures
        r == group_has_param(*g, name@),
{
    let n: usize = g.params.len();
    let mut i: usize = 0;
    while i < n
        invariant
            i <= n,
            n == g.params@.len(),
            forall|k: int| 0 <= k < i as int ==> g.params@[k].name@ != name@,
        decreases n - i,
    {
        if g.params[i].name == *name {
            proof {
                assert(g.params@[i as int].name@ == name@);
            }
            return true;
        }
        i = i + 1;
    }
    false
}

/// How many names of `params` the group lacks, one count per occurrence.
fn missing_params_in_list(g: &PropertyGroup, params: &Vec<String>) -> (r: usize)
    ensures
        r as nat == missing_in_params(*g, params@),
        r <= params@.len(),
{
    let n: usize = params.len();
    let mut r: usize = 0;
    let mut i: usize = 0;
    while i < n
        invariant
            i <= n,
            n == params@.len(),
            r as nat == missing_in_params(*g, params@.take(i as int)),
            r <= i,
        decreases n - i,
    {
        proof {
            lemma_sum_by_take_step(params@, param_missing_fn(*g), i as int);
            assert(param_missing_fn(*g)(params@[i as int]) == if group_has_param(
                *g,
                params@[i as int]@,
            ) {
                0nat
            } else {
                1nat
            });
        }
        if !group_contains_param(g, &params[i]) {
            r = r + 1;
        }
        i = i + 1;
    }
    proof {
        assert(params@.take(n as int) =~= params@);
    }
    r
}

/// Missing parameters of the group over all its required lists.
fn missing_params_in_group(g: &PropertyGroup, lists: &Vec<ParamList>) -> (r: usize)
    requires
        lists_param_total(lists@) <= usize::MAX,
    ensures
        r as nat == missing_in_lists(*g, lists@),
{
    let n: usize = lists.len();
    let mut r: usize = 0;
    let mut l: usize = 0;
    while l < n
        invariant
            l <= n,
            n == lists@.len(),
            lists_param_total(lists@) <= usize::MAX,
            r as nat == missing_in_lists(*g, lists@.take(l as int)),
        decreases n - l,
    {
        proof {
            lemma_sum_by_take_step(lists@, list_missing_fn(*g), l as int);
            assert(list_missing_fn(*g)(lists@[l as int]) == missing_in_params(
                *g,
                lists@[l as int].params@,
            ));
        }
        let d: usize = missing_params_in_list(g, &lists[l].params);
        proof {
            lemma_missing_in_lists_le_total(*g, lists@.take(l as int + 1));
            lemma_sum_by_take_le(lists@, list_len_fn(), l as int + 1);
        }
        r = r + d;
        l = l + 1;
    }
    proof {
        assert(lists@.take(n as int) =~= lists@);
    }
    r
}

/// The floor label of a looked-up record: its own label, or `"unknown"`.
fn floor_label(rec: Option<&ElementRecord>) -> (r: String)
    ensures
        r@ == match rec {
            Some(re) => match re.floor {
                Some(f) => f@,
                None => crate::model::unknown_floor(),
            },
            None => crate::model::unknown_floor(),
        },
{
    match rec {
        Some(re) => match &re.floor {
            Some(f) => f.clone(),
            None => "unknown".to_owned(),
        },
        None => "unknown".to_owned(),
    }
}

/// Validate one element against the schema: how many required groups and
/// required parameters it lacks, whether it is valid (nothing lacking),
/// and the floor it is grouped under.
pub fn validate_element(schema: &RequiredSchema, data: &ElementData, id: &String) -> (r:
    ElementOutcome)
    requires
        schema_param_total(*schema) <= usize::MAX,
    ensures
        r@ == spec_outcome(*schema, *data, id@),
{
    let rec = find_record(data, id);
    let empty_groups: Vec<PropertyGroup> = Vec::new();
    let groups: &Vec<PropertyGroup> = match rec {
        Some(re) => &re.groups,
        None => &empty_groups,
    };
    proof {
        assert(groups@ =~= record_groups(*data, id@));
    }
    let n: usize = schema.psets.len();
    let mut missing_psets: usize = 0;
    let mut missing_params: usize = 0;
    let mut j: usize = 0;
    while j < n
        invariant
            j <= n,
            n == schema.psets@.len(),
            groups@ == record_groups(*data, id@),
            schema_param_total(*schema) <= usize::MAX,
            missing_psets as nat == missing_psets_in(groups@, schema.psets@.take(j as int)),
            missing_psets <= j,
            missing_params as nat == missing_params_in(groups@, schema.psets@.take(j as int)),
        decreases n - j,
    {
        let p = &schema.psets[j];
        proof {
            lemma_sum_by_take_step(schema.psets@, pset_missing_fn(groups@), j as int);
            lemma_sum_by_take_step(schema.psets@, pset_params_fn(groups@), j as int);
        }
        match find_group_exec(groups, &p.name) {
            None => {
                proof {
                    assert(pset_missing_fn(groups@)(schema.psets@[j as int]) == 1nat);
                    assert(pset_params_fn(groups@)(schema.psets@[j as int]) == 0nat);
                }
                missing_psets = missing_psets + 1;
            },
            Some(g) => {
                proof {
                    assert(pset_missing_fn(groups@)(schema.psets@[j as int]) == 0nat);
                    lemma_sum_by_ge_elem(schema.psets@, pset_total_fn(), j as int);
                    assert(pset_total_fn()(schema.psets@[j as int]) == lists_param_total(
                        schema.psets@[j as int].lists@,
                    ));
                }
                let d: usize = missing_params_in_group(g, &p.lists);
                proof {
                    assert(pset_params_fn(groups@)(schema.psets@[j as int]) == missing_in_lists(
                        *g,
                        schema.psets@[j as int].lists@,
                    ));
                    lemma_missing_le_totals(groups@, schema.psets@.take(j as int + 1));
                    lemma_sum_by_take_le(schema.psets@, pset_total_fn(), j as int + 1);
                }
                missing_params = missing_params + d;
            },
        }
        j = j + 1;
    }
    proof {
        assert(schema.psets@.take(n as int) =~= schema.psets@);
    }
    let is_valid = missing_psets == 0 && missing_params == 0;
    let floor = floor_label(rec);
    let r = ElementOutcome { is_valid, floor, missing_psets, missing_params };
    proof {
        assert(r@ =~= spec_outcome(*schema, *data, id@));
    }
    r
}

} // verus!
