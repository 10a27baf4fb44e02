//! Sums of a function over a sequence, and the small algebra the
//! aggregation contracts rest on: how a sum changes under `push`,
//! `take`, `remove` and `update`, and that it is invariant under
//! permutation — the reason the reports do not depend on the order in
//! which elements are evaluated.

use vstd::prelude::*;

verus! {

/// Sum of `f` over the elements of `s`.
pub open spec fn sum_by<T>(s: Seq<T>, f: spec_fn(T) -> nat) -> nat
    decreases s.len(),
{
    if s.len() == 0 {
        0
    } else {
        sum_by(s.drop_last(), f) + f(s.last())
    }
}

/// Appending one element adds its contribution.
pub proof fn lemma_sum_by_push<T>(s: Seq<T>, f: spec_fn(T) -> nat, x: T)
    ensures
        sum_by(s.push(x), f) == sum_by(s, f) + f(x),
{
    assert(s.push(x).drop_last() =~= s);
    assert(s.push(x).last() == x);
}

/// Extending a prefix by one element adds that element's contribution.
pub proof fn lemma_sum_by_take_step<T>(s: Seq<T>, f: spec_fn(T) -> nat, i: int)
    requires
        0 <= i < s.len(),
    ensures
        sum_by(s.take(i + 1), f) == sum_by(s.take(i), f) + f(s[i]),
{
    assert(s.take(i + 1).drop_last() =~= s.take(i));
    assert(s.take(i + 1).last() == s[i]);
}

/// A prefix sum never exceeds the whole sum.
pub proof fn lemma_sum_by_take_le<T>(s: Seq<T>, f: spec_fn(T) -> nat, i: int)
    requires
        0 <= i <= s.len(),
    ensures
        sum_by(s.take(i), f) <= sum_by(s, f),
    decreases s.len() - i,
{
    if i == s.len() {
        assert(s.take(i) =~= s);
    } else {
        lemma_sum_by_take_step(s, f, i);
        lemma_sum_by_take_le(s, f, i + 1);
    }
}

/// Taking one element out takes exactly its contribution out.
pub proof fn lemma_sum_by_remove<T>(s: Seq<T>, f: spec_fn(T) -> nat, i: int)
    requires
        0 <= i < s.len(),
    ensures
        sum_by(s, f) == sum_by(s.remove(i), f) + f(s[i]),
    decreases s.len(),
{
    if i == s.len() - 1 {
        assert(s.remove(i) =~= s.drop_last());
    } else {
        assert(s.remove(i).drop_last() =~= s.drop_last().remove(i));
        assert(s.remove(i).last() == s.last());
        lemma_sum_by_remove(s.drop_last(), f, i);
    }
}

/// A sum is at least any single contribution.
pub proof fn lemma_sum_by_ge_elem<T>(s: Seq<T>, f: spec_fn(T) -> nat, i: int)
    requires
        0 <= i < s.len(),
    ensures
        sum_by(s, f) >= f(s[i]),
{
    lemma_sum_by_remove(s, f, i);
}

/// Replacing one element swaps its contribution for the new one.
pub proof fn lemma_sum_by_update<T>(s: Seq<T>, f: spec_fn(T) -> nat, i: int, x: T)
    requires
        0 <= i < s.len(),
    ensures
        sum_by(s.update(i, x), f) + f(s[i]) == sum_by(s, f) + f(x),
{
    assert(s.update(i, x).remove(i) =~= s.remove(i));
    lemma_sum_by_remove(s, f, i);
    lemma_sum_by_remove(s.update(i, x), f, i);
}

/// A sum depends only on which elements occur, with multiplicity: two
/// sequences with the same multiset of elements have the same sum.
pub proof fn lemma_sum_by_permutation<T>(s1: Seq<T>, s2: Seq<T>, f: spec_fn(T) -> nat)
    requires
        s1.to_multiset() == s2.to_multiset(),
    ensures
        sum_by(s1, f) == sum_by(s2, f),
    decreases s1.len(),
{
    s1.to_multiset_ensures();
    s2.to_multiset_ensures();
    if s1.len() == 0 {
        assert(s2.len() == 0);
    } else {
        let x = s1.last();
        let i = s1.len() - 1;
        assert(s1.contains(x));
        assert(s2.to_multiset().count(x) > 0);
        assert(s2.contains(x));
        let j = choose|j: int| 0 <= j < s2.len() && s2[j] == x;
        assert(s1.remove(i).to_multiset() =~= s1.to_multiset().remove(x));
        assert(s2.remove(j).to_multiset() =~= s2.to_multiset().remove(x));
        assert(s1.remove(i) =~= s1.drop_last());
        lemma_sum_by_remove(s2, f, j);
        lemma_sum_by_permutation(s1.drop_last(), s2.remove(j), f);
    }
}

/// A pointwise-constant function sums to `len * c`.
pub proof fn lemma_sum_by_constant<T>(s: Seq<T>, f: spec_fn(T) -> nat, c: nat)
    requires
        forall|i: int| 0 <= i < s.len() ==> f(s[i]) == c,
    ensures
        sum_by(s, f) == s.len() * c,
    decreases s.len(),
{
    if s.len() == 0 {
    } else {
        assert(forall|i: int|
            0 <= i < s.drop_last().len() ==> f(#[trigger] s.drop_last()[i]) == c);
        lemma_sum_by_constant(s.drop_last(), f, c);
        assert((s.len() - 1) * c + c == s.len() * c) by (nonlinear_arith);
    }
}

/// A pointwise bound on the contributions bounds the sum by `len * b`.
pub proof fn lemma_sum_by_bound<T>(s: Seq<T>, f: spec_fn(T) -> nat, b: nat)
    requires
        forall|i: int| 0 <= i < s.len() ==> f(s[i]) <= b,
    ensures
        sum_by(s, f) <= s.len() * b,
    decreases s.len(),
{
    if s.len() == 0 {
    } else {
        assert(forall|i: int|
            0 <= i < s.drop_last().len() ==> f(#[trigger] s.drop_last()[i]) <= b);
        lemma_sum_by_bound(s.drop_last(), f, b);
        assert(f(s.last()) <= b);
        assert((s.len() - 1) * b + b == s.len() * b) by (nonlinear_arith);
    }
}

/// A pointwise comparison of contributions carries over to the sums.
pub proof fn lemma_sum_by_pointwise_le<T>(s: Seq<T>, f: spec_fn(T) -> nat, g: spec_fn(T) -> nat)
    requires
        forall|i: int| 0 <= i < s.len() ==> f(s[i]) <= g(s[i]),
    ensures
        sum_by(s, f) <= sum_by(s, g),
    decreases s.len(),
{
    if s.len() == 0 {
    } else {
        assert(forall|i: int|
            0 <= i < s.drop_last().len() ==> f(#[trigger] s.drop_last()[i]) <= g(
                s.drop_last()[i],
            ));
        lemma_sum_by_pointwise_le(s.drop_last(), f, g);
        assert(f(s.last()) <= g(s.last()));
    }
}

/// A positive sum has a positive contribution somewhere.
pub proof fn lemma_sum_by_pos_exists<T>(s: Seq<T>, f: spec_fn(T) -> nat)
    requires
        sum_by(s, f) > 0,
    ensures
        exists|i: int| 0 <= i < s.len() && f(s[i]) > 0,
    decreases s.len(),
{
    if f(s.last()) > 0 {
        assert(0 <= s.len() - 1 < s.len() && f(s[s.len() - 1]) > 0);
    } else {
        lemma_sum_by_pos_exists(s.drop_last(), f);
        let i = choose|i: int| 0 <= i < s.drop_last().len() && f(s.drop_last()[i]) > 0;
        assert(0 <= i < s.len() && f(s[i]) > 0);
    }
}

/// `f` composed with `m`, as a contribution function.
pub open spec fn compose_nat<T, U>(f: spec_fn(U) -> nat, m: spec_fn(T) -> U) -> spec_fn(T) -> nat {
    |t: T| f(m(t))
}

/// Summing `f` over a mapped sequence is summing the composition over
/// the original.
pub proof fn lemma_sum_by_map<T, U>(s: Seq<T>, m: spec_fn(T) -> U, f: spec_fn(U) -> nat)
    ensures
        sum_by(s.map_values(m), f) == sum_by(s, compose_nat(f, m)),
    decreases s.len(),
{
    if s.len() == 0 {
        assert(s.map_values(m) =~= Seq::<U>::empty());
    } else {
        assert(s.map_values(m).drop_last() =~= s.drop_last().map_values(m));
        assert(s.map_values(m).last() == m(s.last()));
        lemma_sum_by_map(s.drop_last(), m, f);
        assert(compose_nat(f, m)(s.last()) == f(m(s.last())));
    }
}

/// Sums add pointwise: if `h` is everywhere the sum of `f` and `g`, the
/// sum of `h` is the sum of the sums.
pub proof fn lemma_sum_by_pointwise_add<T>(
    s: Seq<T>,
    f: spec_fn(T) -> nat,
    g: spec_fn(T) -> nat,
    h: spec_fn(T) -> nat,
)
    requires
        forall|i: int| 0 <= i < s.len() ==> h(s[i]) == f(s[i]) + g(s[i]),
    ensures
        sum_by(s, h) == sum_by(s, f) + sum_by(s, g),
    decreases s.len(),
{
    if s.len() == 0 {
    } else {
        assert(forall|i: int|
            0 <= i < s.drop_last().len() ==> h(#[trigger] s.drop_last()[i]) == f(
                s.drop_last()[i],
            ) + g(s.drop_last()[i]));
        lemma_sum_by_pointwise_add(s.drop_last(), f, g, h);
        assert(h(s.last()) == f(s.last()) + g(s.last()));
    }
}

} // verus!
