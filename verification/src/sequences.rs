//! Sums over sequences, and what stays the same when a sequence is put in
//! another order.

use vstd::prelude::*;
use vstd::seq_lib::{to_multiset_build, to_multiset_contains, to_multiset_len, to_multiset_remove};

verus! {

/// The values of `f` over the elements of `s`, added up.
pub open spec fn total<T>(s: Seq<T>, f: spec_fn(T) -> int) -> int
    decreases s.len(),
{
    if s.len() == 0 {
        0
    } else {
        total(s.drop_last(), f) + f(s.last())
    }
}

/// Whether two sequences hold the same elements, each as often, in whatever
/// order.
pub open spec fn same_elements<T>(a: Seq<T>, b: Seq<T>) -> bool {
    a.to_multiset() == b.to_multiset()
}

/// A sum is the sum without one element, and that element's value.
pub proof fn lemma_total_remove<T>(s: Seq<T>, f: spec_fn(T) -> int, k: int)
    requires
        0 <= k < s.len(),
    ensures
        total(s, f) == total(s.remove(k), f) + f(s[k]),
    decreases s.len(),
{
    if k == s.len() - 1 {
        assert(s.remove(k) =~= s.drop_last());
    } else {
        lemma_total_remove(s.drop_last(), f, k);
        assert(s.remove(k).drop_last() =~= s.drop_last().remove(k));
        assert(s.remove(k).last() == s.last());
    }
}

/// Two functions that agree on every element give the same sum.
pub proof fn lemma_total_agrees<T>(s: Seq<T>, f: spec_fn(T) -> int, g: spec_fn(T) -> int)
    requires
        forall|i: int| 0 <= i < s.len() ==> f(#[trigger] s[i]) == g(s[i]),
    ensures
        total(s, f) == total(s, g),
    decreases s.len(),
{
    if s.len() > 0 {
        let rest = s.drop_last();
        assert forall|i: int| 0 <= i < rest.len() implies f(#[trigger] rest[i]) == g(rest[i]) by {
            assert(rest[i] == s[i]);
        }
        lemma_total_agrees(rest, f, g);
        assert(f(s[s.len() - 1]) == g(s[s.len() - 1]));
    }
}

/// Where the last element of one sequence stands in another that holds
/// the same elements; without it, the two still hold the same elements.
pub proof fn lemma_last_elsewhere<T>(a: Seq<T>, b: Seq<T>) -> (k: int)
    requires
        same_elements(a, b),
        a.len() > 0,
    ensures
        0 <= k < b.len(),
        b[k] == a.last(),
        a.len() == b.len(),
        same_elements(a.drop_last(), b.remove(k)),
{
    let x = a.last();
    to_multiset_len(a);
    to_multiset_len(b);
    to_multiset_contains(a, x);
    to_multiset_contains(b, x);
    assert(a.contains(x)) by {
        assert(a[a.len() - 1] == x);
    }
    let k = choose|k: int| 0 <= k < b.len() && b[k] == x;
    to_multiset_remove(b, k);
    to_multiset_remove(a, a.len() - 1);
    assert(a.remove(a.len() - 1) =~= a.drop_last());
    k
}

/// A sum does not depend on the order of what is added up.
pub proof fn lemma_total_reordered<T>(a: Seq<T>, b: Seq<T>, f: spec_fn(T) -> int)
    requires
        same_elements(a, b),
    ensures
        total(a, f) == total(b, f),
    decreases a.len(),
{
    to_multiset_len(a);
    to_multiset_len(b);
    if a.len() > 0 {
        let k = lemma_last_elsewhere(a, b);
        lemma_total_reordered(a.drop_last(), b.remove(k), f);
        lemma_total_remove(b, f, k);
    }
}

/// Mapping two sequences that hold the same elements gives two sequences
/// that hold the same elements.
pub proof fn lemma_map_reordered<T, U>(a: Seq<T>, b: Seq<T>, g: spec_fn(T) -> U)
    requires
        same_elements(a, b),
    ensures
        same_elements(a.map_values(g), b.map_values(g)),
    decreases a.len(),
{
    to_multiset_len(a);
    to_multiset_len(b);
    let ma = a.map_values(g);
    let mb = b.map_values(g);
    if a.len() == 0 {
        assert(ma =~= mb);
    } else {
        let k = lemma_last_elsewhere(a, b);
        lemma_map_reordered(a.drop_last(), b.remove(k), g);
        let y = g(a.last());
        assert(a.drop_last().map_values(g).push(y) =~= ma);
        to_multiset_build(a.drop_last().map_values(g), y);
        assert(b.remove(k).map_values(g) =~= mb.remove(k));
        to_multiset_remove(mb, k);
        to_multiset_contains(mb, y);
        assert(mb.contains(y)) by {
            assert(mb[k] == y);
        }
        assert(mb.to_multiset() =~= mb.to_multiset().remove(y).insert(y));
    }
}

/// Two sequences that hold the same elements have the same members.
pub proof fn lemma_same_members<T>(a: Seq<T>, b: Seq<T>, x: T)
    requires
        same_elements(a, b),
    ensures
        a.contains(x) <==> b.contains(x),
{
    to_multiset_contains(a, x);
    to_multiset_contains(b, x);
}

} // verus!
