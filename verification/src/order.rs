//! Ascending order: what it means for a sample, and a sorted copy of one.

use vstd::multiset::{lemma_multiset_empty_len, Multiset};
use vstd::prelude::*;
use vstd::relations::{sorted_by, total_ordering};
use vstd::seq_lib::{lemma_multiset_commutative, lemma_sorted_unique};

verus! {

/// The order in which samples are arranged, as a relation on values.
pub open spec fn by_value() -> spec_fn(i64, i64) -> bool {
    |a: i64, b: i64| a <= b
}

/// No value of `s` is followed by a smaller one.
pub open spec fn ascending(s: Seq<i64>) -> bool {
    forall|i: int, j: int| 0 <= i < j < s.len() ==> s[i] <= s[j]
}

/// The values of `s`, each as often as `s` holds it, in ascending order.
pub open spec fn ordered(s: Seq<i64>) -> Seq<i64> {
    s.sort_by(by_value())
}

/// `ordered(s)` is ascending and holds exactly the values of `s`.
pub proof fn lemma_ordered(s: Seq<i64>)
    ensures
        ascending(ordered(s)),
        ordered(s).to_multiset() == s.to_multiset(),
        ordered(s).len() == s.len(),
{
    let o = ordered(s);
    assert(total_ordering(by_value()));
    s.lemma_sort_by_ensures(by_value());
    assert forall|i: int, j: int| 0 <= i < j < o.len() implies o[i] <= o[j] by {
        assert(by_value()(o[i], o[j]));
    }
    s.to_multiset_ensures();
    o.to_multiset_ensures();
}

/// `ordered(s)` holds a value exactly if `s` holds it.
pub proof fn lemma_ordered_same_values(s: Seq<i64>, x: i64)
    ensures
        ordered(s).contains(x) <==> s.contains(x),
{
    lemma_ordered(s);
    s.to_multiset_ensures();
    ordered(s).to_multiset_ensures();
    assert(ordered(s).contains(x) <==> ordered(s).to_multiset().count(x) > 0);
    assert(s.contains(x) <==> s.to_multiset().count(x) > 0);
}

/// Only one arrangement of the values of `s` is ascending.
pub proof fn lemma_ordered_unique(s: Seq<i64>, t: Seq<i64>)
    requires
        ascending(t),
        t.to_multiset() == s.to_multiset(),
    ensures
        t == ordered(s),
{
    lemma_ordered(s);
    assert(total_ordering(by_value()));
    assert(sorted_by(t, by_value()));
    assert(sorted_by(ordered(s), by_value()));
    lemma_sorted_unique(t, ordered(s), by_value());
}

/// A run without values holds nothing.
proof fn lemma_nothing_held()
    ensures
        Seq::<i64>::empty().to_multiset() == Multiset::<i64>::empty(),
{
    let none = Seq::<i64>::empty();
    none.to_multiset_ensures();
    lemma_multiset_empty_len(none.to_multiset());
}

/// Interleaves two ascending runs into one.
fn merge(left: &Vec<i64>, right: &Vec<i64>) -> (out: Vec<i64>)
    requires
        ascending(left@),
        ascending(right@),
    ensures
        ascending(out@),
        out@.to_multiset() == left@.to_multiset().add(right@.to_multiset()),
{
    let mut out: Vec<i64> = Vec::new();
    let mut i: usize = 0;
    let mut j: usize = 0;
    proof {
        lemma_nothing_held();
        assert(out@ =~= Seq::<i64>::empty());
        assert(left@.take(0) =~= Seq::<i64>::empty());
        assert(right@.take(0) =~= Seq::<i64>::empty());
        assert(Multiset::<i64>::empty().add(Multiset::<i64>::empty()) =~= Multiset::<i64>::empty());
    }
    while i < left.len() || j < right.len()
        invariant
            i <= left.len(),
            j <= right.len(),
            ascending(left@),
            ascending(right@),
            ascending(out@),
            out@.to_multiset() == left@.take(i as int).to_multiset().add(
                right@.take(j as int).to_multiset(),
            ),
            forall|k: int| 0 <= k < out.len() && i < left.len() ==> out[k] <= left[i as int],
            forall|k: int| 0 <= k < out.len() && j < right.len() ==> out[k] <= right[j as int],
        decreases left.len() - i + right.len() - j,
    {
        let from_left = if j >= right.len() {
            true
        } else if i >= left.len() {
            false
        } else {
            left[i] <= right[j]
        };
        let ghost before = out@;
        if from_left {
            let x = left[i];
            out.push(x);
            proof {
                let taken = left@.take(i as int);
                assert(left@.take(i + 1) =~= taken.push(x));
                taken.to_multiset_ensures();
                before.to_multiset_ensures();
                assert(out@.to_multiset() =~= left@.take(i + 1).to_multiset().add(
                    right@.take(j as int).to_multiset(),
                ));
            }
            i += 1;
        } else {
            let x = right[j];
            out.push(x);
            proof {
                let taken = right@.take(j as int);
                assert(right@.take(j + 1) =~= taken.push(x));
                taken.to_multiset_ensures();
                before.to_multiset_ensures();
                assert(out@.to_multiset() =~= left@.take(i as int).to_multiset().add(
                    right@.take(j + 1).to_multiset(),
                ));
            }
            j += 1;
        }
    }
    proof {
        assert(left@.take(i as int) =~= left@);
        assert(right@.take(j as int) =~= right@);
    }
    out
}

/// Sorts the values of `values` from index `from` up to, not including, `to`.
fn sort_span(values: &[i64], from: usize, to: usize) -> (out: Vec<i64>)
    requires
        from <= to <= values@.len(),
    ensures
        ascending(out@),
        out@.to_multiset() == values@.subrange(from as int, to as int).to_multiset(),
    decreases to - from,
{
    if to - from < 2 {
        let mut out: Vec<i64> = Vec::new();
        if from < to {
            out.push(values[from]);
        }
        assert(out@ =~= values@.subrange(from as int, to as int));
        out
    } else {
        let mid: usize = from + (to - from) / 2;
        let left = sort_span(values, from, mid);
        let right = sort_span(values, mid, to);
        proof {
            let a = values@.subrange(from as int, mid as int);
            let b = values@.subrange(mid as int, to as int);
            assert(a + b =~= values@.subrange(from as int, to as int));
            lemma_multiset_commutative(a, b);
        }
        merge(&left, &right)
    }
}

/// A copy of `values` in ascending order.
pub fn sorted_copy(values: &[i64]) -> (out: Vec<i64>)
    ensures
        out@ == ordered(values@),
        ascending(out@),
        out@.to_multiset() == values@.to_multiset(),
        out@.len() == values@.len(),
{
    let out = sort_span(values, 0, values.len());
    proof {
        assert(values@.subrange(0, values@.len() as int) =~= values@);
        lemma_ordered_unique(values@, out@);
        lemma_ordered(values@);
    }
    out
}

} // verus!
