//! Selections from a sequence: what is left when some of its values are
//! struck out and the rest stay where they are.

use vstd::prelude::*;

verus! {

/// `at` gives, for each value of `part` in turn, a place of `whole` that
/// holds it, and these places go from left to right.
pub open spec fn embeds<A>(at: Seq<int>, part: Seq<A>, whole: Seq<A>) -> bool {
    &&& at.len() == part.len()
    &&& forall|k: int|
        0 <= k < at.len() ==> 0 <= #[trigger] at[k] < whole.len() && part[k] == whole[at[k]]
    &&& forall|k: int, l: int| 0 <= k < l < at.len() ==> at[k] < at[l]
}

/// `part` is what is left of `whole` when some of its values are struck out.
pub open spec fn is_subsequence<A>(part: Seq<A>, whole: Seq<A>) -> bool {
    exists|at: Seq<int>| embeds(at, part, whole)
}

/// Places that go from left to right do not fall behind their own number.
proof fn lemma_places_advance<A>(at: Seq<int>, part: Seq<A>, whole: Seq<A>, k: int)
    requires
        embeds(at, part, whole),
        0 <= k < at.len(),
    ensures
        k <= at[k],
    decreases k,
{
    if k > 0 {
        lemma_places_advance(at, part, whole, k - 1);
    }
}

/// A sequence with nothing struck out.
pub proof fn lemma_whole_is_subsequence<A>(s: Seq<A>)
    ensures
        is_subsequence(s, s),
{
    let at = Seq::new(s.len(), |k: int| k);
    assert(embeds(at, s, s));
}

/// What is left is no longer than what was there, and each of its values was
/// there.
pub proof fn lemma_subsequence_within<A>(part: Seq<A>, whole: Seq<A>)
    requires
        is_subsequence(part, whole),
    ensures
        part.len() <= whole.len(),
        forall|k: int| 0 <= k < part.len() ==> whole.contains(#[trigger] part[k]),
{
    let at = choose|at: Seq<int>| embeds(at, part, whole);
    if part.len() > 0 {
        lemma_places_advance(at, part, whole, part.len() - 1);
    }
    assert forall|k: int| 0 <= k < part.len() implies whole.contains(#[trigger] part[k]) by {
        assert(whole[at[k]] == part[k]);
    }
}

/// The places at which `s` holds the values that `pred` selects.
proof fn lemma_filter_embeds<A>(s: Seq<A>, pred: spec_fn(A) -> bool) -> (at: Seq<int>)
    ensures
        embeds(at, s.filter(pred), s),
    decreases s.len(),
{
    reveal(Seq::filter);
    if s.len() == 0 {
        Seq::empty()
    } else {
        let rest = lemma_filter_embeds(s.drop_last(), pred);
        if pred(s.last()) {
            rest.push(s.len() - 1)
        } else {
            rest
        }
    }
}

/// Selecting by a predicate strikes values out and moves none.
pub proof fn lemma_filter_is_subsequence<A>(s: Seq<A>, pred: spec_fn(A) -> bool)
    ensures
        is_subsequence(s.filter(pred), s),
{
    let at = lemma_filter_embeds(s, pred);
}

/// Selecting by `pred` leaves a selected value as often as it was there, and
/// no other value at all.
pub proof fn lemma_filter_counts<A>(s: Seq<A>, pred: spec_fn(A) -> bool, x: A)
    ensures
        s.filter(pred).to_multiset().count(x) == if pred(x) {
            s.to_multiset().count(x)
        } else {
            0
        },
    decreases s.len(),
{
    reveal(Seq::filter);
    if s.len() == 0 {
        s.to_multiset_ensures();
        vstd::multiset::axiom_count_le_len(s.to_multiset(), x);
    } else {
        let rest = s.drop_last();
        lemma_filter_counts(rest, pred, x);
        assert(s =~= rest.push(s.last()));
        rest.to_multiset_ensures();
        rest.filter(pred).to_multiset_ensures();
    }
}

/// Selecting by a predicate that holds of every value strikes nothing out.
pub proof fn lemma_filter_all<A>(s: Seq<A>, pred: spec_fn(A) -> bool)
    requires
        forall|i: int| 0 <= i < s.len() ==> pred(#[trigger] s[i]),
    ensures
        s.filter(pred) == s,
    decreases s.len(),
{
    reveal(Seq::filter);
    if s.len() > 0 {
        lemma_filter_all(s.drop_last(), pred);
        assert(s =~= s.drop_last().push(s.last()));
    }
}

} // verus!
