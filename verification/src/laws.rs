//! What holds of the filter on every sample.

use crate::fence::{doubled_range, inliers, is_inlier, max_x4, min_x4};
use crate::hinge::{hinge_of, lemma_hinge_from_sample, lemma_hinge_in_order};
use crate::median::Middle;
use crate::order::{lemma_ordered, lemma_ordered_same_values, ordered};
use crate::subsequence::{
    is_subsequence, lemma_filter_all, lemma_filter_counts, lemma_filter_is_subsequence,
    lemma_subsequence_within, lemma_whole_is_subsequence,
};
use crate::tukey::{quartiles_of, tukey};
use vstd::prelude::*;

verus! {

/// What the filter keeps depends on the values of the sample and their order
/// alone: runs on equal samples, whether they follow one another or go side
/// by side on copies, end in equal results.
pub proof fn lemma_equal_samples_equal_results(
    a: Seq<i64>,
    b: Seq<i64>,
    kept_of_a: Seq<i64>,
    kept_of_b: Seq<i64>,
)
    requires
        a == b,
        kept_of_a == tukey(a),
        kept_of_b == tukey(b),
    ensures
        kept_of_a == kept_of_b,
{
}

/// A sample of fewer than three values passes the filter unchanged.
pub proof fn lemma_short_sample_unchanged(s: Seq<i64>)
    requires
        s.len() < 3,
    ensures
        tukey(s) == s,
{
}

/// The fences enclose both quartiles, and where the quartiles coincide the
/// fences coincide with them.
pub proof fn lemma_fence_encloses_quartiles(q1: Middle, q3: Middle)
    requires
        q1.doubled() <= q3.doubled(),
    ensures
        min_x4(q1, q3) <= 2 * q1.doubled() <= 2 * q3.doubled() <= max_x4(q1, q3),
        doubled_range(q1, q3) == 0 ==> min_x4(q1, q3) == 2 * q1.doubled() && max_x4(q1, q3) == 2
            * q3.doubled(),
{
}

/// The quartiles of a sample are in order, and so are the fences around them:
/// lower fence, lower quartile, upper quartile, upper fence.
pub proof fn lemma_quartiles_in_order(s: Seq<i64>)
    requires
        s.len() >= 3,
    ensures
        quartiles_of(s) matches Some((q1, q3)) && min_x4(q1, q3) <= 2 * q1.doubled() <= 2
            * q3.doubled() <= max_x4(q1, q3),
{
    lemma_ordered(s);
    lemma_hinge_in_order(ordered(s));
    let (q1, q3) = hinge_of(ordered(s));
    lemma_fence_encloses_quartiles(q1, q3);
}

/// The filter keeps the inliers of a sample and nothing else: a value that
/// lies within the fences is in the result as often as in the sample, a value
/// outside them is not in the result.
pub proof fn lemma_keeps_exactly_inliers(s: Seq<i64>, x: i64)
    requires
        s.len() >= 3,
    ensures
        quartiles_of(s) matches Some((q1, q3)) && tukey(s).to_multiset().count(x) == if is_inlier(
            x,
            q1,
            q3,
        ) {
            s.to_multiset().count(x)
        } else {
            0
        },
        quartiles_of(s) matches Some((q1, q3)) && (tukey(s).contains(x) <==> s.contains(x)
            && is_inlier(x, q1, q3)),
{
    let (q1, q3) = hinge_of(ordered(s));
    lemma_filter_counts(s, inliers(q1, q3), x);
    s.to_multiset_ensures();
    tukey(s).to_multiset_ensures();
}

/// The values that the filter keeps stand in the result in the order in which
/// they stand in the sample.
pub proof fn lemma_order_preserved(s: Seq<i64>)
    ensures
        is_subsequence(tukey(s), s),
{
    match quartiles_of(s) {
        None => {
            lemma_whole_is_subsequence(s);
        },
        Some((q1, q3)) => {
            lemma_filter_is_subsequence(s, inliers(q1, q3));
        },
    }
}

/// The result is no longer than the sample, and each of its values is a
/// value of the sample.
pub proof fn lemma_result_within_sample(s: Seq<i64>)
    ensures
        tukey(s).len() <= s.len(),
        forall|k: int| 0 <= k < tukey(s).len() ==> s.contains(#[trigger] tukey(s)[k]),
{
    lemma_order_preserved(s);
    lemma_subsequence_within(tukey(s), s);
}

/// Where the two quartiles coincide the filter keeps the values equal to
/// them and no others, so the sample passes unchanged exactly if all its
/// values are equal.
pub proof fn lemma_no_spread(s: Seq<i64>)
    requires
        s.len() >= 3,
        quartiles_of(s) matches Some((q1, q3)) && doubled_range(q1, q3) == 0,
    ensures
        quartiles_of(s) matches Some((q1, q3)) && forall|x: i64|
            is_inlier(x, q1, q3) <==> 2 * x == q1.doubled(),
        tukey(s) == s <==> forall|i: int, j: int| 0 <= i < s.len() && 0 <= j < s.len() ==> s[i]
            == s[j],
{
    let (q1, q3) = hinge_of(ordered(s));
    lemma_ordered(s);
    lemma_hinge_from_sample(ordered(s));
    // The lower quartile holds a value of the sample, and with no spread it
    // is that value.
    let c = q1.low();
    lemma_ordered_same_values(s, c);
    lemma_hinge_in_order(ordered(s));
    assert(2 * c == q1.doubled());
    if tukey(s) == s {
        assert forall|i: int, j: int| 0 <= i < s.len() && 0 <= j < s.len() implies s[i]
            == s[j] by {
            s.lemma_filter_pred(inliers(q1, q3), i);
            s.lemma_filter_pred(inliers(q1, q3), j);
        }
    }
    if forall|i: int, j: int| 0 <= i < s.len() && 0 <= j < s.len() ==> s[i] == s[j] {
        lemma_filter_all(s, inliers(q1, q3));
    }
}

/// A sample whose values are all equal passes the filter unchanged.
pub proof fn lemma_constant_sample_unchanged(s: Seq<i64>)
    requires
        forall|i: int, j: int| 0 <= i < s.len() && 0 <= j < s.len() ==> s[i] == s[j],
    ensures
        tukey(s) == s,
{
    if s.len() >= 3 {
        let o = ordered(s);
        lemma_ordered(s);
        assert forall|k: int| 0 <= k < o.len() implies o[k] == s[0] by {
            assert(o.contains(o[k]));
            lemma_ordered_same_values(s, o[k]);
        }
        let (q1, q3) = hinge_of(o);
        lemma_hinge_from_sample(o);
        assert(doubled_range(q1, q3) == 0);
        lemma_no_spread(s);
    }
}

} // verus!
