//! The filter itself: quartiles of a sample, then the values within the
//! fences around them.

use crate::fence::{inliers, keep, Fence};
use crate::hinge::{hinge, hinge_of};
use crate::median::Middle;
use crate::order::{ordered, sorted_copy};
use crate::subsequence::{is_subsequence, lemma_whole_is_subsequence};
use vstd::prelude::*;
use vstd::slice::slice_to_vec;

verus! {

/// The quartiles of `s`: the hinges of its ascending arrangement. A sample of
/// fewer than three values has none.
pub open spec fn quartiles_of(s: Seq<i64>) -> Option<(Middle, Middle)> {
    if s.len() < 3 {
        None
    } else {
        Some(hinge_of(ordered(s)))
    }
}

/// What the filter keeps of `s`: all of it where `s` has no quartiles, else
/// its inliers, each where and as often as `s` holds it.
pub open spec fn tukey(s: Seq<i64>) -> Seq<i64> {
    match quartiles_of(s) {
        None => s,
        Some((q1, q3)) => s.filter(inliers(q1, q3)),
    }
}

/// The lower and the upper quartile of a sample in any order, or `None` for a
/// sample of fewer than three values.
pub fn quartiles(values: &[i64]) -> (q: Option<(Middle, Middle)>)
    ensures
        q == quartiles_of(values@),
{
    if values.len() < 3 {
        return None;
    }
    let order = sorted_copy(values);
    Some(hinge(order.as_slice()))
}

/// Removes the outliers of a sample by Tukey's rule.
///
/// A sample of fewer than three values comes back whole. Of a longer one the
/// result holds the values `x` with
/// `Q1 - 3/2 * (Q3 - Q1) <= x <= Q3 + 3/2 * (Q3 - Q1)`, in the order of the
/// sample, where `Q1` and `Q3` are its quartiles.
pub fn trim(values: &[i64]) -> (out: Vec<i64>)
    ensures
        out@ == tukey(values@),
        values@.len() < 3 ==> out@ == values@,
        is_subsequence(out@, values@),
{
    match quartiles(values) {
        None => {
            proof {
                lemma_whole_is_subsequence(values@);
            }
            slice_to_vec(values)
        },
        Some((q1, q3)) => {
            let fence = Fence::around(q1, q3);
            assert(fence.admitted() =~= inliers(q1, q3));
            keep(values, &fence)
        },
    }
}

/// Samples whose outliers can be removed by Tukey's rule.
pub trait Tukey: View<V = Seq<i64>> {
    /// The sample without its outliers: see [`trim`].
    fn tukeyize(&self) -> (out: Vec<i64>)
        ensures
            out@ == tukey(self@),
            is_subsequence(out@, self@),
    ;
}

impl Tukey for [i64] {
    fn tukeyize(&self) -> (out: Vec<i64>) {
        trim(self)
    }
}

impl Tukey for Vec<i64> {
    fn tukeyize(&self) -> (out: Vec<i64>) {
        self.as_slice().tukeyize()
    }
}

} // verus!
