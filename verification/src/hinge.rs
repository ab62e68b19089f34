//! The hinges of an ascending sample: the medians of its two halves.

use crate::median::{middle, middle_of, Middle};
use crate::order::ascending;
use vstd::prelude::*;

verus! {

/// The values below the centre of `s`: the first `len / 2` of them.
pub open spec fn lower_half(s: Seq<i64>) -> Seq<i64> {
    s.subrange(0, s.len() as int / 2)
}

/// The values above the centre of `s`: the last `len / 2` of them. Where the
/// length is odd the central value belongs to neither half.
pub open spec fn upper_half(s: Seq<i64>) -> Seq<i64> {
    let mid = s.len() as int / 2;
    if s.len() % 2 == 0 {
        s.subrange(mid, s.len() as int)
    } else {
        s.subrange(mid + 1, s.len() as int)
    }
}

/// The lower and the upper hinge of `s`, in this order.
pub open spec fn hinge_of(s: Seq<i64>) -> (Middle, Middle)
    recommends
        s.len() >= 3,
{
    (middle_of(lower_half(s)), middle_of(upper_half(s)))
}

/// Reads both hinges off a sample that is already in ascending order.
///
/// The first is the lower quartile, the second the upper quartile, each as
/// the middle of one half of the sample.
pub fn hinge(values: &[i64]) -> (q: (Middle, Middle))
    requires
        values@.len() >= 3,
    ensures
        q == hinge_of(values@),
{
    let n: usize = values.len();
    let mid: usize = n / 2;
    if n % 2 == 0 {
        (middle(&values[0..mid]), middle(&values[mid..n]))
    } else {
        (middle(&values[0..mid]), middle(&values[mid + 1..n]))
    }
}

/// In an ascending sample no central value of the lower half exceeds one of
/// the upper half, so the lower quartile is at most the upper quartile.
pub proof fn lemma_hinge_in_order(s: Seq<i64>)
    requires
        s.len() >= 3,
        ascending(s),
    ensures
        hinge_of(s).0.low() <= hinge_of(s).0.high(),
        hinge_of(s).0.high() <= hinge_of(s).1.low(),
        hinge_of(s).1.low() <= hinge_of(s).1.high(),
        hinge_of(s).0.doubled() <= hinge_of(s).1.doubled(),
{
}

/// Every central value that a hinge holds is a value of the sample.
pub proof fn lemma_hinge_from_sample(s: Seq<i64>)
    requires
        s.len() >= 3,
    ensures
        s.contains(hinge_of(s).0.low()),
        s.contains(hinge_of(s).0.high()),
        s.contains(hinge_of(s).1.low()),
        s.contains(hinge_of(s).1.high()),
{
    let mid = s.len() as int / 2;
    let lower = lower_half(s);
    let upper = upper_half(s);
    let start = s.len() - upper.len();
    assert(s[(lower.len() - 1) / 2] == hinge_of(s).0.low());
    assert(s[lower.len() as int / 2] == hinge_of(s).0.high());
    assert(s[start + (upper.len() - 1) / 2] == hinge_of(s).1.low());
    assert(s[start + upper.len() as int / 2] == hinge_of(s).1.high());
}

} // verus!
