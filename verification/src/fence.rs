//! Tukey's fences: the inclusive bounds within which a value is an inlier.

use crate::median::Middle;
use crate::subsequence::{is_subsequence, lemma_filter_is_subsequence};
use vstd::prelude::*;

verus! {

/// Twice the interquartile range: the upper quartile less the lower one.
pub open spec fn doubled_range(q1: Middle, q3: Middle) -> int {
    q3.doubled() - q1.doubled()
}

/// Four times the lower bound, which lies three halves of the interquartile
/// range below the lower quartile.
pub open spec fn min_x4(q1: Middle, q3: Middle) -> int {
    2 * q1.doubled() - 3 * doubled_range(q1, q3)
}

/// Four times the upper bound, which lies three halves of the interquartile
/// range above the upper quartile.
pub open spec fn max_x4(q1: Middle, q3: Middle) -> int {
    2 * q3.doubled() + 3 * doubled_range(q1, q3)
}

/// `x` lies within the bounds that the quartiles `q1` and `q3` give, either
/// bound included.
pub open spec fn is_inlier(x: i64, q1: Middle, q3: Middle) -> bool {
    min_x4(q1, q3) <= 4 * x <= max_x4(q1, q3)
}

/// [`is_inlier`] as a predicate on values.
pub open spec fn inliers(q1: Middle, q3: Middle) -> spec_fn(i64) -> bool {
    |x: i64| is_inlier(x, q1, q3)
}

/// A pair of inclusive bounds, each held as four times its value, so that
/// bounds which fall between two integers are held exactly.
#[derive(Clone, Copy, Debug, PartialEq, Eq, Structural)]
pub struct Fence {
    /// Four times the least value that is admitted.
    pub min_x4: i128,
    /// Four times the greatest value that is admitted.
    pub max_x4: i128,
}

impl Fence {
    /// `x` is neither below the lower bound nor above the upper one.
    pub open spec fn admits(self, x: i64) -> bool {
        self.min_x4 <= 4 * x <= self.max_x4
    }

    /// [`Fence::admits`] as a predicate on values.
    pub open spec fn admitted(self) -> spec_fn(i64) -> bool {
        |x: i64| self.admits(x)
    }

    /// The fence that Tukey's rule puts around the quartiles `q1` and `q3`.
    pub fn around(q1: Middle, q3: Middle) -> (fence: Fence)
        ensures
            fence.min_x4 == min_x4(q1, q3),
            fence.max_x4 == max_x4(q1, q3),
            forall|x: i64| fence.admits(x) <==> is_inlier(x, q1, q3),
    {
        let low: i128 = q1.twice();
        let high: i128 = q3.twice();
        let range: i128 = high - low;
        Fence { min_x4: 2 * low - 3 * range, max_x4: 2 * high + 3 * range }
    }

    /// Whether `x` lies within the fence.
    pub fn holds(&self, x: i64) -> (inside: bool)
        ensures
            inside == self.admits(x),
    {
        let wide: i128 = x as i128;
        self.min_x4 <= 4 * wide && 4 * wide <= self.max_x4
    }
}

/// The values of `values` that lie within `fence`, in the order and as often
/// as `values` holds them.
pub fn keep(values: &[i64], fence: &Fence) -> (out: Vec<i64>)
    ensures
        out@ == values@.filter(fence.admitted()),
        is_subsequence(out@, values@),
{
    let mut out: Vec<i64> = Vec::new();
    let mut i: usize = 0;
    proof {
        reveal(Seq::filter);
        assert(values@.take(0) =~= Seq::<i64>::empty());
    }
    while i < values.len()
        invariant
            i <= values@.len(),
            out@ == values@.take(i as int).filter(fence.admitted()),
        decreases values@.len() - i,
    {
        let x: i64 = values[i];
        proof {
            assert(values@.take(i + 1) =~= values@.take(i as int).push(x));
            values@.take(i as int).lemma_filter_push(x, fence.admitted());
        }
        if fence.holds(x) {
            out.push(x);
        }
        i += 1;
    }
    proof {
        assert(values@.take(i as int) =~= values@);
        lemma_filter_is_subsequence(values@, fence.admitted());
    }
    out
}

} // verus!
