//! The median of an ascending run of values.

use vstd::prelude::*;

verus! {

/// The middle of an ascending run: its central value where the run has odd
/// length, its two central values where the length is even.
///
/// The median is half of [`Middle::doubled`]. Keeping the two values apart
/// lets the median of an even run be stated without rounding.
#[derive(Clone, Copy, Debug, PartialEq, Eq, Structural)]
pub enum Middle {
    /// The single central value.
    One(i64),
    /// The two central values, the lower one first.
    Two(i64, i64),
}

impl Middle {
    /// Twice the median.
    pub open spec fn doubled(self) -> int {
        match self {
            Middle::One(a) => 2 * a,
            Middle::Two(a, b) => a + b,
        }
    }

    /// The least of the central values.
    pub open spec fn low(self) -> i64 {
        match self {
            Middle::One(a) => a,
            Middle::Two(a, _) => a,
        }
    }

    /// The greatest of the central values.
    pub open spec fn high(self) -> i64 {
        match self {
            Middle::One(a) => a,
            Middle::Two(_, b) => b,
        }
    }

    /// Twice the median, computed without overflow.
    pub fn twice(&self) -> (d: i128)
        ensures
            d == self.doubled(),
    {
        match *self {
            Middle::One(a) => {
                let wide: i128 = a as i128;
                wide + wide
            },
            Middle::Two(a, b) => {
                let left: i128 = a as i128;
                let right: i128 = b as i128;
                left + right
            },
        }
    }
}

/// The middle of `s`: the value at index `len / 2` for an odd length, the
/// values at `len / 2 - 1` and `len / 2` for an even one.
pub open spec fn middle_of(s: Seq<i64>) -> Middle
    recommends
        s.len() > 0,
{
    let mid = s.len() as int / 2;
    if s.len() % 2 == 1 {
        Middle::One(s[mid])
    } else {
        Middle::Two(s[mid - 1], s[mid])
    }
}

/// Reads the middle off a run of values that is already in ascending order.
pub fn middle(values: &[i64]) -> (m: Middle)
    requires
        values@.len() > 0,
    ensures
        m == middle_of(values@),
{
    let mid: usize = values.len() / 2;
    if values.len() % 2 == 1 {
        Middle::One(values[mid])
    } else {
        Middle::Two(values[mid - 1], values[mid])
    }
}

} // verus!
