//! Samples of binary64 numbers, each held as its bit pattern.
//!
//! A pattern is a sign bit above a 63-bit magnitude. Magnitudes up to
//! [`INFINITY`] stand for numbers, and the greater the magnitude the further
//! the number is from zero; larger magnitudes stand for no number at all.
//! This module orders patterns as the numbers they stand for are ordered and
//! refuses to order a pattern that stands for none. The arithmetic that leads
//! from quartiles to bounds is the caller's: [`quartiles`] hands out what it
//! starts from, and [`keep`] takes what it ends in.

use crate::hinge::{hinge, hinge_of};
use crate::median::Middle;
use crate::order::{lemma_ordered, lemma_ordered_same_values, ordered, sorted_copy};
use crate::subsequence::{
    is_subsequence, lemma_filter_all, lemma_filter_counts, lemma_filter_is_subsequence,
    lemma_subsequence_within,
};
use vstd::prelude::*;

verus! {

/// The pattern whose only set bit is the sign.
pub const SIGN: u64 = 0x8000_0000_0000_0000;

/// The magnitude of both infinities, the largest that stands for a number.
pub const INFINITY: u64 = 0x7FF0_0000_0000_0000;

/// The pattern without its sign bit.
pub open spec fn magnitude(bits: u64) -> int {
    if bits >= SIGN {
        bits - SIGN
    } else {
        bits as int
    }
}

/// The pattern stands for no number.
pub open spec fn is_nan(bits: u64) -> bool {
    magnitude(bits) > INFINITY
}

/// Where the number stands among all numbers: below zero by its magnitude
/// where the sign is set, above zero by it where not. Both zeros stand at 0.
pub open spec fn rank(bits: u64) -> int {
    if bits >= SIGN {
        -magnitude(bits)
    } else {
        magnitude(bits)
    }
}

/// The first number is at most the second. False where either pattern
/// stands for no number.
pub open spec fn at_most(a: u64, b: u64) -> bool {
    !is_nan(a) && !is_nan(b) && rank(a) <= rank(b)
}

/// An integer by which patterns are ordered and found again: like [`rank`],
/// but with the patterns of set sign moved down by one, so that no two
/// patterns share a key.
pub open spec fn key_of(bits: u64) -> i64 {
    if bits >= SIGN {
        (-1 - magnitude(bits)) as i64
    } else {
        bits as i64
    }
}

/// The pattern that has the key `key`.
pub open spec fn pattern_of(key: i64) -> u64 {
    if key < 0 {
        (SIGN - 1 - key) as u64
    } else {
        key as u64
    }
}

/// The keys of a sample, place by place.
pub open spec fn keys_of(s: Seq<u64>) -> Seq<i64> {
    s.map_values(|bits: u64| key_of(bits))
}

/// The values between two bounds, either bound included, as a predicate.
pub open spec fn between(min: u64, max: u64) -> spec_fn(u64) -> bool {
    |x: u64| at_most(min, x) && at_most(x, max)
}

/// A place of a sample that holds no number, and what it holds.
#[derive(Clone, Copy, Debug, PartialEq, Eq, Structural)]
pub struct Incomparable {
    /// The first such place.
    pub index: usize,
    /// The pattern at that place.
    pub pattern: u64,
}

/// Whether the pattern stands for no number.
pub fn not_a_number(bits: u64) -> (nan: bool)
    ensures
        nan == is_nan(bits),
{
    if bits >= SIGN {
        bits - SIGN > INFINITY
    } else {
        bits > INFINITY
    }
}

/// The key of a pattern.
pub fn key(bits: u64) -> (k: i64)
    ensures
        k == key_of(bits),
{
    if bits >= SIGN {
        let below: u64 = bits - SIGN;
        -1 - (below as i64)
    } else {
        bits as i64
    }
}

/// The pattern of a key.
pub fn pattern(key: i64) -> (bits: u64)
    ensures
        bits == pattern_of(key),
{
    if key < 0 {
        let below: i64 = -1 - key;
        SIGN + (below as u64)
    } else {
        key as u64
    }
}

/// Whether the first number is at most the second: never, where one of the
/// patterns stands for no number.
pub fn le(a: u64, b: u64) -> (yes: bool)
    ensures
        yes == at_most(a, b),
{
    if not_a_number(a) || not_a_number(b) {
        return false;
    }
    let ka: i64 = key(a);
    let kb: i64 = key(b);
    // Keys order as numbers do, but for the zero of set sign, which has a key
    // of its own below that of the other zero.
    ka <= kb || (ka == 0 && kb == -1)
}

/// Patterns and keys correspond one to one.
pub proof fn lemma_key_round_trip(bits: u64, key: i64)
    ensures
        pattern_of(key_of(bits)) == bits,
        key_of(pattern_of(key)) == key,
{
}

/// Keys never put a smaller number after a larger one, and they tell any two
/// numbers apart but the two zeros.
pub proof fn lemma_keys_order_numbers(a: u64, b: u64)
    requires
        !is_nan(a),
        !is_nan(b),
    ensures
        key_of(a) <= key_of(b) ==> at_most(a, b),
        at_most(a, b) ==> key_of(a) <= key_of(b) || (rank(a) == 0 && rank(b) == 0),
{
}

/// Arranging a sample of numbers by key arranges it by number: the ascending
/// keys are keys of values of the sample, none of them of a pattern that
/// stands for no number, and none is followed by the key of a smaller number.
pub proof fn lemma_ordered_keys_order_numbers(s: Seq<u64>)
    requires
        forall|i: int| 0 <= i < s.len() ==> !is_nan(#[trigger] s[i]),
    ensures
        ordered(keys_of(s)).len() == s.len(),
        forall|i: int|
            0 <= i < s.len() ==> s.contains(#[trigger] pattern_of(ordered(keys_of(s))[i])),
        forall|i: int, j: int|
            0 <= i < j < s.len() ==> at_most(
                pattern_of(#[trigger] ordered(keys_of(s))[i]),
                pattern_of(#[trigger] ordered(keys_of(s))[j]),
            ),
{
    let k = keys_of(s);
    let o = ordered(k);
    lemma_ordered(k);
    assert forall|i: int| 0 <= i < s.len() implies s.contains(#[trigger] pattern_of(o[i])) by {
        assert(o.contains(o[i]));
        lemma_ordered_same_values(k, o[i]);
        let at = choose|at: int| 0 <= at < k.len() && k[at] == o[i];
        lemma_key_round_trip(s[at], o[i]);
        assert(s[at] == pattern_of(o[i]));
    }
    assert forall|i: int, j: int| 0 <= i < j < s.len() implies at_most(
        pattern_of(#[trigger] o[i]),
        pattern_of(#[trigger] o[j]),
    ) by {
        lemma_key_round_trip(0, o[i]);
        lemma_key_round_trip(0, o[j]);
        assert(s.contains(pattern_of(o[i])));
        assert(s.contains(pattern_of(o[j])));
        lemma_keys_order_numbers(pattern_of(o[i]), pattern_of(o[j]));
    }
}

/// Selecting between two bounds strikes values out of the sample and moves
/// none: what is left stands in the order of the sample, is no longer than
/// the sample, and holds only values that the sample holds.
pub proof fn lemma_kept_in_order(s: Seq<u64>, min: u64, max: u64)
    ensures
        is_subsequence(s.filter(between(min, max)), s),
        s.filter(between(min, max)).len() <= s.len(),
        forall|k: int|
            0 <= k < s.filter(between(min, max)).len() ==> s.contains(
                #[trigger] s.filter(between(min, max))[k],
            ),
{
    lemma_filter_is_subsequence(s, between(min, max));
    lemma_subsequence_within(s.filter(between(min, max)), s);
}

/// Selecting between two bounds leaves a value within them as often as the
/// sample holds it, and no value outside them.
pub proof fn lemma_keeps_exactly_within(s: Seq<u64>, min: u64, max: u64, x: u64)
    ensures
        s.filter(between(min, max)).to_multiset().count(x) == if at_most(min, x) && at_most(
            x,
            max,
        ) {
            s.to_multiset().count(x)
        } else {
            0
        },
{
    lemma_filter_counts(s, between(min, max), x);
}

/// A sample whose values all lie within the bounds is left whole.
pub proof fn lemma_all_within_all_kept(s: Seq<u64>, min: u64, max: u64)
    requires
        forall|i: int| 0 <= i < s.len() ==> at_most(min, #[trigger] s[i]) && at_most(s[i], max),
    ensures
        s.filter(between(min, max)) == s,
{
    lemma_filter_all(s, between(min, max));
}

/// The keys of a sample, or the first place that holds no number.
fn keys(sample: &[u64]) -> (r: Result<Vec<i64>, Incomparable>)
    ensures
        match r {
            Ok(k) => k@ == keys_of(sample@) && forall|i: int|
                0 <= i < sample@.len() ==> !is_nan(#[trigger] sample@[i]),
            Err(e) => e.index < sample@.len() && is_nan(sample@[e.index as int]) && e.pattern
                == sample@[e.index as int] && forall|i: int|
                0 <= i < e.index ==> !is_nan(#[trigger] sample@[i]),
        },
{
    let mut out: Vec<i64> = Vec::new();
    let mut i: usize = 0;
    while i < sample.len()
        invariant
            i <= sample@.len(),
            out@ == keys_of(sample@.take(i as int)),
            forall|j: int| 0 <= j < i ==> !is_nan(#[trigger] sample@[j]),
        decreases sample@.len() - i,
    {
        let bits: u64 = sample[i];
        if not_a_number(bits) {
            return Err(Incomparable { index: i, pattern: bits });
        }
        out.push(key(bits));
        i += 1;
        assert(out@ =~= keys_of(sample@.take(i as int)));
    }
    assert(sample@.take(i as int) =~= sample@);
    Ok(out)
}

/// The quartiles of a sample of numbers, by key.
///
/// A sample of fewer than three values has none, whatever it holds. A longer
/// one is refused if a place of it holds no number. Otherwise the result is
/// the lower and the upper hinge of the sample's keys in ascending order;
/// [`pattern`] gives the number of each key.
pub fn quartiles(sample: &[u64]) -> (r: Result<Option<(Middle, Middle)>, Incomparable>)
    ensures
        match r {
            Ok(None) => sample@.len() < 3,
            Ok(Some(q)) => sample@.len() >= 3 && q == hinge_of(ordered(keys_of(sample@)))
                && forall|i: int| 0 <= i < sample@.len() ==> !is_nan(#[trigger] sample@[i]),
            Err(e) => sample@.len() >= 3 && e.index < sample@.len() && is_nan(
                sample@[e.index as int],
            ) && e.pattern == sample@[e.index as int] && forall|i: int|
                0 <= i < e.index ==> !is_nan(#[trigger] sample@[i]),
        },
{
    if sample.len() < 3 {
        return Ok(None);
    }
    match keys(sample) {
        Err(e) => Err(e),
        Ok(k) => {
            let order = sorted_copy(k.as_slice());
            Ok(Some(hinge(order.as_slice())))
        },
    }
}

/// The values of `sample` that are at least `min` and at most `max`, in the
/// order and as often as `sample` holds them.
///
/// Nothing is kept where a bound stands for no number, and a value that
/// stands for none is never kept.
pub fn keep(sample: &[u64], min: u64, max: u64) -> (out: Vec<u64>)
    ensures
        out@ == sample@.filter(between(min, max)),
        is_subsequence(out@, sample@),
{
    let mut out: Vec<u64> = Vec::new();
    let mut i: usize = 0;
    proof {
        reveal(Seq::filter);
        assert(sample@.take(0) =~= Seq::<u64>::empty());
    }
    while i < sample.len()
        invariant
            i <= sample@.len(),
            out@ == sample@.take(i as int).filter(between(min, max)),
        decreases sample@.len() - i,
    {
        let x: u64 = sample[i];
        proof {
            assert(sample@.take(i + 1) =~= sample@.take(i as int).push(x));
            sample@.take(i as int).lemma_filter_push(x, between(min, max));
        }
        if le(min, x) && le(x, max) {
            out.push(x);
        }
        i += 1;
    }
    proof {
        assert(sample@.take(i as int) =~= sample@);
        lemma_kept_in_order(sample@, min, max);
    }
    out
}

} // verus!
