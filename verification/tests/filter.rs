use tukeyized::fence::{keep, Fence};
use tukeyized::hinge::hinge;
use tukeyized::median::{middle, Middle};
use tukeyized::order::sorted_copy;
use tukeyized::tukey::{quartiles, trim};
use tukeyized::Tukey;

#[test]
fn removes_both_extremes_and_keeps_the_rest_in_place() {
    let values: Vec<i64> = vec![1, 6, 3, 8888, 3, 2, 8, -19292];
    assert_eq!(values.tukeyize(), vec![1, 6, 3, 3, 2, 8]);
    assert_eq!(values.as_slice().tukeyize(), vec![1, 6, 3, 3, 2, 8]);
    assert_eq!(trim(&values), vec![1, 6, 3, 3, 2, 8]);
}

#[test]
fn leaves_the_sample_untouched() {
    let values: Vec<i64> = vec![1, 6, 3, 8888, 3, 2, 8, -19292];
    let before = values.clone();
    let _ = values.tukeyize();
    assert_eq!(values, before);
}

#[test]
fn quartiles_of_eight_values_are_means_of_pairs() {
    let values: Vec<i64> = vec![1, 6, 3, 8888, 3, 2, 8, -19292];
    assert_eq!(quartiles(&values), Some((Middle::Two(1, 2), Middle::Two(6, 8))));
}

#[test]
fn samples_below_three_values_have_no_quartiles() {
    assert_eq!(quartiles(&[]), None);
    assert_eq!(quartiles(&[5]), None);
    assert_eq!(quartiles(&[5, 900]), None);
    assert_eq!(quartiles(&[5, 900, 7]), Some((Middle::One(5), Middle::One(900))));
}

#[test]
fn short_samples_come_back_whole() {
    let none: Vec<i64> = Vec::new();
    assert_eq!(none.tukeyize(), none);
    assert_eq!(vec![65i64].tukeyize(), vec![65]);
    assert_eq!(vec![7i64, -3].tukeyize(), vec![7, -3]);
    assert_eq!(vec![i64::MAX, i64::MIN].tukeyize(), vec![i64::MAX, i64::MIN]);
}

#[test]
fn constant_sample_comes_back_whole() {
    let values: Vec<i64> = vec![42, 42, 42, 42, 42];
    assert_eq!(values.tukeyize(), values);
    let three: Vec<i64> = vec![-7, -7, -7];
    assert_eq!(three.tukeyize(), three);
}

#[test]
fn coinciding_quartiles_keep_only_their_own_value() {
    let values: Vec<i64> = vec![1, 5, 5, 5, 5, 5, 9];
    assert_eq!(quartiles(&values), Some((Middle::One(5), Middle::One(5))));
    assert_eq!(values.tukeyize(), vec![5, 5, 5, 5, 5]);
}

#[test]
fn values_on_a_fence_are_kept() {
    let on: Vec<i64> = vec![4, 7, 2, 2, -1, 4, 2, 4];
    assert_eq!(quartiles(&on), Some((Middle::Two(2, 2), Middle::Two(4, 4))));
    assert_eq!(on.tukeyize(), on);
    let off: Vec<i64> = vec![4, 8, 2, 2, -2, 4, 2, 4];
    assert_eq!(quartiles(&off), Some((Middle::Two(2, 2), Middle::Two(4, 4))));
    assert_eq!(off.tukeyize(), vec![4, 2, 2, 4, 2, 4]);
}

#[test]
fn fences_between_integers_are_exact() {
    // Quartiles 2 and 13/2: the fences are -19/4 and 53/4.
    let fence = Fence::around(Middle::One(2), Middle::Two(6, 7));
    assert_eq!(fence, Fence { min_x4: -19, max_x4: 53 });
    assert!(!fence.holds(-5));
    assert!(fence.holds(-4));
    assert!(fence.holds(13));
    assert!(!fence.holds(14));
    assert_eq!(keep(&[14, 13, -5, -4, 0, 14], &fence), vec![13, -4, 0]);
}

#[test]
fn fence_without_spread_is_the_quartile() {
    let fence = Fence::around(Middle::Two(3, 4), Middle::Two(3, 4));
    assert_eq!(fence, Fence { min_x4: 14, max_x4: 14 });
    assert!(!fence.holds(3));
    assert!(!fence.holds(4));
    let whole = Fence::around(Middle::One(-6), Middle::Two(-6, -6));
    assert!(whole.holds(-6));
    assert!(!whole.holds(-5));
    assert!(!whole.holds(-7));
}

#[test]
fn widest_values_do_not_overflow() {
    let values: Vec<i64> = vec![i64::MAX, 0, i64::MIN, 0, 0];
    assert_eq!(
        quartiles(&values),
        Some((Middle::Two(i64::MIN, 0), Middle::Two(0, i64::MAX)))
    );
    assert_eq!(values.tukeyize(), values);
    assert_eq!(Middle::Two(i64::MAX, i64::MAX).twice(), 2 * (i64::MAX as i128));
    assert_eq!(Middle::One(i64::MIN).twice(), 2 * (i64::MIN as i128));
    let far: Vec<i64> = vec![i64::MAX, 1, 2, i64::MIN, 3, 4, 5, 6];
    assert_eq!(far.tukeyize(), vec![1, 2, 3, 4, 5, 6]);
}

#[test]
fn kept_values_keep_their_order_and_their_number() {
    let values: Vec<i64> = vec![9, 1, 9, 1000, 3, 3, 9, -1000, 1, 3];
    assert_eq!(values.tukeyize(), vec![9, 1, 9, 3, 3, 9, 1, 3]);
}

#[test]
fn result_depends_on_the_sample_alone() {
    let values: Vec<i64> = vec![10, -4, 10, 5000, 7, 2, -5000, 8, 3];
    let first = values.tukeyize();
    let copy = values.clone();
    assert_eq!(copy.tukeyize(), first);
    assert_eq!(values.tukeyize(), first);
}

#[test]
fn middle_of_odd_and_even_runs() {
    assert_eq!(middle(&[4]), Middle::One(4));
    assert_eq!(middle(&[4, 9]), Middle::Two(4, 9));
    assert_eq!(middle(&[1, 2, 30]), Middle::One(2));
    assert_eq!(middle(&[1, 2, 30, 31]), Middle::Two(2, 30));
    assert_eq!(middle(&[1, 2, 3, 4, 5, 6, 7]), Middle::One(4));
}

#[test]
fn hinges_leave_out_the_centre_of_an_odd_sample() {
    assert_eq!(hinge(&[1, 2, 3]), (Middle::One(1), Middle::One(3)));
    assert_eq!(hinge(&[1, 2, 3, 4]), (Middle::Two(1, 2), Middle::Two(3, 4)));
    assert_eq!(hinge(&[1, 2, 3, 4, 5]), (Middle::Two(1, 2), Middle::Two(4, 5)));
    assert_eq!(hinge(&[1, 2, 3, 4, 5, 6]), (Middle::One(2), Middle::One(5)));
    assert_eq!(hinge(&[1, 2, 3, 4, 5, 6, 7]), (Middle::One(2), Middle::One(6)));
}

#[test]
fn sorted_copy_holds_the_same_values_in_ascending_order() {
    let values: Vec<i64> = vec![3, -1, 3, 0, i64::MIN, 12, i64::MAX, -1];
    assert_eq!(
        sorted_copy(&values),
        vec![i64::MIN, -1, -1, 0, 3, 3, 12, i64::MAX]
    );
    assert_eq!(sorted_copy(&[]), Vec::<i64>::new());
    assert_eq!(sorted_copy(&[2, 1]), vec![1, 2]);
    let mut state: u64 = 12345;
    let mut many: Vec<i64> = Vec::new();
    for _ in 0..1000 {
        state = state.wrapping_mul(6364136223846793005).wrapping_add(1442695040888963407);
        many.push((state >> 40) as i64 - 8_000_000);
    }
    let mut expected = many.clone();
    expected.sort();
    assert_eq!(sorted_copy(&many), expected);
}

#[test]
fn result_holds_only_values_of_the_sample_and_no_more_of_them() {
    let mut state: u64 = 7;
    for round in 0..60usize {
        let mut values: Vec<i64> = Vec::new();
        for _ in 0..(round % 17) {
            state = state.wrapping_mul(6364136223846793005).wrapping_add(1442695040888963407);
            let x = (state >> 33) as i64 % 100;
            values.push(if x < 3 { x * 1_000_000 - 1_500_000 } else { x });
        }
        let result = values.tukeyize();
        assert!(result.len() <= values.len());
        // Each value of the result is found in the sample, to the right of
        // the place where the one before it was found.
        let mut from: usize = 0;
        for x in result.iter() {
            let found = values[from..].iter().position(|y| y == x);
            assert!(found.is_some());
            from += found.unwrap() + 1;
        }
    }
}

#[test]
fn kept_values_are_the_inliers() {
    let values: Vec<i64> = vec![12, 15, 11, 300, 14, 13, -300, 16, 12, 15, 14];
    let (q1, q3) = quartiles(&values).unwrap();
    let fence = Fence::around(q1, q3);
    let expected: Vec<i64> = values.iter().copied().filter(|x| fence.holds(*x)).collect();
    assert_eq!(values.tukeyize(), expected);
    assert_eq!(expected, vec![12, 15, 11, 14, 13, 16, 12, 15, 14]);
}
