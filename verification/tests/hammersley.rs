use lds_gen::hammersley::{point, point_centered, points, x_numerator, y_numerator, MAX_SAMPLES};
use lds_gen::GenError;

// The four points of the n = 4 set, as numerators over 2n = 8: the
// x-numerators are the odd numbers 2 rev(i) + 1 for the 2-digit reversals
// rev = 0, 2, 1, 3, and the y-numerators are the odd numbers in order.
#[test]
fn four_sample_set() {
    assert_eq!(point(4, 0), (1, 1));
    assert_eq!(point(4, 1), (5, 3));
    assert_eq!(point(4, 2), (3, 5));
    assert_eq!(point(4, 3), (7, 7));
}

// The same four points as fractions: the values the reference
// construction expects before the recentring offset.
#[test]
fn four_sample_set_fractions() {
    let expected = [(0.125, 0.125), (0.625, 0.375), (0.375, 0.625), (0.875, 0.875)];
    for i in 0..4u64 {
        let (x, y) = point(4, i);
        assert_eq!(x as f64 / 8.0, expected[i as usize].0);
        assert_eq!(y as f64 / 8.0, expected[i as usize].1);
    }
}

#[test]
fn first_index_is_half_bucket() {
    // i = 0 has no set bits, so x = 1/(2n) exactly: numerator 1.
    assert_eq!(x_numerator(2, 0), 1);
    assert_eq!(x_numerator(4, 0), 1);
    assert_eq!(x_numerator(1024, 0), 1);
}

#[test]
fn single_sample() {
    // n = 1: the lone point is the centre of the square.
    assert_eq!(point(1, 0), (1, 1));
    assert_eq!(point_centered(1, 0), (0, 0));
}

#[test]
fn largest_sample_count() {
    // The numerators still fit at the largest accepted n.
    let n = MAX_SAMPLES;
    assert_eq!(x_numerator(n, 0), 1);
    // The highest index reverses to all digits set below the top one.
    assert_eq!(x_numerator(n, n - 1), 2 * n - 1);
    assert_eq!(y_numerator(n, n - 1), 2 * n - 1);
}

#[test]
fn centered_set_recenters_by_half() {
    // Subtracting 1/2 subtracts n from each numerator over 2n.
    assert_eq!(point_centered(4, 0), (-3, -3));
    assert_eq!(point_centered(4, 1), (1, -1));
    assert_eq!(point_centered(4, 2), (-1, 1));
    assert_eq!(point_centered(4, 3), (3, 3));
    assert_eq!(point_centered(4, 0).0 as f64 / 8.0, -0.375);
}

#[test]
fn points_emits_each_index_in_order() {
    let v = points(32).unwrap();
    assert_eq!(v.len(), 32);
    for i in 0..32u64 {
        assert_eq!(v[i as usize], point_centered(32, i));
    }
}

#[test]
fn x_coordinates_are_pairwise_distinct() {
    let n = 64u64;
    let mut seen = vec![false; 2 * n as usize];
    for i in 0..n {
        let x = x_numerator(n, i) as usize;
        assert!(!seen[x]);
        seen[x] = true;
    }
}

#[test]
fn y_strictly_increasing_and_evenly_spaced() {
    let n = 16u64;
    let mut prev = y_numerator(n, 0);
    assert_eq!(prev, 1);
    for i in 1..n {
        let y = y_numerator(n, i);
        assert_eq!(y, prev + 2);
        prev = y;
    }
}

#[test]
fn rejects_zero_samples() {
    assert_eq!(points(0), Err(GenError::ZeroSamples));
}

#[test]
fn rejects_non_power_of_two() {
    assert_eq!(points(6), Err(GenError::NotPowerOfTwo));
    assert_eq!(points(100), Err(GenError::NotPowerOfTwo));
}

#[test]
fn rejects_oversized_count() {
    assert_eq!(points(MAX_SAMPLES + 1), Err(GenError::TooLarge));
    assert_eq!(points(u64::MAX), Err(GenError::TooLarge));
}
