use lds_gen::lp::{generate, matrix_row, point, point_centered, points, MatrixKind, MAX_SAMPLES};
use lds_gen::GenError;

const LP: MatrixKind = MatrixKind::LarcherPillichshammer;
const VDC: MatrixKind = MatrixKind::VanDerCorput;

// The first indices of the net with the matrix whose row p is !0u32 << p:
// index 0 selects no row, index 1 selects row 0, index 2 selects row 1,
// and index 3 XORs the two.
#[test]
fn first_rows_of_the_net() {
    assert_eq!(generate(0, LP), 0);
    assert_eq!(generate(1, LP), 0xFFFF_FFFF);
    assert_eq!(generate(2, LP), 0xFFFF_FFFE);
    assert_eq!(generate(3, LP), 0xFFFF_FFFF ^ 0xFFFF_FFFE);
    assert_eq!(generate(3, LP), 1);
}

#[test]
fn net_fractions() {
    // x = fold / 2^32: index 1 lands just below 1, index 2 slightly lower.
    let x1 = generate(1, LP) as f64 / 4294967296.0;
    let x2 = generate(2, LP) as f64 / 4294967296.0;
    assert!(x1 > 0.999_999_999_7);
    assert!(x1 < 1.0);
    assert!(x2 < x1);
    assert_eq!(generate(0, LP) as f64 / 4294967296.0, 0.0);
}

#[test]
fn matrix_rows() {
    assert_eq!(matrix_row(LP, 0), 0xFFFF_FFFF);
    assert_eq!(matrix_row(LP, 31), 0x8000_0000);
    assert_eq!(matrix_row(LP, 4), 0xFFFF_FFF0);
    assert_eq!(matrix_row(VDC, 0), 1);
    assert_eq!(matrix_row(VDC, 31), 0x8000_0000);
}

#[test]
fn van_der_corput_matrix_is_identity() {
    // With row p = 1 << p, the fold of k reassembles k itself.
    for k in [0u32, 1, 2, 5, 0b1010, 1000, u32::MAX] {
        assert_eq!(generate(k, VDC), k);
    }
}

#[test]
fn generate_is_deterministic() {
    for k in [0u32, 1, 7, 12345] {
        assert_eq!(generate(k, LP), generate(k, LP));
    }
}

#[test]
fn point_pairs_fold_with_index() {
    assert_eq!(point(4, 0, LP), (0, 0));
    assert_eq!(point(4, 1, LP), (0xFFFF_FFFF, 1));
    assert_eq!(point(4, 2, LP), (0xFFFF_FFFE, 2));
    assert_eq!(point(4, 3, LP), (1, 3));
}

#[test]
fn centered_point_applies_offset() {
    // n = 4: the offset (1 - n)/(2n) = -0.375 is -1610612736 over 2^32.
    assert_eq!(point_centered(4, 0, LP), (-1610612736, -3));
    assert_eq!(point_centered(4, 0, LP).0 as f64 / 4294967296.0, -0.375);
    assert_eq!(point_centered(4, 0, LP).1 as f64 / 8.0, -0.375);
    assert_eq!(point_centered(4, 1, LP), (0xFFFF_FFFFi64 - 1610612736, -1));
    assert_eq!(point_centered(4, 2, LP), (0xFFFF_FFFEi64 - 1610612736, 1));
    assert_eq!(point_centered(4, 3, LP), (1 - 1610612736, 3));
}

#[test]
fn net_emits_each_index_in_order() {
    let v = points(32, LP).unwrap();
    assert_eq!(v.len(), 32);
    for i in 0..32u32 {
        assert_eq!(v[i as usize], point_centered(32, i, LP));
    }
}

#[test]
fn y_strictly_increasing() {
    let v = points(16, LP).unwrap();
    for i in 1..16usize {
        assert!(v[i - 1].1 < v[i].1);
    }
}

#[test]
fn net_rejects_zero_samples() {
    assert_eq!(points(0, LP), Err(GenError::ZeroSamples));
}

#[test]
fn net_rejects_non_power_of_two() {
    assert_eq!(points(6, LP), Err(GenError::NotPowerOfTwo));
    assert_eq!(points(33, VDC), Err(GenError::NotPowerOfTwo));
}

#[test]
fn net_rejects_oversized_count() {
    assert_eq!(points(MAX_SAMPLES + 1, LP), Err(GenError::TooLarge));
    assert_eq!(points(u32::MAX, LP), Err(GenError::TooLarge));
}
