use prediction_core::math::conservative_round;
use prediction_core::math::discretized_l1_distance;
use prediction_core::math::discretized_l2_sq;
use prediction_core::math::effective_liquidity;
use prediction_core::math::exp_neg;
use prediction_core::math::gauss_pdf;
use prediction_core::math::isqrt;
use prediction_core::math::phi_cdf_as;
use prediction_core::math::HALF_SCALE;
use prediction_core::math::SCALE;

#[test]
fn isqrt_exact_and_floor() {
    assert_eq!(isqrt(0), 0);
    assert_eq!(isqrt(1), 1);
    assert_eq!(isqrt(3), 1);
    assert_eq!(isqrt(4), 2);
    assert_eq!(isqrt(400), 20);
    assert_eq!(isqrt(u64::MAX), 4_294_967_295);
}

#[test]
fn exp_neg_reference_points() {
    assert_eq!(exp_neg(0), SCALE);
    // e^-1 = 0.367879..., e^-0.5 = 0.606530...
    assert_eq!(exp_neg(1_000_000), 367_879);
    assert_eq!(exp_neg(500_000), 606_531);
    assert_eq!(exp_neg(28_000_000), 0);
    assert_eq!(exp_neg(u64::MAX), 0);
}

#[test]
fn gauss_pdf_zero_for_nonpositive_sigma() {
    assert_eq!(gauss_pdf(123, 456, 0), 0);
    assert_eq!(gauss_pdf(123, 456, -1_000_000), 0);
    assert_eq!(gauss_pdf(0, 0, i64::MIN), 0);
}

#[test]
fn gauss_pdf_reference_points() {
    // Standard normal density at 0 is 0.3989422...
    assert_eq!(gauss_pdf(0, 0, 1_000_000), 398_942);
    // ... and at 1 it is 0.2419707...
    assert_eq!(gauss_pdf(1_000_000, 0, 1_000_000), 241_970);
    // Far in the tail the density is below one fixed-point unit.
    assert_eq!(gauss_pdf(20_000_000, 0, 1_000_000), 0);
    // Symmetric around the mean.
    assert_eq!(
        gauss_pdf(3_500_000, 3_000_000, 2_000_000),
        gauss_pdf(2_500_000, 3_000_000, 2_000_000)
    );
}

#[test]
fn phi_cdf_reference_points() {
    assert_eq!(phi_cdf_as(0), HALF_SCALE);
    // Phi(1) = 0.8413447...
    assert_eq!(phi_cdf_as(1_000_000), 841_346);
    // Phi(1.96) = 0.9750021...
    assert_eq!(phi_cdf_as(1_960_000), 975_003);
    assert_eq!(phi_cdf_as(9_000_000), SCALE);
    assert_eq!(phi_cdf_as(-9_000_000), 0);
}

#[test]
fn phi_cdf_symmetry_holds_pointwise() {
    let samples: Vec<i64> = vec![
        0,
        1,
        -1,
        250_000,
        1_000_000,
        1_960_000,
        3_141_592,
        7_999_999,
        8_000_000,
        123_456_789,
    ];
    for z in samples {
        assert_eq!(phi_cdf_as(z) + phi_cdf_as(-z), SCALE, "z = {}", z);
    }
}

#[test]
fn conservative_round_floors_and_ceils() {
    assert_eq!(conservative_round(0), 0);
    assert_eq!(conservative_round(2_500_000), 2);
    assert_eq!(conservative_round(2_999_999), 2);
    assert_eq!(conservative_round(3_000_000), 3);
    assert_eq!(conservative_round(-2_500_000), -2);
    assert_eq!(conservative_round(-2_000_001), -2);
    assert_eq!(conservative_round(-2_000_000), -2);
    assert_eq!(conservative_round(999_999), 0);
    assert_eq!(conservative_round(-999_999), 0);
}

#[test]
fn effective_liquidity_static_passthrough() {
    assert_eq!(effective_liquidity(1_000, false, 0, 0), 1_000);
    assert_eq!(effective_liquidity(0, false, 100, 5), 0);
    assert_eq!(effective_liquidity(u64::MAX, false, -50, 50), u64::MAX);
}

#[test]
fn effective_liquidity_dynamic_grows_with_time_left() {
    // 400 seconds to expiry: sqrt(400) = 20.
    assert_eq!(effective_liquidity(1_000, true, 500, 100), 20_000);
    // At or past expiry the time floor of one second keeps it at l0.
    assert_eq!(effective_liquidity(1_000, true, 100, 100), 1_000);
    assert_eq!(effective_liquidity(1_000, true, 100, 500), 1_000);
    // Never below l0, capped at a million times l0.
    let capped = effective_liquidity(1_000, true, 4_000_000_000_000_000_000, 0);
    assert_eq!(capped, 1_000_000_000);
    assert!(effective_liquidity(7, true, i64::MAX, i64::MIN) >= 7);
}

#[test]
fn discretized_distances_zero_on_degenerate_stepping() {
    let f: Vec<i64> = vec![1_000_000, 2_000_000];
    let g: Vec<i64> = vec![3_000_000, 5_000_000];
    assert_eq!(discretized_l1_distance(0, 10, 0, &f, &g), 0);
    assert_eq!(discretized_l1_distance(0, 10, -5, &f, &g), 0);
    assert_eq!(discretized_l1_distance(10, 10, 1, &f, &g), 0);
    assert_eq!(discretized_l1_distance(11, 10, 1, &f, &g), 0);
    assert_eq!(discretized_l2_sq(0, 10, 0, &f, &g), 0);
    assert_eq!(discretized_l2_sq(0, 10, -5, &f, &g), 0);
    assert_eq!(discretized_l2_sq(10, 10, 1, &f, &g), 0);
}

#[test]
fn discretized_distances_zero_for_equal_curves() {
    let f: Vec<i64> = vec![5, -7, 123_456, 0, 99];
    let g: Vec<i64> = f.clone();
    assert_eq!(discretized_l1_distance(-2_000_000, 2_000_000, 1_000_000, &f, &g), 0);
    assert_eq!(discretized_l2_sq(-2_000_000, 2_000_000, 1_000_000, &f, &g), 0);
}

#[test]
fn discretized_l1_exact_sum() {
    // Grid 0, 1.0, 2.0; |g - f| = 1.0 at each point; step 1.0.
    let f: Vec<i64> = vec![0, 0, 0];
    let g: Vec<i64> = vec![1_000_000, 1_000_000, 1_000_000];
    assert_eq!(discretized_l1_distance(0, 2_000_000, 1_000_000, &f, &g), 3_000_000);
    // A grid that outruns the samples stops at the samples.
    assert_eq!(discretized_l1_distance(0, 9_000_000, 1_000_000, &f, &g), 3_000_000);
    // A sample vector that outruns the grid stops at the grid.
    assert_eq!(discretized_l1_distance(0, 1_000_000, 1_000_000, &f, &g), 2_000_000);
}

#[test]
fn discretized_l2_exact_sum() {
    let f: Vec<i64> = vec![0, 0, 0];
    let g: Vec<i64> = vec![1_000_000, 1_000_000, 1_000_000];
    // (1.0)^2 * 1.0 at three points = 3.0 in squared-density units.
    assert_eq!(discretized_l2_sq(0, 2_000_000, 1_000_000, &f, &g), 3_000_000_000_000);
}
