use boids::fixed::div_trunc_i64;
use boids::fixed::isqrt;
use boids::fixed::mul_div;

#[test]
fn isqrt_small_values() {
    assert_eq!(isqrt(0), 0);
    assert_eq!(isqrt(1), 1);
    assert_eq!(isqrt(2), 1);
    assert_eq!(isqrt(3), 1);
    assert_eq!(isqrt(4), 2);
    assert_eq!(isqrt(8), 2);
    assert_eq!(isqrt(9), 3);
    assert_eq!(isqrt(624), 24);
    assert_eq!(isqrt(625), 25);
}

#[test]
fn isqrt_large_values() {
    assert_eq!(isqrt(10_000_000_000), 100_000);
    assert_eq!(isqrt(1_600_000_000), 40_000);
    assert_eq!(isqrt(u64::MAX), 4_294_967_295);
}

#[test]
fn div_trunc_rounds_toward_zero() {
    assert_eq!(div_trunc_i64(7, 2), 3);
    assert_eq!(div_trunc_i64(-7, 2), -3);
    assert_eq!(div_trunc_i64(-3000, 60), -50);
    assert_eq!(div_trunc_i64(3000, 60), 50);
    assert_eq!(div_trunc_i64(0, 5), 0);
}

#[test]
fn mul_div_matches_truncating_quotient() {
    assert_eq!(mul_div(-40_000, 1_000_000, 1_600_000_000), -25);
    assert_eq!(mul_div(40_000, 1_000_000, 1_600_000_000), 25);
    assert_eq!(mul_div(-100_000, 2_000, 100_000), -2_000);
    assert_eq!(mul_div(-2_000, 1_500, 1_000), -3_000);
}
