//! Fixed-point arithmetic: truncating division and integer square root.
//!
//! The simulation stores every world quantity as an `i64` number of sub-units,
//! with [`SCALE`] sub-units per world unit. All rounding throughout the crate
//! is truncation toward zero, written down once here as [`div_trunc`].

use vstd::prelude::*;

verus! {

use vstd::arithmetic::div_mod::lemma_div_nonincreasing;
use vstd::arithmetic::div_mod::lemma_div_pos_is_pos;
use vstd::arithmetic::div_mod::lemma_div_is_ordered;
use vstd::arithmetic::div_mod::lemma_div_multiples_vanish;

/// Number of fixed-point sub-units per world unit.
pub const SCALE: i64 = 1000;

/// Division rounding toward zero, the rounding used by all simulation
/// arithmetic (the mathematical `/` rounds toward negative infinity).
pub open spec fn div_trunc(a: int, b: int) -> int
    recommends
        b > 0,
{
    if a >= 0 {
        a / b
    } else {
        -((-a) / b)
    }
}

/// Truncating division is an odd function of the dividend.
pub proof fn lemma_div_trunc_neg(a: int, b: int)
    requires
        b > 0,
    ensures
        div_trunc(-a, b) == -div_trunc(a, b),
{
    if a == 0 {
        vstd::arithmetic::div_mod::lemma_div_of0(b);
    }
}

/// The magnitude of a truncated quotient never exceeds the magnitude bound of
/// the dividend.
pub proof fn lemma_div_trunc_bound(a: int, b: int, m: int)
    requires
        b > 0,
        -m <= a <= m,
        0 <= m,
    ensures
        -m <= div_trunc(a, b) <= m,
{
    if a >= 0 {
        lemma_div_pos_is_pos(a, b);
        lemma_div_nonincreasing(a, b);
    } else {
        lemma_div_pos_is_pos(-a, b);
        lemma_div_nonincreasing(-a, b);
    }
}

/// If the dividend is at most `q * t` in magnitude, the truncated quotient by
/// `q` is at most `t` in magnitude.
pub proof fn lemma_div_trunc_mul_bound(p: int, q: int, t: int)
    requires
        q >= 1,
        t >= 0,
        -(q * t) <= p <= q * t,
    ensures
        -t <= div_trunc(p, q) <= t,
{
    lemma_div_multiples_vanish(t, q);
    if p >= 0 {
        lemma_div_pos_is_pos(p, q);
        lemma_div_is_ordered(p, q * t, q);
    } else {
        lemma_div_pos_is_pos(-p, q);
        lemma_div_is_ordered(-p, q * t, q);
    }
}

/// Truncating division of `i64` values.
pub fn div_trunc_i64(a: i64, b: i64) -> (r: i64)
    requires
        b > 0,
        a > i64::MIN,
    ensures
        r == div_trunc(a as int, b as int),
{
    if a >= 0 {
        let q: u64 = (a as u64) / (b as u64);
        proof {
            lemma_div_pos_is_pos(a as int, b as int);
            lemma_div_nonincreasing(a as int, b as int);
        }
        q as i64
    } else {
        let q: u64 = ((-a) as u64) / (b as u64);
        proof {
            lemma_div_pos_is_pos(-(a as int), b as int);
            lemma_div_nonincreasing(-(a as int), b as int);
        }
        -(q as i64)
    }
}

/// Truncating division of `i128` values.
fn div_trunc_i128(a: i128, b: i128) -> (r: i128)
    requires
        b > 0,
        a > i128::MIN,
    ensures
        r == div_trunc(a as int, b as int),
{
    if a >= 0 {
        let q: u128 = (a as u128) / (b as u128);
        proof {
            lemma_div_pos_is_pos(a as int, b as int);
            lemma_div_nonincreasing(a as int, b as int);
        }
        q as i128
    } else {
        let q: u128 = ((-a) as u128) / (b as u128);
        proof {
            lemma_div_pos_is_pos(-(a as int), b as int);
            lemma_div_nonincreasing(-(a as int), b as int);
        }
        -(q as i128)
    }
}

/// `(a * m) / d`, rounded toward zero, computed without intermediate overflow.
pub fn mul_div(a: i64, m: i64, d: i64) -> (r: i64)
    requires
        d > 0,
        -(i64::MAX as int) <= div_trunc(a as int * m as int, d as int) <= i64::MAX as int,
    ensures
        r == div_trunc(a as int * m as int, d as int),
{
    proof {
        assert(-(i128::MAX as int) <= a as int * m as int <= i128::MAX as int)
            by (nonlinear_arith)
            requires
                -(i64::MAX as int) - 1 <= a <= i64::MAX as int,
                -(i64::MAX as int) - 1 <= m <= i64::MAX as int,
        ;
    }
    let p: i128 = (a as i128) * (m as i128);
    let q: i128 = div_trunc_i128(p, d as i128);
    q as i64
}

/// The mathematical integer square root, defined by counting up.
pub open spec fn isqrt_spec(n: nat) -> nat
    decreases n,
{
    if n == 0 {
        0
    } else {
        let r: nat = isqrt_spec((n - 1) as nat);
        if (r + 1) * (r + 1) <= n {
            r + 1
        } else {
            r
        }
    }
}

/// `isqrt_spec(n)` is the floor of the real square root of `n`.
pub proof fn lemma_isqrt_spec(n: nat)
    ensures
        isqrt_spec(n) * isqrt_spec(n) <= n,
        n < (isqrt_spec(n) + 1) * (isqrt_spec(n) + 1),
    decreases n,
{
    if n > 0 {
        lemma_isqrt_spec((n - 1) as nat);
        let r: nat = isqrt_spec((n - 1) as nat);
        assert(r * r <= n - 1);
        assert(n - 1 < (r + 1) * (r + 1));
        if (r + 1) * (r + 1) <= n {
            assert(isqrt_spec(n) == r + 1);
            assert(n < (r + 1 + 1) * (r + 1 + 1)) by (nonlinear_arith)
                requires
                    n <= (r + 1) * (r + 1),
                    r >= 0,
            ;
            assert(isqrt_spec(n) * isqrt_spec(n) <= n);
            assert(n < (isqrt_spec(n) + 1) * (isqrt_spec(n) + 1));
        } else {
            assert(isqrt_spec(n) == r);
            assert(isqrt_spec(n) * isqrt_spec(n) <= n);
            assert(n < (isqrt_spec(n) + 1) * (isqrt_spec(n) + 1));
        }
    } else {
        assert(n == 0);
        assert(isqrt_spec(n) == 0);
        assert(isqrt_spec(n) * isqrt_spec(n) <= n);
        assert((isqrt_spec(n) + 1) * (isqrt_spec(n) + 1) == 1) by (nonlinear_arith)
            requires
                isqrt_spec(n) == 0,
        ;
        assert(n < (isqrt_spec(n) + 1) * (isqrt_spec(n) + 1));
    }
}

/// Any value meeting the floor-square-root characterization is `isqrt_spec`.
pub proof fn lemma_isqrt_unique(n: nat, r: nat)
    requires
        r * r <= n,
        n < (r + 1) * (r + 1),
    ensures
        r == isqrt_spec(n),
{
    lemma_isqrt_spec(n);
    let s: nat = isqrt_spec(n);
    if r < s {
        assert((r + 1) * (r + 1) <= s * s) by (nonlinear_arith)
            requires
                r + 1 <= s,
                r >= 0,
        ;
    }
    if s < r {
        assert((s + 1) * (s + 1) <= r * r) by (nonlinear_arith)
            requires
                s + 1 <= r,
                s >= 0,
        ;
    }
}

/// Integer square root of a `u64`, rounded down.
pub fn isqrt(n: u64) -> (r: u64)
    ensures
        r == isqrt_spec(n as nat),
        r as int * r as int <= n as int,
        (n as int) < (r as int + 1) * (r as int + 1),
{
    let mut lo: u64 = 0;
    let mut hi: u64 = 0x1_0000_0000;
    proof {
        assert((0x1_0000_0000int + 1) * (0x1_0000_0000int + 1) > u64::MAX as int);
    }
    while lo < hi
        invariant
            lo <= hi <= 0x1_0000_0000,
            lo as int * lo as int <= n as int,
            (n as int) < (hi as int + 1) * (hi as int + 1),
        decreases hi - lo,
    {
        let mid: u64 = lo + (hi - lo + 1) / 2;
        proof {
            assert(mid as int * mid as int <= 0x1_0000_0000int * 0x1_0000_0000int)
                by (nonlinear_arith)
                requires
                    0 <= mid <= 0x1_0000_0000int,
            ;
        }
        let sq: u128 = (mid as u128) * (mid as u128);
        if sq <= n as u128 {
            lo = mid;
        } else {
            hi = mid - 1;
        }
    }
    proof {
        lemma_isqrt_unique(n as nat, lo as nat);
    }
    lo
}

/// A coordinate is never larger in magnitude than the length of its vector.
pub proof fn lemma_comp_le_len(x: int, y: int)
    ensures
        -(isqrt_spec((x * x + y * y) as nat) as int) <= x
            <= isqrt_spec((x * x + y * y) as nat) as int,
        -(isqrt_spec((x * x + y * y) as nat) as int) <= y
            <= isqrt_spec((x * x + y * y) as nat) as int,
{
    let n: nat = (x * x + y * y) as nat;
    assert(x * x + y * y >= x * x >= 0 && x * x + y * y >= y * y >= 0) by (nonlinear_arith);
    lemma_isqrt_spec(n);
    let r: int = isqrt_spec(n) as int;
    assert((r + 1) * (r + 1) == r * r + r + r + 1) by (nonlinear_arith);
    if x > r {
        assert(x * x > r * r + r + r) by (nonlinear_arith)
            requires
                x > r >= 0,
        ;
        assert(false);
    }
    if x < -r {
        assert(x * x > r * r + r + r) by (nonlinear_arith)
            requires
                -x > r >= 0,
        ;
        assert(false);
    }
    if y > r {
        assert(y * y > r * r + r + r) by (nonlinear_arith)
            requires
                y > r >= 0,
        ;
        assert(false);
    }
    if y < -r {
        assert(y * y > r * r + r + r) by (nonlinear_arith)
            requires
                -y > r >= 0,
        ;
        assert(false);
    }
}

} // verus!
