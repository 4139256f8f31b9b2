//! The smoothing kernel: an integer square root, the Spiky kernel and
//! its normalization factors, and the magnitude bounds that keep every
//! kernel-weighted sum in range.

use vstd::prelude::*;

use crate::fixed::{fx_div_spec, fx_mul_spec, trunc_div};

verus! {

/// The circle constant in fixed-point units.
pub const PI_FX: i64 = 3_141_593;

/// The floor of the square root of a nonnegative integer.
pub open spec fn sqrt_floor(n: int) -> int
    decreases n,
{
    if n <= 0 {
        0
    } else {
        let s = sqrt_floor(n - 1);
        if (s + 1) * (s + 1) <= n {
            s + 1
        } else {
            s
        }
    }
}

/// The defining property of the integer square root.
pub proof fn lemma_sqrt_floor(n: int)
    requires
        n >= 0,
    ensures
        sqrt_floor(n) >= 0,
        sqrt_floor(n) * sqrt_floor(n) <= n,
        (sqrt_floor(n) + 1) * (sqrt_floor(n) + 1) > n,
    decreases n,
{
    if n > 0 {
        lemma_sqrt_floor(n - 1);
        let s = sqrt_floor(n - 1);
        assert(s * s <= n - 1);
        if (s + 1) * (s + 1) <= n {
            assert((s + 1) * (s + 1) > n - 1);
            assert((s + 2) * (s + 2) > n) by (nonlinear_arith)
                requires
                    s >= 0 && (s + 1) * (s + 1) >= n,
            ;
        } else {
        }
    }
}

/// The integer square root is never negative, whatever its argument.
pub proof fn lemma_sqrt_nonneg(n: int)
    ensures
        sqrt_floor(n) >= 0,
    decreases n,
{
    if n > 0 {
        lemma_sqrt_nonneg(n - 1);
    }
}

/// Any value bracketing `n` the same way is that square root.
pub proof fn lemma_sqrt_unique(n: int, r: int)
    requires
        n >= 0,
        r >= 0,
        r * r <= n,
        (r + 1) * (r + 1) > n,
    ensures
        r == sqrt_floor(n),
{
    lemma_sqrt_floor(n);
    let s = sqrt_floor(n);
    if r < s {
        assert((r + 1) * (r + 1) <= s * s) by (nonlinear_arith)
            requires
                0 <= r && r + 1 <= s,
        ;
    }
    if r > s {
        assert((s + 1) * (s + 1) <= r * r) by (nonlinear_arith)
            requires
                0 <= s && s + 1 <= r,
        ;
    }
}

/// Computes the floor square root by bisection.
pub fn isqrt(n: u128) -> (r: u64)
    requires
        n as int <= 0x1_0000_0000_0000_0000_0000_0000_0000i128 as int,
    ensures
        r as int == sqrt_floor(n as int),
{
    let mut lo: u128 = 0;
    let mut hi: u128 = 0x1_0000_0000_0000_0000u128;
    proof {
        assert(0x1_0000_0000_0000_0000u128 as int * 0x1_0000_0000_0000_0000u128 as int
            > n as int) by (nonlinear_arith)
            requires
                n as int <= 0x1_0000_0000_0000_0000_0000_0000_0000i128 as int,
        ;
    }
    while lo + 1 < hi
        invariant
            0 <= lo < hi,
            hi <= 0x1_0000_0000_0000_0000u128,
            lo as int * lo as int <= n as int,
            hi as int * hi as int > n as int,
        decreases hi - lo,
    {
        let mid: u128 = lo + (hi - lo) / 2;
        proof {
            assert(mid < hi);
            assert(mid as int * mid as int <= 0xffff_ffff_ffff_ffffu128 as int
                * 0xffff_ffff_ffff_ffffu128 as int) by (nonlinear_arith)
                requires
                    0 <= mid as int <= 0xffff_ffff_ffff_ffffu128 as int,
            ;
        }
        if mid * mid <= n {
            lo = mid;
        } else {
            hi = mid;
        }
    }
    proof {
        lemma_sqrt_unique(n as int, lo as int);
    }
    lo as u64
}

/// The fixed-point length of a squared fixed-point distance: the root of
/// the raw, unscaled square.
pub open spec fn dist_of_d2(d2: int) -> int
    recommends
        d2 >= 0,
{
    sqrt_floor(d2 * 1_000_000)
}

/// `h^2` in fixed point.
pub open spec fn h2_of(h: int) -> int {
    fx_mul_spec(h, h)
}

/// `h^3` in fixed point.
pub open spec fn h3_of(h: int) -> int {
    fx_mul_spec(h2_of(h), h)
}

/// `h^6` in fixed point.
pub open spec fn h6_of(h: int) -> int {
    fx_mul_spec(h3_of(h), h3_of(h))
}

/// `pi * h^6` in fixed point.
pub open spec fn pih6_of(h: int) -> int {
    fx_mul_spec(PI_FX as int, h6_of(h))
}

/// The Spiky kernel normalization `15 / (pi h^6)`.
pub open spec fn spiky_factor_of(h: int) -> int {
    fx_div_spec(15_000_000, pih6_of(h))
}

/// The Spiky gradient magnitude factor `45 / (pi h^6)`.
pub open spec fn spiky_grad_factor_of(h: int) -> int {
    fx_div_spec(45_000_000, pih6_of(h))
}

/// A fixed-point cube.
pub open spec fn cube_spec(d: int) -> int {
    fx_mul_spec(fx_mul_spec(d, d), d)
}

/// The Spiky kernel at distance `dist` from the center: the cubed
/// remaining reach, scaled by the normalization; zero past the reach.
pub open spec fn spiky_w_spec(dist: int, h: int) -> int {
    if dist >= h {
        0
    } else {
        fx_mul_spec(spiky_factor_of(h), cube_spec(h - dist))
    }
}

/// The admissible smoothing radius window.
pub open spec fn h_in_range(h: int) -> bool {
    100_000 <= h <= 10_000_000
}

/// Ranges of the derived kernel quantities over the radius window.
pub proof fn lemma_kernel_ranges(h: int)
    requires
        h_in_range(h),
    ensures
        10_000 <= h2_of(h) <= 100_000_000,
        1_000 <= h3_of(h) <= 1_000_000_000,
        1 <= h6_of(h) <= 1_000_000_000_000,
        3 <= pih6_of(h) <= 3_141_593_000_000,
        0 <= spiky_factor_of(h) <= 5_000_000_000_000,
        0 <= spiky_grad_factor_of(h) <= 15_000_000_000_000,
{
    let h2 = h2_of(h);
    let h3 = h3_of(h);
    let h6 = h6_of(h);
    let pih6 = pih6_of(h);
    assert(h2 == h * h / 1_000_000 && h * h >= 0) by (nonlinear_arith)
        requires
            h >= 0 && h2 == fx_mul_spec(h, h),
    ;
    assert(10_000 <= h2 <= 100_000_000) by (nonlinear_arith)
        requires
            100_000 <= h <= 10_000_000 && h2 == h * h / 1_000_000,
    ;
    assert(h3 == h2 * h / 1_000_000 && h2 * h >= 0) by (nonlinear_arith)
        requires
            h >= 0 && h2 >= 0 && h3 == fx_mul_spec(h2, h),
    ;
    assert(1_000 <= h3 <= 1_000_000_000) by (nonlinear_arith)
        requires
            100_000 <= h <= 10_000_000 && 10_000 <= h2 <= 100_000_000 && h3 == h2 * h
                / 1_000_000,
    ;
    assert(h6 == h3 * h3 / 1_000_000 && h3 * h3 >= 0) by (nonlinear_arith)
        requires
            h3 >= 0 && h6 == fx_mul_spec(h3, h3),
    ;
    assert(1 <= h6 <= 1_000_000_000_000) by (nonlinear_arith)
        requires
            1_000 <= h3 <= 1_000_000_000 && h6 == h3 * h3 / 1_000_000,
    ;
    assert(pih6 == 3_141_593 * h6 / 1_000_000 && 3_141_593 * h6 >= 0) by (nonlinear_arith)
        requires
            h6 >= 0 && pih6 == fx_mul_spec(3_141_593, h6),
    ;
    assert(3 <= pih6 <= 3_141_593_000_000) by (nonlinear_arith)
        requires
            1 <= h6 <= 1_000_000_000_000 && pih6 == 3_141_593 * h6 / 1_000_000,
    ;
    assert(spiky_factor_of(h) == trunc_div(15_000_000int * 1_000_000, pih6));
    assert(0 <= 15_000_000_000_000int / pih6 <= 5_000_000_000_000) by (nonlinear_arith)
        requires
            3 <= pih6,
    ;
    assert(spiky_grad_factor_of(h) == trunc_div(45_000_000int * 1_000_000, pih6));
    assert(0 <= 45_000_000_000_000int / pih6 <= 15_000_000_000_000) by (nonlinear_arith)
        requires
            3 <= pih6,
    ;
}

/// The key anti-correlation: the normalization shrinks as fast as the
/// reach grows, so one kernel evaluation never exceeds a fixed bound.
pub proof fn lemma_kernel_value_bounds(h: int, dist: int)
    requires
        h_in_range(h),
        dist >= 0,
    ensures
        0 <= spiky_w_spec(dist, h) <= 10_000_000_000,
{
    lemma_kernel_ranges(h);
    if dist < h {
        let h3 = h3_of(h);
        let h6 = h6_of(h);
        let pih6 = pih6_of(h);
        let f = spiky_factor_of(h);
        let d = h - dist;
        let c = cube_spec(d);
        assert(0 <= c <= h3) by {
            let dd = fx_mul_spec(d, d);
            assert(0 <= dd <= h2_of(h)) by (nonlinear_arith)
                requires
                    0 < d <= h && dd == d * d / 1_000_000 && h2_of(h) == h * h / 1_000_000 && h
                        <= 10_000_000,
            ;
            assert(0 <= c <= h3) by (nonlinear_arith)
                requires
                    0 <= dd <= h2_of(h) && 0 < d <= h && c == dd * d / 1_000_000 && h3 == h2_of(h)
                        * h / 1_000_000 && h2_of(h) >= 0,
            ;
        }
        // 2e6 * h6 >= h3 * h3
        assert(2_000_000 * h6 >= h3 * h3) by (nonlinear_arith)
            requires
                1_000 <= h3 && h6 == h3 * h3 / 1_000_000,
        ;
        // f <= 15e12 / pih6 and pih6 >= 3 * h6
        assert(pih6 >= 3 * h6) by (nonlinear_arith)
            requires
                h6 >= 1 && pih6 == 3_141_593 * h6 / 1_000_000,
        ;
        assert(f <= 15_000_000_000_000int / pih6) by {
            assert(spiky_factor_of(h) == trunc_div(15_000_000int * 1_000_000, pih6));
        }
        // combine: f * h3 <= 1e19 / h3 <= 1e16, so w <= 1e10
        let w = fx_mul_spec(f, c);
        assert(w == f * c / 1_000_000 && f * c >= 0) by (nonlinear_arith)
            requires
                f >= 0 && c >= 0 && w == fx_mul_spec(f, c),
        ;
        assert(f * c <= 10_000_000_000_000_000) by (nonlinear_arith)
            requires
                0 <= c <= h3 && 0 <= f && f <= 15_000_000_000_000int / pih6 && pih6 >= 3 * h6
                    && 2_000_000 * h6 >= h3 * h3 && h3 >= 1_000 && h6 >= 1 && pih6 >= 3,
        ;
        assert(0 <= w <= 10_000_000_000) by (nonlinear_arith)
            requires
                0 <= f * c <= 10_000_000_000_000_000 && w == f * c / 1_000_000,
        ;
    }
}

/// The matching bound for the gradient magnitude at any reach.
pub proof fn lemma_grad_value_bound(h: int, d: int)
    requires
        h_in_range(h),
        0 <= d <= h,
    ensures
        0 <= fx_mul_spec(spiky_grad_factor_of(h), fx_mul_spec(d, d)) <= 400_000_000_000,
{
    lemma_kernel_ranges(h);
    let h2 = h2_of(h);
    let h3 = h3_of(h);
    let h6 = h6_of(h);
    let pih6 = pih6_of(h);
    let gf = spiky_grad_factor_of(h);
    let dd = fx_mul_spec(d, d);
    assert(0 <= dd <= h2) by (nonlinear_arith)
        requires
            0 <= d <= h && dd == d * d / 1_000_000 && h2 == h * h / 1_000_000 && h >= 0,
    ;
    // h3 >= h2 / 11
    assert(11 * h3 >= h2) by (nonlinear_arith)
        requires
            h2 >= 10_000 && h3 == h2 * h / 1_000_000 && h >= 100_000,
    ;
    assert(2_000_000 * h6 >= h3 * h3) by (nonlinear_arith)
        requires
            1_000 <= h3 && h6 == h3 * h3 / 1_000_000,
    ;
    assert(pih6 >= 3 * h6) by (nonlinear_arith)
        requires
            h6 >= 1 && pih6 == 3_141_593 * h6 / 1_000_000,
    ;
    assert(gf <= 45_000_000_000_000int / pih6) by {
        assert(spiky_grad_factor_of(h) == trunc_div(45_000_000int * 1_000_000, pih6));
    }
    let gw = fx_mul_spec(gf, dd);
    assert(gw == gf * dd / 1_000_000 && gf * dd >= 0) by (nonlinear_arith)
        requires
            gf >= 0 && dd >= 0 && gw == fx_mul_spec(gf, dd),
    ;
    // gf * dd <= 45e12 * h2 / (3 * h3^2 / 2e6) = 3e19 * h2 / h3^2
    //         <= 3e19 * 121 / h2 <= 4e17 (h2 >= 1e4)
    assert(gf * dd <= 400_000_000_000_000_000) by (nonlinear_arith)
        requires
            0 <= dd <= h2 && 0 <= gf && gf <= 45_000_000_000_000int / pih6 && pih6 >= 3 * h6
                && 2_000_000 * h6 >= h3 * h3 && 11 * h3 >= h2 && h3 >= 1_000 && h2 >= 10_000
                && h6 >= 1 && pih6 >= 3,
    ;
    assert(0 <= gw <= 400_000_000_000) by (nonlinear_arith)
        requires
            0 <= gf * dd <= 400_000_000_000_000_000 && gw == gf * dd / 1_000_000,
    ;
}

} // verus!
