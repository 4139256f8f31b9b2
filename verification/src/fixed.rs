//! Fixed-point scalars.
//!
//! Every physical quantity in this crate is an integer number of millionths
//! of a unit: a length of `1_500_000` is 1.5 units. Products and quotients
//! are computed exactly on wide integers and then truncated toward zero,
//! so the behaviour of every arithmetic step is pinned down to the last
//! millionth.

use vstd::prelude::*;

verus! {

/// Fixed-point units per whole unit.
pub const SCALE: i64 = 1_000_000;

/// `SCALE` as a mathematical integer.
pub open spec fn fx_scale() -> int {
    1_000_000
}

/// Magnitude of a mathematical integer.
pub open spec fn fx_abs(a: int) -> int {
    if a >= 0 {
        a
    } else {
        -a
    }
}

/// Quotient rounded toward zero, for a positive divisor.
pub open spec fn trunc_div(p: int, q: int) -> int
    recommends
        q > 0,
{
    if p >= 0 {
        p / q
    } else {
        -((-p) / q)
    }
}

/// Quotient rounded toward zero, for any nonzero divisor.
pub open spec fn trunc_ratio(p: int, q: int) -> int
    recommends
        q != 0,
{
    if q > 0 {
        trunc_div(p, q)
    } else {
        trunc_div(-p, -q)
    }
}

/// The fixed-point product: `a * b` rescaled back to millionths.
pub open spec fn fx_mul_spec(a: int, b: int) -> int {
    trunc_div(a * b, fx_scale())
}

/// The fixed-point quotient: `a / b` carried out in millionths.
pub open spec fn fx_div_spec(a: int, b: int) -> int
    recommends
        b != 0,
{
    trunc_ratio(a * fx_scale(), b)
}

/// Clamping to a closed interval.
pub open spec fn fx_clamp_spec(v: int, lo: int, hi: int) -> int
    recommends
        lo <= hi,
{
    if v < lo {
        lo
    } else if v > hi {
        hi
    } else {
        v
    }
}

/// A three-component vector of fixed-point scalars.
///
/// The fourth padding component that device-side layouts carry is not
/// represented: it never holds data.
#[derive(Clone, Copy, Debug, PartialEq, Eq, Structural)]
pub struct Vec3Fx {
    pub x: i64,
    pub y: i64,
    pub z: i64,
}

impl Vec3Fx {
    /// The zero vector.
    pub fn zero() -> (v: Vec3Fx)
        ensures
            v == (Vec3Fx { x: 0, y: 0, z: 0 }),
    {
        Vec3Fx { x: 0, y: 0, z: 0 }
    }

    /// Builds a vector from its components.
    pub fn new(x: i64, y: i64, z: i64) -> (v: Vec3Fx)
        ensures
            v == (Vec3Fx { x, y, z }),
    {
        Vec3Fx { x, y, z }
    }

    /// True when every component lies in `[-limit, limit]`.
    pub open spec fn bounded(self, limit: int) -> bool {
        fx_abs(self.x as int) <= limit && fx_abs(self.y as int) <= limit && fx_abs(
            self.z as int,
        ) <= limit
    }
}

/// A three-component vector of wide fixed-point scalars, used for solver
/// scratch whose intermediate magnitudes exceed 64 bits.
#[derive(Clone, Copy, Debug, PartialEq, Eq, Structural)]
pub struct Vec3Wide {
    pub x: i128,
    pub y: i128,
    pub z: i128,
}

impl Vec3Wide {
    /// The zero vector.
    pub fn zero() -> (v: Vec3Wide)
        ensures
            v == (Vec3Wide { x: 0, y: 0, z: 0 }),
    {
        Vec3Wide { x: 0, y: 0, z: 0 }
    }
}

/// Magnitude of an `i64`, exact even at `i64::MIN`.
pub fn abs_u128_of_i64(a: i64) -> (r: u128)
    ensures
        r as int == fx_abs(a as int),
{
    if a >= 0 {
        a as u128
    } else {
        (-(a as i128)) as u128
    }
}

/// Magnitude of an `i128`; the extreme value `i128::MIN` is excluded.
pub fn abs_u128_of_i128(a: i128) -> (r: u128)
    requires
        a as int > i128::MIN as int,
    ensures
        r as int == fx_abs(a as int),
{
    if a >= 0 {
        a as u128
    } else {
        (-a) as u128
    }
}

pub proof fn lemma_abs_mul(a: int, b: int)
    ensures
        fx_abs(a * b) == fx_abs(a) * fx_abs(b),
{
    assert(fx_abs(a * b) == fx_abs(a) * fx_abs(b)) by (nonlinear_arith);
}

proof fn lemma_trunc_div_magnitude(p: int, q: int)
    requires
        q > 0,
    ensures
        fx_abs(trunc_div(p, q)) == fx_abs(p) / q,
        fx_abs(trunc_div(p, q)) <= fx_abs(p),
        p >= 0 ==> trunc_div(p, q) >= 0,
        p <= 0 ==> trunc_div(p, q) <= 0,
{
    if p >= 0 {
        assert(p / q >= 0) by (nonlinear_arith)
            requires
                p >= 0 && q > 0,
        ;
        assert(p / q <= p) by (nonlinear_arith)
            requires
                p >= 0 && q > 0,
        ;
    } else {
        assert((-p) / q >= 0) by (nonlinear_arith)
            requires
                p < 0 && q > 0,
        ;
        assert((-p) / q <= -p) by (nonlinear_arith)
            requires
                p < 0 && q > 0,
        ;
    }
}

proof fn lemma_fx_mul_shape(a: int, b: int, am: int, bm: int, q: int)
    requires
        am == fx_abs(a),
        bm == fx_abs(b),
        q == (am * bm) / 1_000_000,
    ensures
        q >= 0,
        fx_abs(fx_mul_spec(a, b)) == q,
        a * b >= 0 ==> fx_mul_spec(a, b) == q,
        a * b <= 0 ==> fx_mul_spec(a, b) == -q,
        (a >= 0) == (b >= 0) ==> a * b >= 0,
        (a >= 0) != (b >= 0) ==> a * b <= 0,
{
    lemma_abs_mul(a, b);
    lemma_trunc_div_magnitude(a * b, 1_000_000);
    assert((a >= 0) == (b >= 0) ==> a * b >= 0) by (nonlinear_arith);
    assert((a >= 0) != (b >= 0) ==> a * b <= 0) by (nonlinear_arith);
}

/// The fixed-point product of two `i64` values.
pub fn fx_mul(a: i64, b: i64) -> (r: i64)
    requires
        i64::MIN as int <= fx_mul_spec(a as int, b as int) <= i64::MAX as int,
    ensures
        r as int == fx_mul_spec(a as int, b as int),
{
    let neg: bool = (a < 0) != (b < 0);
    let am: u128 = abs_u128_of_i64(a);
    let bm: u128 = abs_u128_of_i64(b);
    proof {
        assert(am as int * bm as int <= 0x8000_0000_0000_0000 * 0x8000_0000_0000_0000) by (nonlinear_arith)
            requires
                0 <= am as int <= 0x8000_0000_0000_0000 && 0 <= bm as int
                    <= 0x8000_0000_0000_0000,
        ;
    }
    let q: u128 = (am * bm) / 1_000_000u128;
    proof {
        lemma_fx_mul_shape(a as int, b as int, am as int, bm as int, q as int);
    }
    if neg {
        (-(q as i128)) as i64
    } else {
        q as i64
    }
}

/// The fixed-point product of two `i128` values.
pub fn fx_mul_wide(a: i128, b: i128) -> (r: i128)
    requires
        a as int > i128::MIN as int,
        b as int > i128::MIN as int,
        fx_abs(a as int * b as int) <= i128::MAX as int,
    ensures
        r as int == fx_mul_spec(a as int, b as int),
{
    let neg: bool = (a < 0) != (b < 0);
    let am: u128 = abs_u128_of_i128(a);
    let bm: u128 = abs_u128_of_i128(b);
    proof {
        lemma_abs_mul(a as int, b as int);
        assert(am as int * bm as int == fx_abs(a as int * b as int));
    }
    let q: u128 = (am * bm) / 1_000_000u128;
    proof {
        lemma_fx_mul_shape(a as int, b as int, am as int, bm as int, q as int);
    }
    if neg {
        -(q as i128)
    } else {
        q as i128
    }
}

/// The fixed-point quotient of two `i64` values.
pub fn fx_div(a: i64, b: i64) -> (r: i64)
    requires
        b != 0,
        i64::MIN as int <= fx_div_spec(a as int, b as int) <= i64::MAX as int,
    ensures
        r as int == fx_div_spec(a as int, b as int),
{
    let neg: bool = (a < 0) != (b < 0);
    let am: u128 = abs_u128_of_i64(a);
    let bm: u128 = abs_u128_of_i64(b);
    let q: u128 = (am * 1_000_000u128) / bm;
    proof {
        lemma_fx_div_shape(a as int, b as int, am as int, bm as int, q as int);
    }
    if neg {
        (-(q as i128)) as i64
    } else {
        q as i64
    }
}

/// The fixed-point quotient of two `i128` values, for dividends up to
/// `10^32` in magnitude.
pub fn fx_div_wide(a: i128, b: i128) -> (r: i128)
    requires
        b != 0,
        fx_abs(a as int) <= 100_000_000_000_000_000_000_000_000_000_000i128 as int,
        b as int > i128::MIN as int,
    ensures
        r as int == fx_div_spec(a as int, b as int),
        fx_abs(r as int) <= fx_abs(a as int) * fx_scale(),
{
    let neg: bool = (a < 0) != (b < 0);
    let am: u128 = abs_u128_of_i128(a);
    let bm: u128 = abs_u128_of_i128(b);
    let q: u128 = (am * 1_000_000u128) / bm;
    proof {
        assert(q as int <= am as int * 1_000_000) by (nonlinear_arith)
            requires
                bm as int >= 1 && q as int == (am as int * 1_000_000) / bm as int && am as int
                    >= 0,
        ;
        lemma_fx_div_shape(a as int, b as int, am as int, bm as int, q as int);
    }
    if neg {
        -(q as i128)
    } else {
        q as i128
    }
}

proof fn lemma_fx_div_shape(a: int, b: int, am: int, bm: int, q: int)
    requires
        b != 0,
        am == fx_abs(a),
        bm == fx_abs(b),
        q == (am * 1_000_000) / bm,
    ensures
        fx_abs(fx_div_spec(a, b)) == q,
        q >= 0,
        ((a >= 0) == (b >= 0)) ==> fx_div_spec(a, b) == q,
        ((a >= 0) != (b >= 0)) ==> fx_div_spec(a, b) == -q,
{
    lemma_abs_mul(a, 1_000_000);
    assert(q >= 0) by (nonlinear_arith)
        requires
            bm >= 1 && q == (am * 1_000_000) / bm && am >= 0,
    ;
    if b > 0 {
        lemma_trunc_div_magnitude(a * 1_000_000, b);
        assert(fx_abs(a * 1_000_000) / b == q);
        if a >= 0 {
            assert(a * 1_000_000 >= 0) by (nonlinear_arith)
                requires
                    a >= 0,
            ;
        } else {
            assert(a * 1_000_000 < 0) by (nonlinear_arith)
                requires
                    a < 0,
            ;
        }
    } else {
        lemma_trunc_div_magnitude(-(a * 1_000_000), -b);
        assert(fx_abs(-(a * 1_000_000)) == fx_abs(a * 1_000_000));
        if a >= 0 {
            assert(a * 1_000_000 >= 0) by (nonlinear_arith)
                requires
                    a >= 0,
            ;
        } else {
            assert(a * 1_000_000 < 0) by (nonlinear_arith)
                requires
                    a < 0,
            ;
        }
    }
}

/// The magnitude of a truncating ratio.
pub proof fn lemma_trunc_ratio_magnitude(p: int, q: int)
    requires
        q > 0,
    ensures
        fx_abs(trunc_ratio(p, q)) == fx_abs(p) / q,
{
    lemma_trunc_div_magnitude(p, q);
}

/// Rescaling keeps the sign.
pub proof fn lemma_trunc_div_sign(p: int)
    ensures
        p >= 0 ==> trunc_div(p, 1_000_000) >= 0,
        p <= 0 ==> trunc_div(p, 1_000_000) <= 0,
{
    lemma_trunc_div_magnitude(p, 1_000_000);
}

/// A magnitude bound on the fixed-point product.
pub proof fn lemma_fx_mul_bound(a: int, b: int, aa: int, bb: int)
    requires
        fx_abs(a) <= aa,
        fx_abs(b) <= bb,
    ensures
        fx_abs(fx_mul_spec(a, b)) <= aa * bb / fx_scale(),
        fx_abs(fx_mul_spec(a, b)) <= aa * bb,
{
    lemma_abs_mul(a, b);
    lemma_trunc_div_magnitude(a * b, fx_scale());
    assert(fx_abs(a) * fx_abs(b) <= aa * bb) by (nonlinear_arith)
        requires
            0 <= fx_abs(a) <= aa && 0 <= fx_abs(b) <= bb,
    ;
    vstd::arithmetic::div_mod::lemma_div_is_ordered(fx_abs(a * b), aa * bb, fx_scale());
    assert(aa * bb / fx_scale() <= aa * bb) by (nonlinear_arith)
        requires
            aa * bb >= 0,
    ;
}

/// A magnitude bound on the fixed-point quotient.
pub proof fn lemma_fx_div_bound(a: int, b: int)
    requires
        b != 0,
    ensures
        fx_abs(fx_div_spec(a, b)) <= fx_abs(a) * fx_scale(),
        fx_abs(b) >= fx_scale() ==> fx_abs(fx_div_spec(a, b)) <= fx_abs(a),
{
    lemma_abs_mul(a, 1_000_000);
    let n = a * 1_000_000;
    let bm = fx_abs(b);
    if b > 0 {
        lemma_trunc_div_magnitude(n, b);
    } else {
        lemma_trunc_div_magnitude(-n, -b);
        assert(fx_abs(-n) == fx_abs(n));
        assert(fx_abs(trunc_div(-n, -b)) == fx_abs(n) / bm);
    }
    assert(fx_abs(fx_div_spec(a, b)) == fx_abs(n) / bm);
    assert(fx_abs(n) / bm <= fx_abs(n)) by (nonlinear_arith)
        requires
            bm >= 1 && fx_abs(n) >= 0,
    ;
    if bm >= 1_000_000 {
        vstd::arithmetic::div_mod::lemma_div_is_ordered_by_denominator(fx_abs(n), 1_000_000, bm);
        vstd::arithmetic::div_mod::lemma_div_multiples_vanish(fx_abs(a), 1_000_000);
        assert(fx_abs(n) == 1_000_000 * fx_abs(a));
    }
}

/// Clamps an `i64` into `[lo, hi]`.
pub fn fx_clamp(v: i64, lo: i64, hi: i64) -> (r: i64)
    requires
        lo <= hi,
    ensures
        r as int == fx_clamp_spec(v as int, lo as int, hi as int),
        lo <= r <= hi,
{
    if v < lo {
        lo
    } else if v > hi {
        hi
    } else {
        v
    }
}

/// Floor of `pos / grid`: the grid-cell coordinate holding `pos`.
///
/// Rounds toward negative infinity, matching the mathematical floor that
/// quantization into cells requires.
pub fn floor_div(pos: i64, grid: i64) -> (r: i64)
    requires
        grid > 0,
    ensures
        r as int == pos as int / grid as int,
        fx_abs(r as int) <= fx_abs(pos as int),
{
    if pos >= 0 {
        let q: u128 = (pos as u128) / (grid as u128);
        proof {
            assert(q as int <= pos as int) by (nonlinear_arith)
                requires
                    q as int == pos as int / grid as int && pos >= 0 && grid as int >= 1,
            ;
        }
        q as i64
    } else {
        let pm: u128 = abs_u128_of_i64(pos);
        let g: u128 = grid as u128;
        let q: u128 = (pm + g - 1) / g;
        proof {
            lemma_floor_div_negative(pos as int, grid as int, pm as int, q as int);
        }
        (-(q as i128)) as i64
    }
}

proof fn lemma_floor_div_negative(p: int, g: int, pm: int, q: int)
    requires
        p < 0,
        g > 0,
        pm == -p,
        q == (pm + g - 1) / g,
    ensures
        -q == p / g,
        q <= pm,
{
    let d = pm / g;
    let m = pm % g;
    vstd::arithmetic::div_mod::lemma_fundamental_div_mod(pm, g);
    vstd::arithmetic::div_mod::lemma_mod_bound(pm, g);
    vstd::arithmetic::div_mod::lemma_div_pos_is_pos(pm, g);
    if m == 0 {
        assert(q == d) by {
            assert(pm + g - 1 == g * d + (g - 1));
            vstd::arithmetic::div_mod::lemma_div_multiples_vanish_fancy(d, g - 1, g);
        }
        assert(p == g * (-d)) by (nonlinear_arith)
            requires
                pm == g * d + m && m == 0 && pm == -p,
        ;
        vstd::arithmetic::div_mod::lemma_div_multiples_vanish(-d, g);
        assert(p / g == -d);
    } else {
        assert(q == d + 1) by {
            assert(pm + g - 1 == g * (d + 1) + (m - 1)) by (nonlinear_arith)
                requires
                    pm == g * d + m,
            ;
            vstd::arithmetic::div_mod::lemma_div_multiples_vanish_fancy(d + 1, m - 1, g);
        }
        assert(p == g * (-(d + 1)) + (g - m)) by (nonlinear_arith)
            requires
                pm == g * d + m && pm == -p,
        ;
        assert(p / g == -(d + 1)) by {
            vstd::arithmetic::div_mod::lemma_div_multiples_vanish_fancy(-(d + 1), g - m, g);
        }
    }
    assert(q <= pm) by (nonlinear_arith)
        requires
            pm == g * d + m && 0 <= m < g && g >= 1 && d >= 0 && pm >= 1 && (q == d || q == d + 1)
                && (q == d + 1 ==> m >= 1),
    ;
}

} // verus!
