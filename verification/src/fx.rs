//! Fixed-point scalars.
//!
//! Every coordinate, resolution, scale factor and angle in this crate is an
//! [`Fx`]: a signed 64-bit quantity of 2^-32 units, so the represented value
//! is `bits / 2^32`.  All specifications are stated directly over the raw
//! unit count (`Fx::v`), which makes every arithmetic result exact: each
//! operation says precisely which integer it produces, including the floor
//! rounding of multiplication and division and the saturation at the edges
//! of the 64-bit range.

use vstd::prelude::*;
use vstd::arithmetic::div_mod::lemma_fundamental_div_mod_converse_div;

verus! {

/// Number of 2^-32 units in one whole unit.
pub const FX_ONE: i64 = 0x1_0000_0000;

/// A fixed-point number counting 2^-32 units: the value is `bits / 2^32`.
#[derive(Clone, Copy, Debug, PartialEq, Eq, Structural)]
pub struct Fx {
    pub bits: i64,
}

/// `v`, pushed back into the representable range of an `Fx`.
pub open spec fn sat64(v: int) -> int {
    if v > i64::MAX as int {
        i64::MAX as int
    } else if v < i64::MIN as int {
        i64::MIN as int
    } else {
        v
    }
}

/// Unit count of the product of two fixed-point numbers: the exact product,
/// scaled back down with floor rounding, then saturated.
pub open spec fn fmul_v(a: int, b: int) -> int {
    sat64((a * b) / (FX_ONE as int))
}

/// Unit count of the quotient of two fixed-point numbers for a positive
/// divisor: floor of the scaled exact quotient, saturated.
pub open spec fn fdiv_v(a: int, b: int) -> int {
    sat64((a * (FX_ONE as int)) / b)
}

impl Fx {
    /// The raw count of 2^-32 units.
    pub open spec fn v(self) -> int {
        self.bits as int
    }

    /// Builds the number from a raw count of 2^-32 units.
    pub fn from_bits(bits: i64) -> (r: Fx)
        ensures
            r.v() == bits as int,
    {
        Fx { bits }
    }

    /// The raw count of 2^-32 units, as an executable value.
    pub fn to_bits(self) -> (r: i64)
        ensures
            r as int == self.v(),
    {
        self.bits
    }

    /// The whole number `i`.
    pub fn from_int(i: i32) -> (r: Fx)
        ensures
            r.v() == i as int * FX_ONE as int,
    {
        Fx { bits: (i as i64) * FX_ONE }
    }

    /// The closest representation of `num / den` at or below it.
    pub fn from_ratio(num: i64, den: i64) -> (r: Fx)
        requires
            den > 0,
        ensures
            r.v() == sat64((num as int * FX_ONE as int) / (den as int)),
    {
        proof {
            lemma_i64_mul_fits(num as int, FX_ONE as int);
        }
        let scaled: i128 = (num as i128) * (FX_ONE as i128);
        let q = div_floor_i128(scaled, den as i128);
        sat_to_i64(q)
    }

    /// Zero.
    pub fn zero() -> (r: Fx)
        ensures
            r.v() == 0,
    {
        Fx { bits: 0 }
    }

    /// Saturating addition.
    pub fn plus(self, o: Fx) -> (r: Fx)
        ensures
            r.v() == sat64(self.v() + o.v()),
    {
        let s: i128 = (self.bits as i128) + (o.bits as i128);
        sat_to_i64(s)
    }

    /// Saturating subtraction.
    pub fn minus(self, o: Fx) -> (r: Fx)
        ensures
            r.v() == sat64(self.v() - o.v()),
    {
        let s: i128 = (self.bits as i128) - (o.bits as i128);
        sat_to_i64(s)
    }

    /// Saturating negation.
    pub fn neg(self) -> (r: Fx)
        ensures
            r.v() == sat64(-self.v()),
    {
        let s: i128 = -(self.bits as i128);
        sat_to_i64(s)
    }

    /// Fixed-point multiplication: floor rounding, saturating.
    pub fn times(self, o: Fx) -> (r: Fx)
        ensures
            r.v() == fmul_v(self.v(), o.v()),
    {
        proof {
            lemma_i64_mul_fits(self.bits as int, o.bits as int);
        }
        let p: i128 = (self.bits as i128) * (o.bits as i128);
        let q = div_floor_i128(p, FX_ONE as i128);
        sat_to_i64(q)
    }

    /// Fixed-point division by a positive divisor: floor rounding, saturating.
    pub fn div_by(self, o: Fx) -> (r: Fx)
        requires
            o.v() > 0,
        ensures
            r.v() == fdiv_v(self.v(), o.v()),
    {
        proof {
            lemma_i64_mul_fits(self.bits as int, FX_ONE as int);
        }
        let scaled: i128 = (self.bits as i128) * (FX_ONE as i128);
        let q = div_floor_i128(scaled, o.bits as i128);
        sat_to_i64(q)
    }

}

/// `v`, pushed into the range of an `i32`; tile column and row numbers
/// saturate there, as the original float-to-integer conversion does.
pub open spec fn sat32(v: int) -> int {
    if v > i32::MAX as int {
        i32::MAX as int
    } else if v < i32::MIN as int {
        i32::MIN as int
    } else {
        v
    }
}

/// Clamps a wide intermediate into the 32-bit range.
pub fn sat_to_i32(v: i128) -> (r: i32)
    ensures
        r as int == sat32(v as int),
{
    if v > i32::MAX as i128 {
        i32::MAX
    } else if v < i32::MIN as i128 {
        i32::MIN
    } else {
        v as i32
    }
}

/// Bounds of a product of a positive and a nonnegative factor.
pub proof fn lemma_pos_mul_bounds(a: int, b: int, amax: int, bmax: int)
    requires
        0 < a <= amax,
        0 <= b <= bmax,
    ensures
        0 <= a * b <= amax * bmax,
        b >= 1 ==> a * b >= a,
        b >= 1 ==> a * b >= b,
{
    assert(0 <= a * b <= amax * bmax && (b >= 1 ==> a * b >= a) && (b >= 1 ==> a * b >= b))
        by (nonlinear_arith)
        requires
            0 < a <= amax,
            0 <= b <= bmax,
    ;
}

/// The product of two 64-bit quantities stays inside the guard band of the
/// 128-bit divisions below.
pub(crate) proof fn lemma_i64_mul_fits(a: int, b: int)
    requires
        i64::MIN as int <= a <= i64::MAX as int,
        i64::MIN as int <= b <= i64::MAX as int,
    ensures
        -0x4000_0000_0000_0000_0000_0000_0000_0000 <= a * b
            <= 0x4000_0000_0000_0000_0000_0000_0000_0000,
{
    assert(-0x4000_0000_0000_0000_0000_0000_0000_0000 <= a * b
        <= 0x4000_0000_0000_0000_0000_0000_0000_0000) by (nonlinear_arith)
        requires
            -0x8000_0000_0000_0000 <= a <= 0x7FFF_FFFF_FFFF_FFFF,
            -0x8000_0000_0000_0000 <= b <= 0x7FFF_FFFF_FFFF_FFFF,
    ;
}

/// A quotient by a positive divisor lies between the dividend and zero.
proof fn lemma_div_bounds(a: int, b: int)
    requires
        1 <= b,
    ensures
        0 <= a ==> 0 <= a / b <= a,
        a < 0 ==> a <= a / b <= 0,
{
    vstd::arithmetic::div_mod::lemma_fundamental_div_mod(a, b);
    let q = a / b;
    let r = a % b;
    assert(0 <= a ==> 0 <= q <= a) by (nonlinear_arith)
        requires
            a == b * q + r,
            0 <= r < b,
            1 <= b,
    ;
    assert(a < 0 ==> a <= q <= 0) by (nonlinear_arith)
        requires
            a == b * q + r,
            0 <= r < b,
            1 <= b,
    ;
}

/// Clamps a wide intermediate result back into the 64-bit range.
pub fn sat_to_i64(v: i128) -> (r: Fx)
    ensures
        r.v() == sat64(v as int),
{
    if v > i64::MAX as i128 {
        Fx { bits: i64::MAX }
    } else if v < i64::MIN as i128 {
        Fx { bits: i64::MIN }
    } else {
        Fx { bits: v as i64 }
    }
}

/// Floor division of a wide intermediate by a positive divisor.  The bounds
/// keep every internal step inside the 128-bit range; in specifications `/`
/// on `int` is Euclidean division, which is floor division for a positive
/// divisor.
pub fn div_floor_i128(a: i128, b: i128) -> (r: i128)
    requires
        0 < b <= 0x7FFF_FFFF_FFFF_FFFF_FFFF_FFFF_FFFF_FFFEi128,
        -0x7FFF_FFFF_FFFF_FFFF_FFFF_FFFF_FFFF_FFFEi128 <= a
            <= 0x7FFF_FFFF_FFFF_FFFF_FFFF_FFFF_FFFF_FFFEi128,
    ensures
        r == a as int / b as int,
        0 <= a ==> 0 <= r <= a,
        a < 0 ==> a <= r <= 0,
{
    proof {
        lemma_div_bounds(a as int, b as int);
    }
    if a >= 0 {
        let q = (a as u128) / (b as u128);
        q as i128
    } else {
        let na = (-a) as u128;
        let bu = b as u128;
        let q = na / bu;
        let rem = na % bu;
        proof {
            vstd::arithmetic::div_mod::lemma_fundamental_div_mod(na as int, bu as int);
            assert(na as int == -(a as int));
            assert(bu as int == b as int);
            assert(q as int == na as int / bu as int);
            assert(rem as int == na as int % bu as int);
            assert(na as int == bu as int * (q as int) + rem as int);
        }
        if rem == 0 {
            proof {
                assert(a as int == (-(q as int)) * (b as int) + 0) by (nonlinear_arith)
                    requires
                        na as int == bu as int * (q as int),
                        na as int == -(a as int),
                        bu as int == b as int,
                ;
                lemma_fundamental_div_mod_converse_div(a as int, b as int, -(q as int), 0);
            }
            -(q as i128)
        } else {
            proof {
                assert(a as int == (-(q as int) - 1) * (b as int) + (b as int - rem as int))
                    by (nonlinear_arith)
                    requires
                        na as int == bu as int * (q as int) + rem as int,
                        na as int == -(a as int),
                        bu as int == b as int,
                ;
                lemma_fundamental_div_mod_converse_div(
                    a as int,
                    b as int,
                    -(q as int) - 1,
                    b as int - rem as int,
                );
            }
            -(q as i128) - 1
        }
    }
}

/// The integer square root, by the halving recursion the executable code
/// runs: the root of `n` is twice the root of `n / 4`, corrected up by one
/// where that still fits (the division test `n / (h + 1) >= h + 1` is the
/// overflow-free form of `(h + 1)^2 <= n`).
pub open spec fn spec_isqrt(n: nat) -> nat
    decreases n,
{
    if n == 0 {
        0
    } else {
        let h = 2 * spec_isqrt(n / 4);
        if n / (h + 1) >= h + 1 {
            h + 1
        } else {
            h
        }
    }
}

/// For a positive divisor, the division test says exactly that the square
/// fits under `n`.
proof fn lemma_div_test_is_square_le(n: int, c: int)
    requires
        0 <= n,
        1 <= c,
    ensures
        (n / c >= c) <==> (c * c <= n),
{
    vstd::arithmetic::div_mod::lemma_fundamental_div_mod(n, c);
    let q = n / c;
    let r = n % c;
    assert((q >= c) <==> (c * c <= n)) by (nonlinear_arith)
        requires
            n == c * q + r,
            0 <= r < c,
            1 <= c,
            0 <= n,
    ;
}

/// The integer square root brackets its argument between consecutive
/// squares.
pub proof fn lemma_isqrt_bounds(n: nat)
    ensures
        spec_isqrt(n) * spec_isqrt(n) <= n,
        n < (spec_isqrt(n) + 1) * (spec_isqrt(n) + 1),
    decreases n,
{
    if n == 0 {
        assert(spec_isqrt(n) == 0);
        assert(spec_isqrt(n) * spec_isqrt(n) == 0) by (nonlinear_arith)
            requires
                spec_isqrt(n) == 0,
        ;
    } else {
        lemma_isqrt_bounds(n / 4);
        let s = spec_isqrt(n / 4) as int;
        let h: int = 2 * s;
        let q: int = n as int / 4;
        vstd::arithmetic::div_mod::lemma_fundamental_div_mod(n as int, 4);
        lemma_div_test_is_square_le(n as int, h + 1);
        assert(h * h <= 4 * q) by (nonlinear_arith)
            requires
                s * s <= q,
                h == 2 * s,
        ;
        assert((h + 2) * (h + 2) >= 4 * q + 4) by (nonlinear_arith)
            requires
                q < (s + 1) * (s + 1),
                h == 2 * s,
        ;
        assert(4 * q <= n as int && (n as int) < 4 * q + 4);
        let r = spec_isqrt(n) as int;
        assert(spec_isqrt(n) == if n / ((h + 1) as nat) >= (h + 1) as nat {
            ((h + 1) as nat)
        } else {
            (h as nat)
        });
        if n as int / (h + 1) >= h + 1 {
            assert(r == h + 1);
            assert(r * r <= n as int);
            assert((r + 1) * (r + 1) == (h + 2) * (h + 2)) by (nonlinear_arith)
                requires
                    r == h + 1,
            ;
            assert(n < (r + 1) * (r + 1));
        } else {
            assert(r == h);
            assert(r * r <= n as int);
            assert(n < (r + 1) * (r + 1));
        }
        assert(spec_isqrt(n) * spec_isqrt(n) == r * r);
        assert((spec_isqrt(n) + 1) * (spec_isqrt(n) + 1) == (r + 1) * (r + 1));
    }
}

/// The integer square root of a wide intermediate.
pub fn isqrt_u128(n: u128) -> (r: u128)
    ensures
        r == spec_isqrt(n as nat),
        r * r <= n,
    decreases n,
{
    proof {
        lemma_isqrt_bounds(n as nat);
    }
    if n == 0 {
        0
    } else {
        let s = isqrt_u128(n / 4);
        proof {
            lemma_isqrt_bounds((n / 4) as nat);
            assert(s <= 0x8000_0000_0000_0000u128) by (nonlinear_arith)
                requires
                    s * s <= n / 4,
                    n / 4 < 0x4000_0000_0000_0000_0000_0000_0000_0000u128,
            ;
        }
        let h = 2 * s;
        let c = h + 1;
        if n / c >= c {
            c
        } else {
            h
        }
    }
}

/// Ceiling division of a wide intermediate by a positive divisor.
pub fn div_ceil_i128(a: i128, b: i128) -> (r: i128)
    requires
        0 < b <= 0x7FFF_FFFF_FFFF_FFFF_FFFF_FFFF_FFFF_FFFEi128,
        -0x7FFF_FFFF_FFFF_FFFF_FFFF_FFFF_FFFF_FFFEi128 <= a
            <= 0x7FFF_FFFF_FFFF_FFFF_FFFF_FFFF_FFFF_FFFEi128,
    ensures
        r == -((-a as int) / b as int),
        0 <= a ==> 0 <= r <= a,
        a < 0 ==> a <= r <= 0,
{
    let down = div_floor_i128(-a, b);
    -down
}

} // verus!
