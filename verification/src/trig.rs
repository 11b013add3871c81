//! Trusted boundary to the CORDIC trigonometric routines.
//!
//! The viewport's rotation entries are sines and cosines of fixed-point
//! angles.  They are computed by the `cordic` crate over
//! `fixed::types::I32F32`, whose bit layout is exactly the unit count of an
//! [`crate::fx::Fx`]: 2^-32 units, so the conversions below move bits
//! unchanged.  Each result is a function of the angle alone, named by an
//! uninterpreted spec function; everything computed from these values is
//! verified against those names.

use vstd::prelude::*;

verus! {

/// The sine of an angle counted in 2^-32 radians, in 2^-32 units.
pub uninterp spec fn sin_of(angle: int) -> int;

/// The cosine of an angle counted in 2^-32 radians, in 2^-32 units.
pub uninterp spec fn cos_of(angle: int) -> int;

/// The arc-cosine of a 2^-32 unit value, in 2^-32 radians.
pub uninterp spec fn acos_of(v: int) -> int;

/// Relies on `cordic::sin` over `fixed::types::I32F32`: the sine of the
/// angle, computed from the angle alone.
#[verifier::external_body]
pub(crate) fn sin_fx(angle: i64) -> (r: i64)
    ensures
        r as int == sin_of(angle as int),
{
    cordic::sin(fixed::types::I32F32::from_bits(angle)).to_bits()
}

/// Relies on `cordic::cos` over `fixed::types::I32F32`: the cosine of the
/// angle, computed from the angle alone.
#[verifier::external_body]
pub(crate) fn cos_fx(angle: i64) -> (r: i64)
    ensures
        r as int == cos_of(angle as int),
{
    cordic::cos(fixed::types::I32F32::from_bits(angle)).to_bits()
}

/// Relies on `cordic::acos` over `fixed::types::I32F32`: the arc-cosine of
/// the value, computed from the value alone.  The bound keeps the
/// argument inside the range where the CORDIC iteration's fixed-point
/// arithmetic cannot overflow.
#[verifier::external_body]
pub(crate) fn acos_fx(v: i64) -> (r: i64)
    requires
        -0x4_0000_0000 <= v <= 0x4_0000_0000,
    ensures
        r as int == acos_of(v as int),
{
    cordic::acos(fixed::types::I32F32::from_bits(v)).to_bits()
}

} // verus!
