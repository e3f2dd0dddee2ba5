//! IEEE 754 arithmetic on bit patterns.
//!
//! The machine stores single- and double-precision numbers as their bit
//! patterns (see [`crate::value::Value`]).  The four arithmetic operations
//! on those patterns are delegated to the `rustc_apfloat` software
//! floating-point library, with the default IEEE 754 rounding (to nearest,
//! ties to even).  What a rounded operation returns takes pages to state,
//! but it is a function of the operand bits alone, so each operation's
//! result is given a name here and the engine's contracts speak of that
//! name.  The sign classification of a result — all the flag logic needs —
//! is decided by the bits themselves and is defined and verified below.

use vstd::prelude::*;

use rustc_apfloat::Float;

verus! {

pub uninterp spec fn f32_add_bits(l: u32, r: u32) -> u32;

pub uninterp spec fn f32_sub_bits(l: u32, r: u32) -> u32;

pub uninterp spec fn f32_mul_bits(l: u32, r: u32) -> u32;

pub uninterp spec fn f32_div_bits(l: u32, r: u32) -> u32;

pub uninterp spec fn f64_add_bits(l: u64, r: u64) -> u64;

pub uninterp spec fn f64_sub_bits(l: u64, r: u64) -> u64;

pub uninterp spec fn f64_mul_bits(l: u64, r: u64) -> u64;

pub uninterp spec fn f64_div_bits(l: u64, r: u64) -> u64;

/// Relies on rustc_apfloat's `ieee::Single` addition, rounding to nearest
/// even: the result depends on the operand bits alone.
#[verifier::external_body]
pub(crate) fn f32_add(l: u32, r: u32) -> (res: u32)
    ensures
        res == f32_add_bits(l, r),
{
    let sum = rustc_apfloat::ieee::Single::from_bits(l as u128)
        + rustc_apfloat::ieee::Single::from_bits(r as u128);
    sum.value.to_bits() as u32
}

/// Relies on rustc_apfloat's `ieee::Single` subtraction, rounding to
/// nearest even: the result depends on the operand bits alone.
#[verifier::external_body]
pub(crate) fn f32_sub(l: u32, r: u32) -> (res: u32)
    ensures
        res == f32_sub_bits(l, r),
{
    let diff = rustc_apfloat::ieee::Single::from_bits(l as u128)
        - rustc_apfloat::ieee::Single::from_bits(r as u128);
    diff.value.to_bits() as u32
}

/// Relies on rustc_apfloat's `ieee::Single` multiplication, rounding to
/// nearest even: the result depends on the operand bits alone.
#[verifier::external_body]
pub(crate) fn f32_mul(l: u32, r: u32) -> (res: u32)
    ensures
        res == f32_mul_bits(l, r),
{
    let prod = rustc_apfloat::ieee::Single::from_bits(l as u128)
        * rustc_apfloat::ieee::Single::from_bits(r as u128);
    prod.value.to_bits() as u32
}

/// Relies on rustc_apfloat's `ieee::Single` division, rounding to nearest
/// even (IEEE semantics: dividing by zero yields an infinity or NaN, not a
/// fault): the result depends on the operand bits alone.
#[verifier::external_body]
pub(crate) fn f32_div(l: u32, r: u32) -> (res: u32)
    ensures
        res == f32_div_bits(l, r),
{
    let quot = rustc_apfloat::ieee::Single::from_bits(l as u128)
        / rustc_apfloat::ieee::Single::from_bits(r as u128);
    quot.value.to_bits() as u32
}

/// Relies on rustc_apfloat's `ieee::Double` addition, rounding to nearest
/// even: the result depends on the operand bits alone.
#[verifier::external_body]
pub(crate) fn f64_add(l: u64, r: u64) -> (res: u64)
    ensures
        res == f64_add_bits(l, r),
{
    let sum = rustc_apfloat::ieee::Double::from_bits(l as u128)
        + rustc_apfloat::ieee::Double::from_bits(r as u128);
    sum.value.to_bits() as u64
}

/// Relies on rustc_apfloat's `ieee::Double` subtraction, rounding to
/// nearest even: the result depends on the operand bits alone.
#[verifier::external_body]
pub(crate) fn f64_sub(l: u64, r: u64) -> (res: u64)
    ensures
        res == f64_sub_bits(l, r),
{
    let diff = rustc_apfloat::ieee::Double::from_bits(l as u128)
        - rustc_apfloat::ieee::Double::from_bits(r as u128);
    diff.value.to_bits() as u64
}

/// Relies on rustc_apfloat's `ieee::Double` multiplication, rounding to
/// nearest even: the result depends on the operand bits alone.
#[verifier::external_body]
pub(crate) fn f64_mul(l: u64, r: u64) -> (res: u64)
    ensures
        res == f64_mul_bits(l, r),
{
    let prod = rustc_apfloat::ieee::Double::from_bits(l as u128)
        * rustc_apfloat::ieee::Double::from_bits(r as u128);
    prod.value.to_bits() as u64
}

/// Relies on rustc_apfloat's `ieee::Double` division, rounding to nearest
/// even (IEEE semantics: dividing by zero yields an infinity or NaN, not a
/// fault): the result depends on the operand bits alone.
#[verifier::external_body]
pub(crate) fn f64_div(l: u64, r: u64) -> (res: u64)
    ensures
        res == f64_div_bits(l, r),
{
    let quot = rustc_apfloat::ieee::Double::from_bits(l as u128)
        / rustc_apfloat::ieee::Double::from_bits(r as u128);
    quot.value.to_bits() as u64
}

/// A single-precision pattern compares equal to zero exactly when
/// everything but the sign bit is clear (positive or negative zero).
pub open spec fn f32_is_zero(b: u32) -> bool {
    b & 0x7fff_ffff == 0
}

/// A single-precision pattern is a NaN when the exponent is all ones and
/// the significand is non-zero.
pub open spec fn f32_is_nan(b: u32) -> bool {
    b & 0x7f80_0000 == 0x7f80_0000 && b & 0x007f_ffff != 0
}

/// IEEE ordering against zero: strictly positive means not NaN, not zero,
/// sign bit clear.
pub open spec fn f32_is_pos(b: u32) -> bool {
    !f32_is_nan(b) && !f32_is_zero(b) && b & 0x8000_0000 == 0
}

/// IEEE ordering against zero: strictly negative means not NaN, not zero,
/// sign bit set.
pub open spec fn f32_is_neg(b: u32) -> bool {
    !f32_is_nan(b) && !f32_is_zero(b) && b & 0x8000_0000 != 0
}

/// A double-precision pattern compares equal to zero exactly when
/// everything but the sign bit is clear (positive or negative zero).
pub open spec fn f64_is_zero(b: u64) -> bool {
    b & 0x7fff_ffff_ffff_ffff == 0
}

/// A double-precision pattern is a NaN when the exponent is all ones and
/// the significand is non-zero.
pub open spec fn f64_is_nan(b: u64) -> bool {
    b & 0x7ff0_0000_0000_0000 == 0x7ff0_0000_0000_0000 && b & 0x000f_ffff_ffff_ffff != 0
}

/// IEEE ordering against zero: strictly positive means not NaN, not zero,
/// sign bit clear.
pub open spec fn f64_is_pos(b: u64) -> bool {
    !f64_is_nan(b) && !f64_is_zero(b) && b & 0x8000_0000_0000_0000 == 0
}

/// IEEE ordering against zero: strictly negative means not NaN, not zero,
/// sign bit set.
pub open spec fn f64_is_neg(b: u64) -> bool {
    !f64_is_nan(b) && !f64_is_zero(b) && b & 0x8000_0000_0000_0000 != 0
}

/// Computes the three ordering flags of a single-precision pattern.
pub fn f32_sign_class(b: u32) -> (r: (bool, bool, bool))
    ensures
        r.0 == f32_is_zero(b),
        r.1 == f32_is_pos(b),
        r.2 == f32_is_neg(b),
{
    let zero = b & 0x7fff_ffff == 0;
    let nan = b & 0x7f80_0000 == 0x7f80_0000 && b & 0x007f_ffff != 0;
    let sign = b & 0x8000_0000 != 0;
    (zero, !nan && !zero && !sign, !nan && !zero && sign)
}

/// Computes the three ordering flags of a double-precision pattern.
pub fn f64_sign_class(b: u64) -> (r: (bool, bool, bool))
    ensures
        r.0 == f64_is_zero(b),
        r.1 == f64_is_pos(b),
        r.2 == f64_is_neg(b),
{
    let zero = b & 0x7fff_ffff_ffff_ffff == 0;
    let nan = b & 0x7ff0_0000_0000_0000 == 0x7ff0_0000_0000_0000 && b & 0x000f_ffff_ffff_ffff
        != 0;
    let sign = b & 0x8000_0000_0000_0000 != 0;
    (zero, !nan && !zero && !sign, !nan && !zero && sign)
}

} // verus!
