//! Scalar IEEE-754 binary32 arithmetic on bit patterns.
//!
//! The four arithmetic operations and the sign test are carried out by
//! `rustc_apfloat`, a software implementation of IEEE-754. Each operation is
//! a pure function of its operand bit patterns, so its result is given a
//! name that the rest of the library reasons with.
use vstd::prelude::*;

use rustc_apfloat::Float;
use rustc_apfloat::ieee::Single;

verus! {

/// The IEEE-754 binary32 sum of the two values, rounded to nearest even.
pub uninterp spec fn f_add(a: u32, b: u32) -> u32;

/// The IEEE-754 binary32 difference of the two values, rounded to nearest even.
pub uninterp spec fn f_sub(a: u32, b: u32) -> u32;

/// The IEEE-754 binary32 product of the two values, rounded to nearest even.
pub uninterp spec fn f_mul(a: u32, b: u32) -> u32;

/// The IEEE-754 binary32 quotient of the two values, rounded to nearest even.
pub uninterp spec fn f_div(a: u32, b: u32) -> u32;

/// Whether the value compares greater than or equal to zero under IEEE-754
/// (false for NaN, true for both zeros).
pub uninterp spec fn f_ge_zero(a: u32) -> bool;

/// Relies on rustc_apfloat's `Single` addition (`add_r` with round to
/// nearest even): IEEE-754 binary32, a function of the operand bits alone.
#[verifier::external_body]
pub(crate) fn add_bits(a: u32, b: u32) -> (r: u32)
    ensures
        r == f_add(a, b),
{
    let x = Single::from_bits(a as u128);
    let y = Single::from_bits(b as u128);
    (x + y).value.to_bits() as u32
}

/// Relies on rustc_apfloat's `Single` subtraction (`sub_r` with round to
/// nearest even): IEEE-754 binary32, a function of the operand bits alone.
#[verifier::external_body]
pub(crate) fn sub_bits(a: u32, b: u32) -> (r: u32)
    ensures
        r == f_sub(a, b),
{
    let x = Single::from_bits(a as u128);
    let y = Single::from_bits(b as u128);
    (x - y).value.to_bits() as u32
}

/// Relies on rustc_apfloat's `Single` multiplication (`mul_r` with round to
/// nearest even): IEEE-754 binary32, a function of the operand bits alone.
#[verifier::external_body]
pub(crate) fn mul_bits(a: u32, b: u32) -> (r: u32)
    ensures
        r == f_mul(a, b),
{
    let x = Single::from_bits(a as u128);
    let y = Single::from_bits(b as u128);
    (x * y).value.to_bits() as u32
}

/// Relies on rustc_apfloat's `Single` division (`div_r` with round to
/// nearest even): IEEE-754 binary32, a function of the operand bits alone.
#[verifier::external_body]
pub(crate) fn div_bits(a: u32, b: u32) -> (r: u32)
    ensures
        r == f_div(a, b),
{
    let x = Single::from_bits(a as u128);
    let y = Single::from_bits(b as u128);
    (x / y).value.to_bits() as u32
}

/// Relies on rustc_apfloat's `Single` ordering (`partial_cmp`): the IEEE-754
/// comparison, under which NaN is unordered and the two zeros are equal; a
/// function of the operand bits alone.
#[verifier::external_body]
pub(crate) fn ge_zero_bits(a: u32) -> (r: bool)
    ensures
        r == f_ge_zero(a),
{
    Single::from_bits(a as u128) >= Single::ZERO
}

/// Leaky rectified linear unit on one value: the value itself when it is
/// nonnegative, else the value scaled by `alpha`.
pub open spec fn relu_bits(x: u32, alpha: u32) -> u32 {
    if f_ge_zero(x) {
        x
    } else {
        f_mul(alpha, x)
    }
}

/// Executable leaky ReLU on one value.
pub fn relu_scalar(x: u32, alpha: u32) -> (r: u32)
    ensures
        r == relu_bits(x, alpha),
{
    if ge_zero_bits(x) {
        x
    } else {
        mul_bits(alpha, x)
    }
}

/// Activation law: leaky ReLU keeps a nonnegative value unchanged and scales
/// a negative one by `alpha`.
pub proof fn lemma_relu_pointwise(x: u32, alpha: u32)
    ensures
        f_ge_zero(x) ==> relu_bits(x, alpha) == x,
        !f_ge_zero(x) ==> relu_bits(x, alpha) == f_mul(alpha, x),
{
}

/// Activation law: on a nonnegative value, applying leaky ReLU twice with
/// the same slope gives the same result as applying it once.
pub proof fn lemma_relu_idempotent_nonneg(x: u32, alpha: u32)
    requires
        f_ge_zero(x),
    ensures
        relu_bits(relu_bits(x, alpha), alpha) == relu_bits(x, alpha),
{
}

/// Activation law: on a negative value whose scaled image is still negative,
/// applying leaky ReLU twice scales by `alpha` twice over.
pub proof fn lemma_relu_double_negative(x: u32, alpha: u32)
    requires
        !f_ge_zero(x),
        !f_ge_zero(f_mul(alpha, x)),
    ensures
        relu_bits(relu_bits(x, alpha), alpha) == f_mul(alpha, f_mul(alpha, x)),
{
}

} // verus!
