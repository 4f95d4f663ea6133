//! Real arithmetic over IEEE 754 binary64 bit patterns.
//!
//! The verified code never holds a floating-point value: a real number is
//! carried as the `u64` bit pattern of its binary64 representation.  Each
//! arithmetic operation is a trusted function whose result is pinned to an
//! uninterpreted function of the operand bits (`fadd`, `fmul`, ...), so every
//! numerical routine built on top of them has an exact functional contract,
//! and determinism of whole computations is provable.  Classification and
//! comparison of bit patterns, on the other hand, are given their exact
//! IEEE 754 meaning as spec functions over the bits.
//!
//! Inside the trusted bodies the bits move to and from their floating value
//! through `bytemuck::cast`, which reinterprets them unchanged.  The value's
//! floating type is fixed without being written: `Duration::as_secs_f64`
//! yields the exact constant one, and `one.mul_add(x, -0.0)` is the exact
//! identity on every operand (the product by one and the sum with negative
//! zero are both exact in IEEE 754, for zeros, infinities and NaN included),
//! so each operand reaches its operation with exactly its own bits.

use vstd::prelude::*;

verus! {

/// Bits of 0.0.
pub const F_ZERO: u64 = 0x0000000000000000;
/// Bits of 1.0.
pub const F_ONE: u64 = 0x3FF0000000000000;
/// Bits of 2.0.
pub const F_TWO: u64 = 0x4000000000000000;
/// Bits of 3.0.
pub const F_THREE: u64 = 0x4008000000000000;
/// Bits of 4.0.
pub const F_FOUR: u64 = 0x4010000000000000;
/// Bits of 5.0.
pub const F_FIVE: u64 = 0x4014000000000000;
/// Bits of 6.0.
pub const F_SIX: u64 = 0x4018000000000000;
/// Bits of 0.5.
pub const F_HALF: u64 = 0x3FE0000000000000;
/// Bits of 0.1.
pub const F_TENTH: u64 = 0x3FB999999999999A;
/// Bits of 0.2.
pub const F_POINT_2: u64 = 0x3FC999999999999A;
/// Bits of 0.7.
pub const F_POINT_7: u64 = 0x3FE6666666666666;
/// Bits of 0.04.
pub const F_POINT_04: u64 = 0x3FA47AE147AE147B;
/// Bits of 0.09.
pub const F_POINT_09: u64 = 0x3FB70A3D70A3D70A;
/// Bits of 0.01.
pub const F_POINT_01: u64 = 0x3F847AE147AE147B;
/// Bits of 0.44.
pub const F_POINT_44: u64 = 0x3FDC28F5C28F5C29;
/// Bits of 0.001.
pub const F_POINT_001: u64 = 0x3F50624DD2F1A9FC;
/// Bits of -10.0.
pub const F_NEG_TEN: u64 = 0xC024000000000000;
/// Bits of -5.0.
pub const F_NEG_FIVE: u64 = 0xC014000000000000;
/// Bits of pi.
pub const F_PI: u64 = 0x400921FB54442D18;
/// Bits of 1e-4.
pub const F_1E_NEG_4: u64 = 0x3F1A36E2EB1C432D;
/// Bits of 1e-6.
pub const F_1E_NEG_6: u64 = 0x3EB0C6F7A0B5ED8D;
/// Bits of 1e-8.
pub const F_1E_NEG_8: u64 = 0x3E45798EE2308C3A;
/// Bits of 1e-9.
pub const F_1E_NEG_9: u64 = 0x3E112E0BE826D695;
/// Bits of 1e-10.
pub const F_1E_NEG_10: u64 = 0x3DDB7CDFD9D7BDBB;
/// Bits of 1e-12.
pub const F_1E_NEG_12: u64 = 0x3D719799812DEA11;
/// Bits of positive infinity.
pub const F_INF: u64 = 0x7FF0000000000000;
/// Bits of negative infinity.
pub const F_NEG_INF: u64 = 0xFFF0000000000000;
/// Bits of 100.0.
pub const F_HUNDRED: u64 = 0x4059000000000000;
/// Bits of the spacing between one and the next binary64 value (2^-52).
pub const F_EPSILON: u64 = 0x3CB0000000000000;

/// Mask selecting all bits but the sign bit.
pub const F_ABS_MASK: u64 = 0x7FFFFFFFFFFFFFFF;
/// Mask of the sign bit.
pub const F_SIGN_MASK: u64 = 0x8000000000000000;

/// The bit pattern with the sign bit cleared: the binary64 absolute value.
pub open spec fn f_abs_bits(a: u64) -> u64 {
    a & F_ABS_MASK
}

/// The bit pattern encodes a NaN.
pub open spec fn f_is_nan(a: u64) -> bool {
    f_abs_bits(a) > F_INF
}

/// The bit pattern encodes a finite value (zero, subnormal or normal).
pub open spec fn f_is_finite(a: u64) -> bool {
    f_abs_bits(a) < F_INF
}

/// The bit pattern encodes a zero (of either sign).
pub open spec fn f_is_zero(a: u64) -> bool {
    f_abs_bits(a) == 0
}

/// The sign bit is set.
pub open spec fn f_sign_neg(a: u64) -> bool {
    a >= F_SIGN_MASK
}

/// The IEEE 754 `<` relation on binary64 bit patterns: false when either
/// operand is NaN, and for same-sign finite or infinite values the magnitude
/// order coincides with the unsigned order of the remaining bits.
pub open spec fn flt(a: u64, b: u64) -> bool {
    if f_is_nan(a) || f_is_nan(b) {
        false
    } else if f_sign_neg(a) != f_sign_neg(b) {
        f_sign_neg(a) && !(f_is_zero(a) && f_is_zero(b))
    } else if !f_sign_neg(a) {
        f_abs_bits(a) < f_abs_bits(b)
    } else {
        f_abs_bits(b) < f_abs_bits(a)
    }
}

/// The IEEE 754 `==` relation on binary64 bit patterns: never true of a NaN,
/// and the two zeros compare equal.
pub open spec fn feq(a: u64, b: u64) -> bool {
    !f_is_nan(a) && (a == b || (f_is_zero(a) && f_is_zero(b)))
}

/// The IEEE 754 `<=` relation on binary64 bit patterns.
pub open spec fn fle(a: u64, b: u64) -> bool {
    flt(a, b) || feq(a, b)
}

/// The binary64 sum of two bit patterns (round to nearest, ties to even).
pub uninterp spec fn fadd(a: u64, b: u64) -> u64;

/// The binary64 difference of two bit patterns.
pub uninterp spec fn fsub(a: u64, b: u64) -> u64;

/// The binary64 product of two bit patterns.
pub uninterp spec fn fmul(a: u64, b: u64) -> u64;

/// The binary64 quotient of two bit patterns.
pub uninterp spec fn fdiv(a: u64, b: u64) -> u64;

/// What `f64::exp` returns on the value with these bits.
pub uninterp spec fn fexp(a: u64) -> u64;

/// What `f64::ln` returns on the value with these bits.
pub uninterp spec fn fln(a: u64) -> u64;

/// What `f64::sqrt` returns on the value with these bits.
pub uninterp spec fn fsqrt(a: u64) -> u64;

/// What `f64::powf` returns on the values with these bits.
pub uninterp spec fn fpowf(a: u64, b: u64) -> u64;

/// What `f64::max` returns on the values with these bits.
pub uninterp spec fn fmax(a: u64, b: u64) -> u64;

/// What `f64::min` returns on the values with these bits.
pub uninterp spec fn fmin(a: u64, b: u64) -> u64;

/// What `f64::ceil` returns on the value with these bits.
pub uninterp spec fn fceil(a: u64) -> u64;

/// What casting the value with these bits to `u64` yields (rounds toward
/// zero and saturates; NaN becomes zero).
pub uninterp spec fn f_to_u64(a: u64) -> u64;

/// The bits of the binary64 value nearest to this integer.
pub uninterp spec fn f_from_u64(n: u64) -> u64;

/// Relies on `+` for `f64`: IEEE 754 addition is an exact function of the
/// operand bits.
#[verifier::external_body]
pub fn add(a: u64, b: u64) -> (r: u64)
    ensures
        r == fadd(a, b),
{
    let one = std::time::Duration::from_secs(1).as_secs_f64();
    let x = one.mul_add(bytemuck::cast(a), bytemuck::cast(F_SIGN_MASK));
    let y = one.mul_add(bytemuck::cast(b), bytemuck::cast(F_SIGN_MASK));
    let r: u64 = bytemuck::cast(x + y);
    r
}

/// Relies on `-` for `f64`: IEEE 754 subtraction is an exact function of the
/// operand bits.
#[verifier::external_body]
pub fn sub(a: u64, b: u64) -> (r: u64)
    ensures
        r == fsub(a, b),
{
    let one = std::time::Duration::from_secs(1).as_secs_f64();
    let x = one.mul_add(bytemuck::cast(a), bytemuck::cast(F_SIGN_MASK));
    let y = one.mul_add(bytemuck::cast(b), bytemuck::cast(F_SIGN_MASK));
    let r: u64 = bytemuck::cast(x - y);
    r
}

/// Relies on `*` for `f64`: IEEE 754 multiplication is an exact function of
/// the operand bits.
#[verifier::external_body]
pub fn mul(a: u64, b: u64) -> (r: u64)
    ensures
        r == fmul(a, b),
{
    let one = std::time::Duration::from_secs(1).as_secs_f64();
    let x = one.mul_add(bytemuck::cast(a), bytemuck::cast(F_SIGN_MASK));
    let y = one.mul_add(bytemuck::cast(b), bytemuck::cast(F_SIGN_MASK));
    let r: u64 = bytemuck::cast(x * y);
    r
}

/// Relies on `/` for `f64`: IEEE 754 division is an exact function of the
/// operand bits.
#[verifier::external_body]
pub fn div(a: u64, b: u64) -> (r: u64)
    ensures
        r == fdiv(a, b),
{
    let one = std::time::Duration::from_secs(1).as_secs_f64();
    let x = one.mul_add(bytemuck::cast(a), bytemuck::cast(F_SIGN_MASK));
    let y = one.mul_add(bytemuck::cast(b), bytemuck::cast(F_SIGN_MASK));
    let r: u64 = bytemuck::cast(x / y);
    r
}

/// Relies on `f64::exp`: for a fixed build, the result depends on the
/// argument bits alone.
#[verifier::external_body]
pub fn exp(a: u64) -> (r: u64)
    ensures
        r == fexp(a),
{
    let one = std::time::Duration::from_secs(1).as_secs_f64();
    let x = one.mul_add(bytemuck::cast(a), bytemuck::cast(F_SIGN_MASK));
    let r: u64 = bytemuck::cast(x.exp());
    r
}

/// Relies on `f64::ln`: for a fixed build, the result depends on the
/// argument bits alone.
#[verifier::external_body]
pub fn ln(a: u64) -> (r: u64)
    ensures
        r == fln(a),
{
    let one = std::time::Duration::from_secs(1).as_secs_f64();
    let x = one.mul_add(bytemuck::cast(a), bytemuck::cast(F_SIGN_MASK));
    let r: u64 = bytemuck::cast(x.ln());
    r
}

/// Relies on `f64::sqrt`: IEEE 754 square root is an exact function of the
/// argument bits.
#[verifier::external_body]
pub fn sqrt(a: u64) -> (r: u64)
    ensures
        r == fsqrt(a),
{
    let one = std::time::Duration::from_secs(1).as_secs_f64();
    let x = one.mul_add(bytemuck::cast(a), bytemuck::cast(F_SIGN_MASK));
    let r: u64 = bytemuck::cast(x.sqrt());
    r
}

/// Relies on `f64::powf`: for a fixed build, the result depends on the
/// argument bits alone.
#[verifier::external_body]
pub fn powf(a: u64, b: u64) -> (r: u64)
    ensures
        r == fpowf(a, b),
{
    let one = std::time::Duration::from_secs(1).as_secs_f64();
    let x = one.mul_add(bytemuck::cast(a), bytemuck::cast(F_SIGN_MASK));
    let r: u64 = bytemuck::cast(x.powf(one.mul_add(bytemuck::cast(b), bytemuck::cast(F_SIGN_MASK))));
    r
}

/// Relies on `f64::max`: the larger operand, or the non-NaN one.
#[verifier::external_body]
pub fn max(a: u64, b: u64) -> (r: u64)
    ensures
        r == fmax(a, b),
{
    let one = std::time::Duration::from_secs(1).as_secs_f64();
    let x = one.mul_add(bytemuck::cast(a), bytemuck::cast(F_SIGN_MASK));
    let r: u64 = bytemuck::cast(x.max(one.mul_add(bytemuck::cast(b), bytemuck::cast(F_SIGN_MASK))));
    r
}

/// Relies on `f64::min`: the smaller operand, or the non-NaN one.
#[verifier::external_body]
pub fn min(a: u64, b: u64) -> (r: u64)
    ensures
        r == fmin(a, b),
{
    let one = std::time::Duration::from_secs(1).as_secs_f64();
    let x = one.mul_add(bytemuck::cast(a), bytemuck::cast(F_SIGN_MASK));
    let r: u64 = bytemuck::cast(x.min(one.mul_add(bytemuck::cast(b), bytemuck::cast(F_SIGN_MASK))));
    r
}

/// Relies on `f64::ceil`: the nearest integral value at or above the
/// argument, an exact function of the argument bits.
#[verifier::external_body]
pub fn ceil(a: u64) -> (r: u64)
    ensures
        r == fceil(a),
{
    let one = std::time::Duration::from_secs(1).as_secs_f64();
    let x = one.mul_add(bytemuck::cast(a), bytemuck::cast(F_SIGN_MASK));
    let r: u64 = bytemuck::cast(x.ceil());
    r
}

/// Relies on the cast from binary64 to `u64`: rounds toward zero, saturates
/// at the bounds of `u64`, and maps NaN to zero.
#[verifier::external_body]
pub fn to_u64(a: u64) -> (r: u64)
    ensures
        r == f_to_u64(a),
{
    let one = std::time::Duration::from_secs(1).as_secs_f64();
    let x = one.mul_add(bytemuck::cast(a), bytemuck::cast(F_SIGN_MASK));
    let r: u64 = x as u64;
    r
}

/// Relies on the cast from `u64` to binary64: the nearest binary64 value.
#[verifier::external_body]
pub fn from_u64(n: u64) -> (r: u64)
    ensures
        r == f_from_u64(n),
{
    let r: u64 = bytemuck::cast(std::time::Duration::from_secs(n).as_secs_f64());
    r
}

/// Executable IEEE 754 `<` on bit patterns, verified against `flt`.
pub fn lt(a: u64, b: u64) -> (r: bool)
    ensures
        r == flt(a, b),
{
    let aa = a & F_ABS_MASK;
    let ab = b & F_ABS_MASK;
    if aa > F_INF || ab > F_INF {
        false
    } else if (a >= F_SIGN_MASK) != (b >= F_SIGN_MASK) {
        a >= F_SIGN_MASK && !(aa == 0 && ab == 0)
    } else if a < F_SIGN_MASK {
        aa < ab
    } else {
        ab < aa
    }
}

/// Executable IEEE 754 `==` on bit patterns, verified against `feq`.
pub fn eq(a: u64, b: u64) -> (r: bool)
    ensures
        r == feq(a, b),
{
    let aa = a & F_ABS_MASK;
    let ab = b & F_ABS_MASK;
    aa <= F_INF && (a == b || (aa == 0 && ab == 0))
}

/// Executable IEEE 754 `<=` on bit patterns, verified against `fle`.
pub fn le(a: u64, b: u64) -> (r: bool)
    ensures
        r == fle(a, b),
{
    lt(a, b) || eq(a, b)
}

/// Executable finiteness test on bit patterns, verified against
/// `f_is_finite`: the exponent field is not all ones.
pub fn is_finite(a: u64) -> (r: bool)
    ensures
        r == f_is_finite(a),
{
    (a & F_ABS_MASK) < F_INF
}

/// The bit pattern with the sign bit cleared: executable binary64 absolute
/// value, verified against its bit-level definition.
pub fn abs(a: u64) -> (r: u64)
    ensures
        r == f_abs_bits(a),
{
    a & F_ABS_MASK
}

/// The bit pattern with the sign bit flipped: the binary64 negation, which
/// IEEE 754 defines as exactly this bit operation.
pub open spec fn f_neg(a: u64) -> u64 {
    a ^ F_SIGN_MASK
}

/// Executable binary64 negation, verified against its bit-level definition.
pub fn neg(a: u64) -> (r: u64)
    ensures
        r == f_neg(a),
{
    a ^ F_SIGN_MASK
}

/// On bit patterns that are not NaN, the IEEE order is total.
pub proof fn lemma_fle_total(a: u64, b: u64)
    requires
        !f_is_nan(a),
        !f_is_nan(b),
    ensures
        fle(a, b) || fle(b, a),
{
    assert(((a & 0x7fffffffffffffff == b & 0x7fffffffffffffff) && ((a >= 0x8000000000000000)
        == (b >= 0x8000000000000000))) ==> a == b) by (bit_vector);
}

/// The IEEE order is transitive (its two sides exclude NaN by definition).
pub proof fn lemma_fle_trans(a: u64, b: u64, c: u64)
    requires
        fle(a, b),
        fle(b, c),
    ensures
        fle(a, c),
{
}

} // verus!
