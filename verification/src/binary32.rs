//! IEEE 754 single-precision numbers, seen as their 32-bit patterns.
//!
//! A pattern is a sign bit, eight exponent bits and twenty-three fraction
//! bits. This module says what a pattern denotes and decides, on the pattern
//! alone, the two questions that vector code asks of a number before it
//! divides by it or calls it equal to another: is it zero, and is it smaller
//! in absolute value than the machine epsilon.
//!
//! Absolute values are measured in units of 2^-149, the smallest positive
//! number of the format, so that every finite pattern denotes a natural
//! number of such units and no fractions are needed.

use vstd::arithmetic::power2::{
    lemma2_to64,
    lemma_pow2_adds,
    lemma_pow2_pos,
    lemma_pow2_strictly_increases,
    pow2,
};
use vstd::prelude::*;

verus! {

/// The pattern of the machine epsilon, 2^-23: the gap between 1 and the next
/// larger number of the format.
pub const EPSILON: u32 = 0x3400_0000;

/// Every bit of a pattern but its sign.
pub const MAGNITUDE_MASK: u32 = 0x7fff_ffff;

/// The pattern without its sign bit, as a number.
pub open spec fn magnitude_bits(b: u32) -> nat {
    (b as nat) % 0x8000_0000
}

/// The eight exponent bits, as a number from 0 to 255.
pub open spec fn exponent_field(b: u32) -> nat {
    magnitude_bits(b) / 0x80_0000
}

/// The twenty-three fraction bits, as a number.
pub open spec fn fraction_field(b: u32) -> nat {
    magnitude_bits(b) % 0x80_0000
}

/// The pattern denotes a number: it is neither an infinity nor a NaN.
pub open spec fn is_finite(b: u32) -> bool {
    exponent_field(b) < 255
}

/// The absolute value that a finite pattern denotes, in units of 2^-149.
///
/// With exponent field 0 the number is subnormal and its fraction counts the
/// units; otherwise the fraction gets an implicit leading one and is scaled
/// by the exponent.
pub open spec fn magnitude(b: u32) -> nat
    recommends
        is_finite(b),
{
    if exponent_field(b) == 0 {
        fraction_field(b)
    } else {
        (0x80_0000 + fraction_field(b)) * pow2((exponent_field(b) - 1) as nat)
    }
}

/// The pattern denotes zero, of either sign.
pub open spec fn denotes_zero(b: u32) -> bool {
    is_finite(b) && magnitude(b) == 0
}

/// The pattern denotes a number whose absolute value is less than 2^-23.
/// In units of 2^-149 that bound is 2^126.
pub open spec fn below_epsilon(b: u32) -> bool {
    is_finite(b) && magnitude(b) < pow2(126)
}

/// The pattern with its sign bit flipped: the negated number.
pub open spec fn negated(b: u32) -> u32 {
    if b >= 0x8000_0000 {
        (b - 0x8000_0000) as u32
    } else {
        (b + 0x8000_0000) as u32
    }
}

/// A finite pattern with exponent field `e` lies in the binade of `e`: at
/// least 2^23 * 2^(e-1) units (nothing, for subnormals) and less than
/// 2^23 * 2^e.
proof fn lemma_binade(b: u32)
    requires
        is_finite(b),
    ensures
        magnitude(b) < 0x80_0000 * pow2(exponent_field(b)),
        exponent_field(b) > 0 ==> magnitude(b) >= 0x80_0000 * pow2(
            (exponent_field(b) - 1) as nat,
        ),
{
    let e = exponent_field(b);
    let f = fraction_field(b);
    if e == 0 {
        lemma2_to64();
    } else {
        let p = pow2((e - 1) as nat);
        lemma_pow2_pos((e - 1) as nat);
        lemma_pow2_adds((e - 1) as nat, 1);
        lemma2_to64();
        assert(pow2(e) == p * 2);
        assert(0x80_0000 * p <= (0x80_0000 + f) * p < 0x80_0000 * (p * 2)) by (nonlinear_arith)
            requires
                f < 0x80_0000,
                p > 0,
        ;
    }
}

/// Binades do not overlap: with a smaller exponent field the magnitude is
/// smaller, whatever the fractions.
proof fn lemma_smaller_exponent(a: u32, b: u32)
    requires
        is_finite(a),
        is_finite(b),
        exponent_field(a) < exponent_field(b),
    ensures
        magnitude(a) < magnitude(b),
{
    let ea = exponent_field(a);
    let eb = exponent_field(b);
    lemma_binade(a);
    lemma_binade(b);
    if ea < eb - 1 {
        lemma_pow2_strictly_increases(ea, (eb - 1) as nat);
    }
    let pa = pow2(ea);
    let pb = pow2((eb - 1) as nat);
    assert(0x80_0000 * pa <= 0x80_0000 * pb) by (nonlinear_arith)
        requires
            pa <= pb,
    ;
}

/// Within one binade the magnitude grows with the fraction.
proof fn lemma_smaller_fraction(a: u32, b: u32)
    requires
        is_finite(a),
        is_finite(b),
        exponent_field(a) == exponent_field(b),
        fraction_field(a) < fraction_field(b),
    ensures
        magnitude(a) < magnitude(b),
{
    let e = exponent_field(a);
    let fa = fraction_field(a);
    let fb = fraction_field(b);
    if e > 0 {
        let p = pow2((e - 1) as nat);
        lemma_pow2_pos((e - 1) as nat);
        assert((0x80_0000 + fa) * p < (0x80_0000 + fb) * p) by (nonlinear_arith)
            requires
                fa < fb,
                p > 0,
        ;
    }
}

/// Finite patterns, their sign bits set aside, are ordered as the absolute
/// values they denote: the encoding is monotonic.
pub proof fn lemma_magnitude_order(a: u32, b: u32)
    requires
        is_finite(a),
        is_finite(b),
    ensures
        magnitude_bits(a) < magnitude_bits(b) <==> magnitude(a) < magnitude(b),
        magnitude_bits(a) == magnitude_bits(b) <==> magnitude(a) == magnitude(b),
{
    let ea = exponent_field(a);
    let eb = exponent_field(b);
    let fa = fraction_field(a);
    let fb = fraction_field(b);
    assert(magnitude_bits(a) == ea * 0x80_0000 + fa);
    assert(magnitude_bits(b) == eb * 0x80_0000 + fb);
    if ea < eb {
        lemma_smaller_exponent(a, b);
    } else if eb < ea {
        lemma_smaller_exponent(b, a);
    } else if fa < fb {
        lemma_smaller_fraction(a, b);
    } else if fb < fa {
        lemma_smaller_fraction(b, a);
    }
}

/// The machine epsilon is finite and measures 2^126 units.
pub proof fn lemma_epsilon_magnitude()
    ensures
        is_finite(EPSILON),
        magnitude(EPSILON) == pow2(126),
{
    assert(exponent_field(EPSILON) == 104);
    assert(fraction_field(EPSILON) == 0);
    lemma2_to64();
    lemma_pow2_adds(23, 103);
}

/// Negating a number changes neither its class nor its absolute value, so
/// neither whether it is zero nor whether it is below the epsilon.
pub proof fn lemma_negation_keeps_magnitude(b: u32)
    ensures
        magnitude_bits(negated(b)) == magnitude_bits(b),
        is_finite(negated(b)) == is_finite(b),
        magnitude(negated(b)) == magnitude(b),
        denotes_zero(negated(b)) == denotes_zero(b),
        below_epsilon(negated(b)) == below_epsilon(b),
{
}

/// Zero has two patterns, one of each sign: a pattern denotes zero exactly
/// when every bit but the sign is clear.
pub proof fn lemma_zero_patterns(b: u32)
    ensures
        denotes_zero(b) <==> magnitude_bits(b) == 0,
{
    if is_finite(b) && exponent_field(b) > 0 {
        lemma_binade(b);
        let p = pow2((exponent_field(b) - 1) as nat);
        lemma_pow2_pos((exponent_field(b) - 1) as nat);
        assert(0x80_0000 * p > 0) by (nonlinear_arith)
            requires
                p > 0,
        ;
    }
}

/// The patterns below the epsilon are those that, their sign bits set aside,
/// are smaller than the epsilon's own pattern. Infinities and NaNs lie above
/// it.
pub proof fn lemma_patterns_below_epsilon(b: u32)
    ensures
        below_epsilon(b) <==> magnitude_bits(b) < EPSILON,
{
    lemma_epsilon_magnitude();
    assert(magnitude_bits(EPSILON) == EPSILON);
    if is_finite(b) {
        lemma_magnitude_order(b, EPSILON);
    }
}

/// A zero is below the epsilon.
pub proof fn lemma_zero_is_below_epsilon(b: u32)
    requires
        denotes_zero(b),
    ensures
        below_epsilon(b),
{
    lemma_pow2_pos(126);
}

/// Whether the number is zero: `+0.0` or `-0.0`, and nothing else. A NaN is
/// not zero, nor is any subnormal number however small.
pub fn is_zero(b: u32) -> (r: bool)
    ensures
        r == denotes_zero(b),
{
    let m: u32 = b & MAGNITUDE_MASK;
    proof {
        assert(m == b % 0x8000_0000) by (bit_vector)
            requires
                m == b & 0x7fff_ffff,
        ;
        lemma_zero_patterns(b);
    }
    m == 0
}

/// Whether the number's absolute value is strictly less than the machine
/// epsilon. It is not for an infinity or a NaN, nor for the epsilon itself.
pub fn within_epsilon(b: u32) -> (r: bool)
    ensures
        r == below_epsilon(b),
{
    let m: u32 = b & MAGNITUDE_MASK;
    proof {
        assert(m == b % 0x8000_0000) by (bit_vector)
            requires
                m == b & 0x7fff_ffff,
        ;
        lemma_patterns_below_epsilon(b);
    }
    m < EPSILON
}

} // verus!
