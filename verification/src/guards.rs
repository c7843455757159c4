//! The rules of a two-dimensional vector that are decided without
//! arithmetic, on the bit patterns of two single-precision numbers.

use crate::binary32::{
    below_epsilon,
    denotes_zero,
    is_zero,
    lemma_negation_keeps_magnitude,
    lemma_zero_is_below_epsilon,
    negated,
    within_epsilon,
};
use vstd::prelude::*;

verus! {

/// A vector with these components is the null vector: both are zero, of
/// either sign.
pub open spec fn null_vector(x: u32, y: u32) -> bool {
    denotes_zero(x) && denotes_zero(y)
}

/// Two vectors whose components differ by `dx` and `dy` count as equal: each
/// difference is smaller in absolute value than the machine epsilon.
pub open spec fn equal_within_epsilon(dx: u32, dy: u32) -> bool {
    below_epsilon(dx) && below_epsilon(dy)
}

/// Whether the vector with components `x` and `y` is the null vector, which
/// points nowhere: its direction is zero by definition and is not to be asked
/// of an arctangent.
pub fn is_null(x: u32, y: u32) -> (r: bool)
    ensures
        r == null_vector(x, y),
{
    is_zero(x) && is_zero(y)
}

/// Whether two vectors are equal, given the differences `dx` and `dy` of
/// their components. A difference that is a NaN or an infinity makes them
/// unequal.
pub fn approx_eq(dx: u32, dy: u32) -> (r: bool)
    ensures
        r == equal_within_epsilon(dx, dy),
{
    within_epsilon(dx) && within_epsilon(dy)
}

/// Vectors whose components do not differ at all are equal.
pub proof fn lemma_no_difference_is_equal(dx: u32, dy: u32)
    requires
        null_vector(dx, dy),
    ensures
        equal_within_epsilon(dx, dy),
{
    lemma_zero_is_below_epsilon(dx);
    lemma_zero_is_below_epsilon(dy);
}

/// Equality does not depend on which vector is subtracted from which:
/// negating both differences leaves the verdict as it was.
pub proof fn lemma_equality_ignores_sign(dx: u32, dy: u32)
    ensures
        equal_within_epsilon(negated(dx), negated(dy)) == equal_within_epsilon(dx, dy),
{
    lemma_negation_keeps_magnitude(dx);
    lemma_negation_keeps_magnitude(dy);
}

} // verus!
