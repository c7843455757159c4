//! The exact decisions behind a two-dimensional vector of single-precision
//! numbers.
//!
//! Vector arithmetic rounds, and what it rounds to is the hardware's affair.
//! A few of a vector's rules are not arithmetic at all, though: they are
//! questions about one number that has already been computed, and their
//! answers must be exact.
//!
//! * A vector is normalized, or given a new direction, only if its magnitude
//!   is not zero.
//! * The direction of a vector whose components are both zero is zero by
//!   definition.
//! * Two vectors are equal if their components differ by less than the
//!   machine epsilon.
//!
//! This crate decides those questions on the bit patterns of the numbers
//! and proves each answer against what the IEEE 754 format says the pattern
//! denotes. [`binary32`] holds the format and the questions about one
//! number, [`guards`] the rules about a vector's two components.

pub mod binary32;
pub mod guards;
