//! A dynamically tagged numeric value for an interpreter's runtime: either a
//! 32-bit signed integer or a binary32 floating-point number, with the
//! promotion, wrapping, comparison and truthiness rules of the language.
//!
//! A floating-point payload is held as its IEEE-754 binary32 bit pattern, so
//! that everything decided about it (equality, ordering, sign, zero, the
//! conversion of an integer operand) is plain integer logic with a contract.
//! The rounding arithmetic of floats themselves (sum, product, quotient,
//! power) is described as a [`FloatStep`] that the host performs.
pub mod binary32;
pub mod wrapping;
pub mod numeric;

pub use binary32::float_bits_of_int;
pub use numeric::{Evaluation, FloatStep, Kind, NumericError, NumericType, Operator};
