//! The tagged numeric value and its operators.
use vstd::prelude::*;
use core::cmp::Ordering;
use crate::binary32::{
    self, float_of_int, float_eq, float_compare, is_nan, is_zero, is_below_zero, abs_bits,
    negate_bits, float_bits_of_int, scaled_value, ONE_BITS,
};
use vstd::arithmetic::power2::pow2;
use crate::wrapping::{
    self, wrap_i32, trunc_rem, shift_amount, abs, wrapping_pow_spec,
};

verus! {

/// A value of the language: an integer or a float.
#[derive(Clone, Copy, Debug)]
pub enum NumericType {
    /// A 32-bit signed integer.
    Integer(i32),
    /// A binary32 float, held as its IEEE-754 bit pattern (`f32::to_bits`).
    Float(u32),
}

/// Which variant a value is.
#[derive(Clone, Copy, Debug, PartialEq, Eq, Structural)]
pub enum Kind {
    Integer,
    Float,
}

/// The operators that accept integers only.
#[derive(Clone, Copy, Debug, PartialEq, Eq, Structural)]
pub enum Operator {
    Rem,
    BitAnd,
    BitOr,
    BitXor,
    Shl,
    Shr,
    Not,
}

/// Why an operator produced no value.
#[derive(Clone, Copy, Debug, PartialEq, Eq, Structural)]
pub enum NumericError {
    /// An integer-only operator met a float; `rhs` is `None` for a unary operator.
    InvalidOperandType { op: Operator, lhs: Kind, rhs: Option<Kind> },
    /// Integer remainder by zero.
    DivisionByZero,
}

/// A binary32 computation whose result is the `Float` value of an operation.
/// Operands are bit patterns; the host evaluates them with native `f32` arithmetic.
#[derive(Clone, Copy, Debug, PartialEq, Eq, Structural)]
pub enum FloatStep {
    /// `lhs + rhs`
    Add(u32, u32),
    /// `lhs - rhs`
    Sub(u32, u32),
    /// `lhs * rhs`
    Mul(u32, u32),
    /// `lhs / rhs`
    Div(u32, u32),
    /// `base.powf(exp)`, and then `1.0 / ...` when `reciprocal` is set.
    Powf { base: u32, exp: u32, reciprocal: bool },
    /// `base.powi(n)`, and then `1.0 / ...` when `reciprocal` is set.
    Powi { base: u32, n: i32, reciprocal: bool },
}

/// The outcome of an arithmetic operator.
#[derive(Clone, Copy, Debug)]
pub enum Evaluation {
    /// The result, known exactly.
    Ready(NumericType),
    /// The result is `Float` of what this step computes.
    Float(FloatStep),
}

impl NumericType {
    /// The variant of the value.
    pub open spec fn kind_of(self) -> Kind {
        match self {
            NumericType::Integer(_) => Kind::Integer,
            NumericType::Float(_) => Kind::Float,
        }
    }

    /// The value as a float: an integer goes through `as f32`.
    pub open spec fn promoted(self) -> u32 {
        match self {
            NumericType::Integer(x) => float_of_int(x as int),
            NumericType::Float(b) => b,
        }
    }

    /// The value is a NaN float.
    pub open spec fn is_nan_value(self) -> bool {
        match self {
            NumericType::Integer(_) => false,
            NumericType::Float(b) => is_nan(b),
        }
    }
}

/// Truthiness: zero (an integer 0, or either float zero) is false, all else true.
pub open spec fn truthy(v: NumericType) -> bool {
    match v {
        NumericType::Integer(x) => x != 0,
        NumericType::Float(b) => !is_zero(b),
    }
}

/// Equality: two integers compare exactly, any other pair as floats.
pub open spec fn numeric_eq(a: NumericType, b: NumericType) -> bool {
    match (a, b) {
        (NumericType::Integer(x), NumericType::Integer(y)) => x == y,
        _ => float_eq(a.promoted(), b.promoted()),
    }
}

/// Ordering: two integers compare exactly, any other pair as floats.
pub open spec fn numeric_compare(a: NumericType, b: NumericType) -> Option<Ordering> {
    match (a, b) {
        (NumericType::Integer(x), NumericType::Integer(y)) => if x < y {
            Some(Ordering::Less)
        } else if x == y {
            Some(Ordering::Equal)
        } else {
            Some(Ordering::Greater)
        },
        _ => float_compare(a.promoted(), b.promoted()),
    }
}

/// `a < b`
pub open spec fn less(a: NumericType, b: NumericType) -> bool {
    numeric_compare(a, b) == Some(Ordering::Less)
}

/// `a <= b`
pub open spec fn less_eq(a: NumericType, b: NumericType) -> bool {
    numeric_compare(a, b) matches Some(Ordering::Less | Ordering::Equal)
}

/// `a > b`
pub open spec fn greater(a: NumericType, b: NumericType) -> bool {
    numeric_compare(a, b) == Some(Ordering::Greater)
}

/// `a >= b`
pub open spec fn greater_eq(a: NumericType, b: NumericType) -> bool {
    numeric_compare(a, b) matches Some(Ordering::Greater | Ordering::Equal)
}

/// `a + b`: wrapping on two integers, else a float sum.
pub open spec fn sum(a: NumericType, b: NumericType) -> Evaluation {
    match (a, b) {
        (NumericType::Integer(x), NumericType::Integer(y)) => Evaluation::Ready(
            NumericType::Integer(wrap_i32(x + y)),
        ),
        _ => Evaluation::Float(FloatStep::Add(a.promoted(), b.promoted())),
    }
}

/// `a - b`: wrapping on two integers, else a float difference.
pub open spec fn difference(a: NumericType, b: NumericType) -> Evaluation {
    match (a, b) {
        (NumericType::Integer(x), NumericType::Integer(y)) => Evaluation::Ready(
            NumericType::Integer(wrap_i32(x - y)),
        ),
        _ => Evaluation::Float(FloatStep::Sub(a.promoted(), b.promoted())),
    }
}

/// `a * b`: wrapping on two integers, else a float product.
pub open spec fn product(a: NumericType, b: NumericType) -> Evaluation {
    match (a, b) {
        (NumericType::Integer(x), NumericType::Integer(y)) => Evaluation::Ready(
            NumericType::Integer(wrap_i32(x * y)),
        ),
        _ => Evaluation::Float(FloatStep::Mul(a.promoted(), b.promoted())),
    }
}

/// `a / b`: always a float quotient, also of two integers.
pub open spec fn quotient(a: NumericType, b: NumericType) -> Evaluation {
    Evaluation::Float(FloatStep::Div(a.promoted(), b.promoted()))
}

/// `a.pow(b)`: an exact wrapping power of two integers when the exponent is
/// not negative; otherwise a float power, negative exponents taken as the
/// reciprocal of the power to the exponent's absolute value.
pub open spec fn power(a: NumericType, b: NumericType) -> Evaluation {
    match (a, b) {
        (NumericType::Integer(x), NumericType::Integer(y)) => if y < 0 {
            Evaluation::Float(
                FloatStep::Div(ONE_BITS, float_of_int(wrapping_pow_spec(x as int, abs(y as int) as nat) as int)),
            )
        } else {
            Evaluation::Ready(NumericType::Integer(wrapping_pow_spec(x as int, y as nat)))
        },
        (NumericType::Float(x), NumericType::Integer(y)) => if y < 0 {
            Evaluation::Float(FloatStep::Powi { base: x, n: wrap_i32(-y), reciprocal: true })
        } else {
            Evaluation::Float(FloatStep::Powi { base: x, n: y, reciprocal: false })
        },
        (_, NumericType::Float(y)) => if is_below_zero(y) {
            Evaluation::Float(FloatStep::Powf { base: a.promoted(), exp: abs_bits(y), reciprocal: true })
        } else {
            Evaluation::Float(FloatStep::Powf { base: a.promoted(), exp: y, reciprocal: false })
        },
    }
}

/// The error of an integer-only binary operator that met a float.
pub open spec fn invalid_pair(op: Operator, a: NumericType, b: NumericType) -> NumericError {
    NumericError::InvalidOperandType { op, lhs: a.kind_of(), rhs: Some(b.kind_of()) }
}

impl NumericType {
    /// The variant of the value.
    pub fn kind(&self) -> (r: Kind)
        ensures
            r == self.kind_of(),
    {
        match self {
            NumericType::Integer(_) => Kind::Integer,
            NumericType::Float(_) => Kind::Float,
        }
    }

    /// The value as a float bit pattern; an integer is converted as by `as f32`.
    pub fn float_bits(&self) -> (r: u32)
        ensures
            r == self.promoted(),
    {
        match self {
            NumericType::Integer(x) => float_bits_of_int(*x),
            NumericType::Float(b) => *b,
        }
    }

    /// Truthiness: false exactly for integer 0, `0.0` and `-0.0`.
    pub fn to_bool(&self) -> (r: bool)
        ensures
            r == truthy(*self),
    {
        match self {
            NumericType::Integer(x) => *x != 0,
            NumericType::Float(b) => !binary32::zero(*b),
        }
    }

    /// Exponentiation, with the promotion and reciprocal rules of [`power`].
    pub fn pow(&self, num: &NumericType) -> (r: Evaluation)
        ensures
            r == power(*self, *num),
    {
        match (self, num) {
            (NumericType::Integer(x), NumericType::Integer(y)) => {
                if *y < 0 {
                    let e: u32 = if *y == i32::MIN {
                        0x8000_0000
                    } else {
                        (-*y) as u32
                    };
                    let p = wrapping::wrapping_pow(*x, e);
                    Evaluation::Float(FloatStep::Div(ONE_BITS, float_bits_of_int(p)))
                } else {
                    Evaluation::Ready(NumericType::Integer(wrapping::wrapping_pow(*x, *y as u32)))
                }
            },
            (NumericType::Float(x), NumericType::Integer(y)) => {
                if *y < 0 {
                    let e = wrapping::wrapping_neg(*y);
                    Evaluation::Float(FloatStep::Powi { base: *x, n: e, reciprocal: true })
                } else {
                    Evaluation::Float(FloatStep::Powi { base: *x, n: *y, reciprocal: false })
                }
            },
            (_, NumericType::Float(y)) => {
                let base = self.float_bits();
                if binary32::below_zero(*y) {
                    Evaluation::Float(
                        FloatStep::Powf { base, exp: binary32::abs(*y), reciprocal: true },
                    )
                } else {
                    Evaluation::Float(FloatStep::Powf { base, exp: *y, reciprocal: false })
                }
            },
        }
    }

    /// `self + other`
    pub fn add(self, other: NumericType) -> (r: Evaluation)
        ensures
            r == sum(self, other),
    {
        match (self, other) {
            (NumericType::Integer(x), NumericType::Integer(y)) => Evaluation::Ready(
                NumericType::Integer(wrapping::wrapping_add(x, y)),
            ),
            _ => Evaluation::Float(FloatStep::Add(self.float_bits(), other.float_bits())),
        }
    }

    /// `self - other`
    pub fn sub(self, other: NumericType) -> (r: Evaluation)
        ensures
            r == difference(self, other),
    {
        match (self, other) {
            (NumericType::Integer(x), NumericType::Integer(y)) => Evaluation::Ready(
                NumericType::Integer(wrapping::wrapping_sub(x, y)),
            ),
            _ => Evaluation::Float(FloatStep::Sub(self.float_bits(), other.float_bits())),
        }
    }

    /// `self * other`
    pub fn mul(self, other: NumericType) -> (r: Evaluation)
        ensures
            r == product(self, other),
    {
        match (self, other) {
            (NumericType::Integer(x), NumericType::Integer(y)) => Evaluation::Ready(
                NumericType::Integer(wrapping::wrapping_mul(x, y)),
            ),
            _ => Evaluation::Float(FloatStep::Mul(self.float_bits(), other.float_bits())),
        }
    }

    /// `self / other`, never truncating: the result is always a float.
    pub fn div(self, other: NumericType) -> (r: Evaluation)
        ensures
            r == quotient(self, other),
    {
        Evaluation::Float(FloatStep::Div(self.float_bits(), other.float_bits()))
    }

    /// `-self`, keeping the variant; an integer wraps, a float flips its sign.
    pub fn neg(self) -> (r: NumericType)
        ensures
            r == match self {
                NumericType::Integer(x) => NumericType::Integer(wrap_i32(-x)),
                NumericType::Float(b) => NumericType::Float(negate_bits(b)),
            },
    {
        match self {
            NumericType::Integer(x) => NumericType::Integer(wrapping::wrapping_neg(x)),
            NumericType::Float(b) => NumericType::Float(binary32::negate(b)),
        }
    }

    /// `!self`, the bitwise complement of an integer.
    pub fn not(self) -> (r: Result<NumericType, NumericError>)
        ensures
            r == match self {
                NumericType::Integer(x) => Ok(NumericType::Integer((-x - 1) as i32)),
                NumericType::Float(_) => Err(
                    NumericError::InvalidOperandType { op: Operator::Not, lhs: Kind::Float, rhs: None },
                ),
            },
    {
        match self {
            NumericType::Integer(x) => Ok(NumericType::Integer(wrapping::complement(x))),
            NumericType::Float(_) => Err(
                NumericError::InvalidOperandType { op: Operator::Not, lhs: Kind::Float, rhs: None },
            ),
        }
    }

    /// The error for `op` on these two operands, one of which is a float.
    fn invalid(op: Operator, a: NumericType, b: NumericType) -> (r: NumericError)
        ensures
            r == invalid_pair(op, a, b),
    {
        NumericError::InvalidOperandType { op, lhs: a.kind(), rhs: Some(b.kind()) }
    }

    /// `self & other`, on two integers only.
    pub fn bitand(self, other: NumericType) -> (r: Result<NumericType, NumericError>)
        ensures
            r == match (self, other) {
                (NumericType::Integer(x), NumericType::Integer(y)) => Ok(NumericType::Integer(x & y)),
                _ => Err(invalid_pair(Operator::BitAnd, self, other)),
            },
    {
        match (self, other) {
            (NumericType::Integer(x), NumericType::Integer(y)) => Ok(NumericType::Integer(x & y)),
            _ => Err(Self::invalid(Operator::BitAnd, self, other)),
        }
    }

    /// `self | other`, on two integers only.
    pub fn bitor(self, other: NumericType) -> (r: Result<NumericType, NumericError>)
        ensures
            r == match (self, other) {
                (NumericType::Integer(x), NumericType::Integer(y)) => Ok(NumericType::Integer(x | y)),
                _ => Err(invalid_pair(Operator::BitOr, self, other)),
            },
    {
        match (self, other) {
            (NumericType::Integer(x), NumericType::Integer(y)) => Ok(NumericType::Integer(x | y)),
            _ => Err(Self::invalid(Operator::BitOr, self, other)),
        }
    }

    /// `self ^ other`, on two integers only.
    pub fn bitxor(self, other: NumericType) -> (r: Result<NumericType, NumericError>)
        ensures
            r == match (self, other) {
                (NumericType::Integer(x), NumericType::Integer(y)) => Ok(NumericType::Integer(x ^ y)),
                _ => Err(invalid_pair(Operator::BitXor, self, other)),
            },
    {
        match (self, other) {
            (NumericType::Integer(x), NumericType::Integer(y)) => Ok(NumericType::Integer(x ^ y)),
            _ => Err(Self::invalid(Operator::BitXor, self, other)),
        }
    }

    /// `self % other`, the truncated remainder of two integers.
    pub fn rem(self, other: NumericType) -> (r: Result<NumericType, NumericError>)
        ensures
            r == match (self, other) {
                (NumericType::Integer(x), NumericType::Integer(y)) => if y == 0 {
                    Err(NumericError::DivisionByZero)
                } else {
                    Ok(NumericType::Integer(trunc_rem(x as int, y as int) as i32))
                },
                _ => Err(invalid_pair(Operator::Rem, self, other)),
            },
    {
        match (self, other) {
            (NumericType::Integer(x), NumericType::Integer(y)) => {
                if y == 0 {
                    Err(NumericError::DivisionByZero)
                } else {
                    Ok(NumericType::Integer(wrapping::wrapping_rem(x, y)))
                }
            },
            _ => Err(Self::invalid(Operator::Rem, self, other)),
        }
    }

    /// `self << other`, on two integers; the shift uses the low five bits of `other`.
    pub fn shl(self, other: NumericType) -> (r: Result<NumericType, NumericError>)
        ensures
            r == match (self, other) {
                (NumericType::Integer(x), NumericType::Integer(y)) => Ok(
                    NumericType::Integer(x << shift_amount(y)),
                ),
                _ => Err(invalid_pair(Operator::Shl, self, other)),
            },
    {
        match (self, other) {
            (NumericType::Integer(x), NumericType::Integer(y)) => Ok(
                NumericType::Integer(wrapping::wrapping_shl(x, y)),
            ),
            _ => Err(Self::invalid(Operator::Shl, self, other)),
        }
    }

    /// `self >> other`, arithmetic, on two integers; the shift uses the low five bits of `other`.
    pub fn shr(self, other: NumericType) -> (r: Result<NumericType, NumericError>)
        ensures
            r == match (self, other) {
                (NumericType::Integer(x), NumericType::Integer(y)) => Ok(
                    NumericType::Integer(x >> shift_amount(y)),
                ),
                _ => Err(invalid_pair(Operator::Shr, self, other)),
            },
    {
        match (self, other) {
            (NumericType::Integer(x), NumericType::Integer(y)) => Ok(
                NumericType::Integer(wrapping::wrapping_shr(x, y)),
            ),
            _ => Err(Self::invalid(Operator::Shr, self, other)),
        }
    }
}

/// An integer is equal, on either side, to the float that `as f32` makes of
/// it; within 24 bits of magnitude that float holds exactly the integer.
pub proof fn integer_equals_its_float(x: i32)
    ensures
        numeric_eq(NumericType::Integer(x), NumericType::Float(float_of_int(x as int))),
        numeric_eq(NumericType::Float(float_of_int(x as int)), NumericType::Integer(x)),
        -0x100_0000 <= x <= 0x100_0000 ==> scaled_value(float_of_int(x as int)) == x * pow2(149),
{
    binary32::lemma_float_of_int_is_number(x);
    binary32::lemma_conversion_accuracy(x);
}

/// `a == b` holds exactly when the ordering of `a` and `b` is `Equal`.
pub proof fn equality_agrees_with_ordering(a: NumericType, b: NumericType)
    ensures
        numeric_eq(a, b) <==> numeric_compare(a, b) == Some(Ordering::Equal),
{
}

/// The ordering is symmetric: `a < b` exactly when `b > a`, and `a <= b`
/// exactly when `b >= a`; when either is a NaN float, none of `<`, `<=`,
/// `>`, `>=` holds between them.
pub proof fn ordering_is_symmetric(a: NumericType, b: NumericType)
    ensures
        less(a, b) <==> greater(b, a),
        less_eq(a, b) <==> greater_eq(b, a),
        a.is_nan_value() || b.is_nan_value() ==> !less(a, b) && !less_eq(a, b) && !greater(a, b)
            && !greater_eq(a, b),
{
}

impl PartialEq for NumericType {
    fn eq(&self, other: &NumericType) -> (r: bool) {
        match (self, other) {
            (NumericType::Integer(x), NumericType::Integer(y)) => *x == *y,
            _ => binary32::equal(self.float_bits(), other.float_bits()),
        }
    }

    fn ne(&self, other: &NumericType) -> (r: bool) {
        match (self, other) {
            (NumericType::Integer(x), NumericType::Integer(y)) => *x != *y,
            _ => !binary32::equal(self.float_bits(), other.float_bits()),
        }
    }
}

impl vstd::std_specs::cmp::PartialEqSpecImpl for NumericType {
    open spec fn obeys_eq_spec() -> bool {
        true
    }

    open spec fn eq_spec(&self, other: &NumericType) -> bool {
        numeric_eq(*self, *other)
    }
}

impl PartialOrd for NumericType {
    fn partial_cmp(&self, other: &NumericType) -> (r: Option<Ordering>) {
        match (self, other) {
            (NumericType::Integer(x), NumericType::Integer(y)) => {
                if *x < *y {
                    Some(Ordering::Less)
                } else if *x == *y {
                    Some(Ordering::Equal)
                } else {
                    Some(Ordering::Greater)
                }
            },
            _ => binary32::compare(self.float_bits(), other.float_bits()),
        }
    }
}

impl vstd::std_specs::cmp::PartialOrdSpecImpl for NumericType {
    open spec fn obeys_partial_cmp_spec() -> bool {
        true
    }

    open spec fn partial_cmp_spec(&self, other: &NumericType) -> Option<Ordering> {
        numeric_compare(*self, *other)
    }
}

} // verus!
