use numeric_value::{float_bits_of_int, Evaluation, FloatStep, Kind, NumericError, NumericType, Operator};
use std::cmp::Ordering;

fn integer(x: i32) -> NumericType {
    NumericType::Integer(x)
}

fn float(x: f32) -> NumericType {
    NumericType::Float(x.to_bits())
}

fn bits(x: f32) -> u32 {
    x.to_bits()
}

/// Carries out a float step the way a host does.
fn run(step: FloatStep) -> f32 {
    let f = f32::from_bits;
    match step {
        FloatStep::Add(a, b) => f(a) + f(b),
        FloatStep::Sub(a, b) => f(a) - f(b),
        FloatStep::Mul(a, b) => f(a) * f(b),
        FloatStep::Div(a, b) => f(a) / f(b),
        FloatStep::Powf { base, exp, reciprocal } => {
            let p = f(base).powf(f(exp));
            if reciprocal { 1.0 / p } else { p }
        }
        FloatStep::Powi { base, n, reciprocal } => {
            let p = f(base).powi(n);
            if reciprocal { 1.0 / p } else { p }
        }
    }
}

fn float_result(e: Evaluation) -> f32 {
    match e {
        Evaluation::Float(step) => run(step),
        Evaluation::Ready(v) => panic!("expected a float step, got {:?}", v),
    }
}

fn integer_result(e: Evaluation) -> i32 {
    match e {
        Evaluation::Ready(NumericType::Integer(x)) => x,
        other => panic!("expected an integer, got {:?}", other),
    }
}

#[test]
fn integer_addition_wraps() {
    assert_eq!(integer_result(integer(i32::MAX).add(integer(1))), i32::MIN);
    assert_eq!(integer_result(integer(i32::MIN).add(integer(-1))), i32::MAX);
    assert_eq!(integer_result(integer(40).add(integer(2))), 42);
}

#[test]
fn integer_subtraction_and_product_wrap() {
    assert_eq!(integer_result(integer(i32::MIN).sub(integer(1))), i32::MAX);
    assert_eq!(integer_result(integer(7).sub(integer(10))), -3);
    assert_eq!(integer_result(integer(65536).mul(integer(65536))), 0);
    assert_eq!(integer_result(integer(i32::MAX).mul(integer(2))), -2);
    assert_eq!(integer_result(integer(-6).mul(integer(7))), -42);
}

#[test]
fn mixed_arithmetic_promotes_to_float() {
    assert_eq!(float_result(integer(1).add(float(0.5))), 1.5);
    assert_eq!(float_result(float(0.5).add(integer(1))), 1.5);
    assert_eq!(float_result(float(0.25).add(float(0.5))), 0.75);
    assert_eq!(float_result(integer(1).sub(float(0.5))), 0.5);
    assert_eq!(float_result(float(2.5).mul(integer(2))), 5.0);
    assert!(matches!(integer(3).mul(float(2.0)), Evaluation::Float(FloatStep::Mul(a, b)) if a == bits(3.0) && b == bits(2.0)));
}

#[test]
fn integer_division_promotes_to_float() {
    let q = integer(5).div(integer(2));
    assert!(matches!(q, Evaluation::Float(FloatStep::Div(a, b)) if a == bits(5.0) && b == bits(2.0)));
    assert_eq!(float_result(q), 2.5);
    assert_eq!(float_result(integer(1).div(integer(3))), 1.0f32 / 3.0);
}

#[test]
fn float_division_by_zero_is_infinite() {
    let q = float_result(float(5.0).div(float(0.0)));
    assert!(q.is_infinite() && q > 0.0);
    assert!(float_result(integer(-1).div(integer(0))).is_infinite());
    assert!(float_result(integer(0).div(integer(0))).is_nan());
}

#[test]
fn integer_remainder_by_zero_fails() {
    assert_eq!(integer(5).rem(integer(0)).unwrap_err(), NumericError::DivisionByZero);
}

#[test]
fn integer_remainder_truncates() {
    assert!(matches!(integer(7).rem(integer(3)), Ok(NumericType::Integer(1))));
    assert!(matches!(integer(-7).rem(integer(3)), Ok(NumericType::Integer(-1))));
    assert!(matches!(integer(7).rem(integer(-3)), Ok(NumericType::Integer(1))));
    assert!(matches!(integer(-7).rem(integer(-3)), Ok(NumericType::Integer(-1))));
    assert!(matches!(integer(i32::MIN).rem(integer(-1)), Ok(NumericType::Integer(0))));
    assert!(matches!(integer(i32::MIN).rem(integer(i32::MAX)), Ok(NumericType::Integer(-1))));
}

#[test]
fn pow_negative_integer_exponent_gives_reciprocal() {
    let p = integer(2).pow(&integer(-3));
    assert!(matches!(p, Evaluation::Float(FloatStep::Div(a, b)) if a == bits(1.0) && b == bits(8.0)));
    assert_eq!(float_result(p), 0.125);
    assert!(float_result(integer(0).pow(&integer(-1))).is_infinite());
}

#[test]
fn pow_non_negative_integer_exponent_stays_integer() {
    assert_eq!(integer_result(integer(2).pow(&integer(10))), 1024);
    assert_eq!(integer_result(integer(7).pow(&integer(0))), 1);
    assert_eq!(integer_result(integer(0).pow(&integer(0))), 1);
    assert_eq!(integer_result(integer(2).pow(&integer(31))), i32::MIN);
    assert_eq!(integer_result(integer(2).pow(&integer(32))), 0);
    assert_eq!(integer_result(integer(-1).pow(&integer(i32::MAX))), -1);
}

#[test]
fn pow_wraps_like_native_power() {
    for base in [-7, -3, -2, -1, 0, 1, 2, 3, 5, 10, 12345, i32::MAX, i32::MIN] {
        for exp in [0, 1, 2, 3, 7, 13, 31, 32, 33, 40, 1000, i32::MAX] {
            assert_eq!(integer_result(integer(base).pow(&integer(exp))), base.wrapping_pow(exp as u32));
        }
    }
}

#[test]
fn pow_with_floats() {
    assert_eq!(float_result(float(1.5).pow(&integer(2))), 2.25);
    assert_eq!(float_result(float(2.0).pow(&integer(-2))), 0.25);
    assert_eq!(float_result(integer(4).pow(&float(0.5))), 2.0);
    assert_eq!(float_result(integer(2).pow(&float(-1.0))), 0.5);
    assert_eq!(float_result(float(9.0).pow(&float(0.5))), 3.0);
    assert_eq!(float_result(float(4.0).pow(&float(-0.5))), 0.5);
    assert!(matches!(
        integer(2).pow(&float(-1.0)),
        Evaluation::Float(FloatStep::Powf { base, exp, reciprocal: true }) if base == bits(2.0) && exp == bits(1.0)
    ));
    assert!(matches!(
        float(2.0).pow(&integer(i32::MIN)),
        Evaluation::Float(FloatStep::Powi { n: i32::MIN, reciprocal: true, .. })
    ));
    assert!(matches!(
        float(2.0).pow(&float(-0.0)),
        Evaluation::Float(FloatStep::Powf { reciprocal: false, .. })
    ));
}

#[test]
fn bitwise_and_with_float_fails() {
    assert_eq!(
        integer(5).bitand(float(1.0)).unwrap_err(),
        NumericError::InvalidOperandType { op: Operator::BitAnd, lhs: Kind::Integer, rhs: Some(Kind::Float) }
    );
}

#[test]
fn integer_only_operators_reject_floats() {
    let e = |op, lhs, rhs| NumericError::InvalidOperandType { op, lhs, rhs: Some(rhs) };
    assert_eq!(float(1.0).bitor(integer(1)).unwrap_err(), e(Operator::BitOr, Kind::Float, Kind::Integer));
    assert_eq!(float(1.0).bitxor(float(1.0)).unwrap_err(), e(Operator::BitXor, Kind::Float, Kind::Float));
    assert_eq!(integer(1).rem(float(1.0)).unwrap_err(), e(Operator::Rem, Kind::Integer, Kind::Float));
    assert_eq!(float(1.0).rem(integer(0)).unwrap_err(), e(Operator::Rem, Kind::Float, Kind::Integer));
    assert_eq!(integer(1).shl(float(1.0)).unwrap_err(), e(Operator::Shl, Kind::Integer, Kind::Float));
    assert_eq!(float(8.0).shr(integer(1)).unwrap_err(), e(Operator::Shr, Kind::Float, Kind::Integer));
    assert_eq!(
        float(1.0).not().unwrap_err(),
        NumericError::InvalidOperandType { op: Operator::Not, lhs: Kind::Float, rhs: None }
    );
}

#[test]
fn bitwise_operators_on_integers() {
    assert!(matches!(integer(0b1100).bitand(integer(0b1010)), Ok(NumericType::Integer(0b1000))));
    assert!(matches!(integer(0b1100).bitor(integer(0b1010)), Ok(NumericType::Integer(0b1110))));
    assert!(matches!(integer(0b1100).bitxor(integer(0b1010)), Ok(NumericType::Integer(0b0110))));
    assert!(matches!(integer(-1).bitand(integer(i32::MIN)), Ok(NumericType::Integer(i32::MIN))));
    assert!(matches!(integer(0).not(), Ok(NumericType::Integer(-1))));
    assert!(matches!(integer(i32::MIN).not(), Ok(NumericType::Integer(i32::MAX))));
    assert!(matches!(integer(5).not(), Ok(NumericType::Integer(-6))));
}

#[test]
fn shifts_use_low_five_bits() {
    assert!(matches!(integer(1).shl(integer(4)), Ok(NumericType::Integer(16))));
    assert!(matches!(integer(1).shl(integer(31)), Ok(NumericType::Integer(i32::MIN))));
    assert!(matches!(integer(1).shl(integer(33)), Ok(NumericType::Integer(2))));
    assert!(matches!(integer(1).shl(integer(-1)), Ok(NumericType::Integer(i32::MIN))));
    assert!(matches!(integer(0x4000_0001).shl(integer(2)), Ok(NumericType::Integer(4))));
    assert!(matches!(integer(-8).shr(integer(1)), Ok(NumericType::Integer(-4))));
    assert!(matches!(integer(-1).shr(integer(31)), Ok(NumericType::Integer(-1))));
    assert!(matches!(integer(256).shr(integer(36)), Ok(NumericType::Integer(16))));
}

#[test]
fn negation_keeps_the_variant() {
    assert!(matches!(integer(5).neg(), NumericType::Integer(-5)));
    assert!(matches!(integer(i32::MIN).neg(), NumericType::Integer(i32::MIN)));
    assert!(matches!(float(2.5).neg(), NumericType::Float(b) if b == bits(-2.5)));
    assert!(matches!(float(0.0).neg(), NumericType::Float(b) if b == bits(-0.0)));
    assert!(matches!(float(f32::NEG_INFINITY).neg(), NumericType::Float(b) if b == bits(f32::INFINITY)));
}

#[test]
fn truthiness_of_zero_and_non_zero() {
    assert!(!NumericType::Integer(0).to_bool());
    assert!(!float(-0.0).to_bool());
    assert!(!float(0.0).to_bool());
    assert!(NumericType::Integer(-1).to_bool());
    assert!(float(1e-45).to_bool());
    assert!(float(f32::NAN).to_bool());
}

#[test]
fn integer_equals_its_float_conversion() {
    for x in [0, 1, -1, 2, 100, -12345, 16_777_216, 16_777_217, -16_777_217, i32::MAX, i32::MIN] {
        assert!(integer(x) == float(x as f32));
        assert!(float(x as f32) == integer(x));
        assert!(!(integer(x) != float(x as f32)));
    }
    assert!(integer(2) == float(2.0));
    assert!(integer(2) != float(2.5));
    assert!(integer(3) != integer(4));
    assert!(float(0.0) == float(-0.0));
    assert!(float(f32::NAN) != float(f32::NAN));
    assert!(!(integer(0) == float(f32::NAN)));
}

#[test]
fn conversion_matches_native_cast() {
    let mut samples: Vec<i32> = vec![0, 1, -1, i32::MAX, i32::MIN, i32::MAX - 1, i32::MIN + 1];
    for p in 0..31 {
        let base: i64 = 1i64 << p;
        for d in -3i64..=3 {
            for s in [1i64, -1] {
                let v = s * (base + d);
                if v >= i32::MIN as i64 && v <= i32::MAX as i64 {
                    samples.push(v as i32);
                }
            }
        }
    }
    let mut x: i64 = i32::MIN as i64;
    while x <= i32::MAX as i64 {
        samples.push(x as i32);
        x += 999_983;
    }
    for v in samples {
        assert_eq!(float_bits_of_int(v), (v as f32).to_bits(), "converting {}", v);
    }
}

#[test]
fn ordering_across_variants() {
    let values = [
        integer(-3), integer(0), integer(2), integer(i32::MAX), float(2.0), float(-0.0), float(1.5),
        float(f32::INFINITY), float(f32::NEG_INFINITY), float(1e-45), float(-3.5),
    ];
    let as_f32 = |v: &NumericType| match *v {
        NumericType::Integer(x) => x as f32,
        NumericType::Float(b) => f32::from_bits(b),
    };
    for a in values.iter() {
        for b in values.iter() {
            assert_eq!(a < b, b > a);
            assert_eq!(a <= b, b >= a);
            if let (NumericType::Integer(x), NumericType::Integer(y)) = (a, b) {
                assert_eq!(a.partial_cmp(b), x.partial_cmp(y));
            } else {
                assert_eq!(a.partial_cmp(b), as_f32(a).partial_cmp(&as_f32(b)));
            }
            assert_eq!(a == b, a.partial_cmp(b) == Some(Ordering::Equal));
        }
    }
    assert!(integer(1) < float(1.5));
    assert!(float(2.0) <= integer(2));
    assert!(integer(2) >= float(2.0));
    assert!(integer(3) > integer(2));
}

#[test]
fn nan_is_unordered() {
    let nan = float(f32::NAN);
    for other in [integer(0), integer(-5), float(1.0), nan, float(f32::INFINITY)] {
        assert_eq!(nan.partial_cmp(&other), None);
        assert_eq!(other.partial_cmp(&nan), None);
        assert!(!(nan < other) && !(nan <= other) && !(nan > other) && !(nan >= other));
        assert!(!(other < nan) && !(other <= nan) && !(other > nan) && !(other >= nan));
    }
}

#[test]
fn kind_reports_the_variant() {
    assert_eq!(integer(1).kind(), Kind::Integer);
    assert_eq!(float(1.0).kind(), Kind::Float);
    assert_eq!(integer(3).float_bits(), bits(3.0));
}
