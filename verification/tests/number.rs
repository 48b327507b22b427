use genapi_core::number::{EvalError, Number, REAL_SCALE};

#[test]
fn integer_arithmetic() {
    let a = Number::Integer(6);
    let b = Number::Integer(-4);
    assert_eq!(a.plus(b), Ok(Number::Integer(2)));
    assert_eq!(a.minus(b), Ok(Number::Integer(10)));
    assert_eq!(a.times(b), Ok(Number::Integer(-24)));
    assert_eq!(a.divided_by(b), Ok(Number::Integer(-1)));
    assert_eq!(a.negated(), Ok(Number::Integer(-6)));
    assert_eq!(a.to_integer(), Ok(6));
    assert_eq!(a.to_scaled(), 6 * REAL_SCALE);
}

#[test]
fn real_arithmetic() {
    let a = Number::Real(2_500_000_000);
    let b = Number::Integer(2);
    assert_eq!(a.plus(b), Ok(Number::Real(4_500_000_000)));
    assert_eq!(b.minus(a), Ok(Number::Real(-500_000_000)));
    assert_eq!(a.times(b), Ok(Number::Real(5_000_000_000)));
    assert_eq!(a.divided_by(b), Ok(Number::Real(1_250_000_000)));
    assert_eq!(b.divided_by(a), Ok(Number::Real(800_000_000)));
    assert_eq!(a.negated(), Ok(Number::Real(-2_500_000_000)));
    assert_eq!(a.to_scaled(), 2_500_000_000);
}

#[test]
fn conversion_to_integer_rounds_toward_zero() {
    assert_eq!(Number::Real(2_999_999_999).to_integer(), Ok(2));
    assert_eq!(Number::Real(-2_999_999_999).to_integer(), Ok(-2));
    assert_eq!(Number::Real(999_999_999).to_integer(), Ok(0));
    assert_eq!(Number::Real(-999_999_999).to_integer(), Ok(0));
    assert_eq!(Number::Real(i128::MAX).to_integer(), Err(EvalError::Overflow));
    assert_eq!(Number::Real(i128::MIN).to_integer(), Err(EvalError::Overflow));
    let edge = (i64::MAX as i128) * REAL_SCALE + 999_999_999;
    assert_eq!(Number::Real(edge).to_integer(), Ok(i64::MAX));
    assert_eq!(Number::Real(edge + 1).to_integer(), Err(EvalError::Overflow));
}

#[test]
fn real_overflow_is_an_error() {
    let big = Number::Real(i128::MAX);
    assert_eq!(big.plus(Number::Real(1)), Err(EvalError::Overflow));
    assert_eq!(Number::Real(i128::MIN).minus(Number::Real(1)), Err(EvalError::Overflow));
    assert_eq!(big.times(Number::Integer(2)), Err(EvalError::Overflow));
    assert_eq!(big.divided_by(Number::Integer(1)), Err(EvalError::Overflow));
    assert_eq!(Number::Real(i128::MIN).negated(), Err(EvalError::Overflow));
    assert_eq!(big.divided_by(Number::Real(0)), Err(EvalError::DivisionByZero));
}
