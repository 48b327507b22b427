//! The numbers of the formula language and their arithmetic.
//!
//! A formula works on two kinds of number. An integer is a signed 64-bit
//! value. A real is a decimal fixed-point value: a signed 128-bit count of
//! billionths. No binary floating point is involved, so every result is
//! exact up to the one rounding rule below and is the same on every machine.
//!
//! Promotion: an operation on two integers is an integer operation; as soon
//! as one operand is a real, the other one is promoted to a real and the
//! result is a real.
//!
//! Rounding: integer division, real multiplication, real division and the
//! conversion of a real to an integer all round toward zero. Addition and
//! subtraction are exact.
//!
//! Division by zero is an error for both kinds of number, and so is a result
//! that its representation cannot hold.

use vstd::prelude::*;

verus! {

/// How many units of a real make up the value one.
pub const REAL_SCALE: i128 = 1_000_000_000;

/// A value of the formula language.
#[derive(Debug, Clone, Copy, PartialEq, Eq, Structural)]
pub enum Number {
    /// A signed integer.
    Integer(i64),
    /// A real, given as its count of billionths.
    Real(i128),
}

/// Why an arithmetic step or a formula could not be evaluated.
#[derive(Debug, Clone, Copy, PartialEq, Eq, Structural)]
pub enum EvalError {
    /// The formula names an identifier that the symbol table does not hold.
    UnresolvedReference,
    /// The right-hand side of a division is zero.
    DivisionByZero,
    /// A result does not fit its representation.
    Overflow,
}

/// Whether `v` is the value of some `i64`.
pub open spec fn fits_i64(v: int) -> bool {
    i64::MIN <= v <= i64::MAX
}

/// Whether `v` is the value of some `i128`.
pub open spec fn fits_i128(v: int) -> bool {
    i128::MIN <= v <= i128::MAX
}

/// The quotient of `x` by `d` rounded toward zero, for `d != 0`.
pub open spec fn trunc_div(x: int, d: int) -> int {
    if x >= 0 && d > 0 {
        x / d
    } else if x < 0 && d < 0 {
        (-x) / (-d)
    } else if x < 0 {
        -((-x) / d)
    } else {
        -(x / (-d))
    }
}

/// The integer `v` if an `i64` can hold it.
pub open spec fn integer_result(v: int) -> Result<Number, EvalError> {
    if fits_i64(v) {
        Ok(Number::Integer(v as i64))
    } else {
        Err(EvalError::Overflow)
    }
}

/// The real of `v` billionths if an `i128` can hold that count.
pub open spec fn real_result(v: int) -> Result<Number, EvalError> {
    if fits_i128(v) {
        Ok(Number::Real(v as i128))
    } else {
        Err(EvalError::Overflow)
    }
}

impl Number {
    /// Whether this number is a real.
    pub open spec fn is_real(self) -> bool {
        self is Real
    }

    /// The value in billionths, which is what promotion to a real yields.
    pub open spec fn scaled(self) -> int {
        match self {
            Number::Integer(v) => v * REAL_SCALE,
            Number::Real(s) => s as int,
        }
    }

    /// The sum of two numbers.
    pub open spec fn spec_plus(self, rhs: Number) -> Result<Number, EvalError> {
        match (self, rhs) {
            (Number::Integer(a), Number::Integer(b)) => integer_result(a + b),
            _ => real_result(self.scaled() + rhs.scaled()),
        }
    }

    /// The difference of two numbers.
    pub open spec fn spec_minus(self, rhs: Number) -> Result<Number, EvalError> {
        match (self, rhs) {
            (Number::Integer(a), Number::Integer(b)) => integer_result(a - b),
            _ => real_result(self.scaled() - rhs.scaled()),
        }
    }

    /// The product of two numbers. A product of reals is first formed in
    /// units of 10^-18 and must fit an `i128` there.
    pub open spec fn spec_times(self, rhs: Number) -> Result<Number, EvalError> {
        match (self, rhs) {
            (Number::Integer(a), Number::Integer(b)) => integer_result(a * b),
            _ => if fits_i128(self.scaled() * rhs.scaled()) {
                real_result(trunc_div(self.scaled() * rhs.scaled(), REAL_SCALE as int))
            } else {
                Err(EvalError::Overflow)
            },
        }
    }

    /// The quotient of two numbers. For reals the dividend is first
    /// multiplied by the scale and must fit an `i128` then.
    pub open spec fn spec_divided_by(self, rhs: Number) -> Result<Number, EvalError> {
        match (self, rhs) {
            (Number::Integer(a), Number::Integer(b)) => if b == 0 {
                Err(EvalError::DivisionByZero)
            } else {
                integer_result(trunc_div(a as int, b as int))
            },
            _ => if rhs.scaled() == 0 {
                Err(EvalError::DivisionByZero)
            } else if fits_i128(self.scaled() * REAL_SCALE) {
                real_result(trunc_div(self.scaled() * REAL_SCALE, rhs.scaled()))
            } else {
                Err(EvalError::Overflow)
            },
        }
    }

    /// The number with its sign changed.
    pub open spec fn spec_negated(self) -> Result<Number, EvalError> {
        match self {
            Number::Integer(a) => integer_result(-a),
            Number::Real(s) => real_result(-s),
        }
    }

    /// The number as an integer: itself, or a real rounded toward zero.
    pub open spec fn spec_to_integer(self) -> Result<i64, EvalError> {
        match self {
            Number::Integer(a) => Ok(a),
            Number::Real(s) => if fits_i64(trunc_div(s as int, REAL_SCALE as int)) {
                Ok(trunc_div(s as int, REAL_SCALE as int) as i64)
            } else {
                Err(EvalError::Overflow)
            },
        }
    }

    /// Promotes to a real: the value in billionths.
    pub fn to_scaled(self) -> (s: i128)
        ensures
            s == self.scaled(),
    {
        match self {
            Number::Integer(v) => (v as i128) * REAL_SCALE,
            Number::Real(s) => s,
        }
    }

    /// Adds `rhs` to this number.
    pub fn plus(self, rhs: Number) -> (r: Result<Number, EvalError>)
        ensures
            r == self.spec_plus(rhs),
    {
        match (self, rhs) {
            (Number::Integer(a), Number::Integer(b)) => match a.checked_add(b) {
                Some(v) => Ok(Number::Integer(v)),
                None => Err(EvalError::Overflow),
            },
            _ => match self.to_scaled().checked_add(rhs.to_scaled()) {
                Some(v) => Ok(Number::Real(v)),
                None => Err(EvalError::Overflow),
            },
        }
    }

    /// Subtracts `rhs` from this number.
    pub fn minus(self, rhs: Number) -> (r: Result<Number, EvalError>)
        ensures
            r == self.spec_minus(rhs),
    {
        match (self, rhs) {
            (Number::Integer(a), Number::Integer(b)) => match a.checked_sub(b) {
                Some(v) => Ok(Number::Integer(v)),
                None => Err(EvalError::Overflow),
            },
            _ => match self.to_scaled().checked_sub(rhs.to_scaled()) {
                Some(v) => Ok(Number::Real(v)),
                None => Err(EvalError::Overflow),
            },
        }
    }

    /// Multiplies this number by `rhs`.
    pub fn times(self, rhs: Number) -> (r: Result<Number, EvalError>)
        ensures
            r == self.spec_times(rhs),
    {
        match (self, rhs) {
            (Number::Integer(a), Number::Integer(b)) => match a.checked_mul(b) {
                Some(v) => Ok(Number::Integer(v)),
                None => Err(EvalError::Overflow),
            },
            _ => match self.to_scaled().checked_mul(rhs.to_scaled()) {
                Some(p) => match p.checked_div(REAL_SCALE) {
                    Some(v) => Ok(Number::Real(v)),
                    None => Err(EvalError::Overflow),
                },
                None => Err(EvalError::Overflow),
            },
        }
    }

    /// Divides this number by `rhs`.
    pub fn divided_by(self, rhs: Number) -> (r: Result<Number, EvalError>)
        ensures
            r == self.spec_divided_by(rhs),
    {
        match (self, rhs) {
            (Number::Integer(a), Number::Integer(b)) => {
                if b == 0 {
                    Err(EvalError::DivisionByZero)
                } else {
                    match a.checked_div(b) {
                        Some(v) => Ok(Number::Integer(v)),
                        None => Err(EvalError::Overflow),
                    }
                }
            },
            _ => {
                let d = rhs.to_scaled();
                if d == 0 {
                    Err(EvalError::DivisionByZero)
                } else {
                    match self.to_scaled().checked_mul(REAL_SCALE) {
                        Some(n) => match n.checked_div(d) {
                            Some(v) => Ok(Number::Real(v)),
                            None => Err(EvalError::Overflow),
                        },
                        None => Err(EvalError::Overflow),
                    }
                }
            },
        }
    }

    /// Changes the sign of this number.
    pub fn negated(self) -> (r: Result<Number, EvalError>)
        ensures
            r == self.spec_negated(),
    {
        match self {
            Number::Integer(a) => match 0i64.checked_sub(a) {
                Some(v) => Ok(Number::Integer(v)),
                None => Err(EvalError::Overflow),
            },
            Number::Real(s) => match 0i128.checked_sub(s) {
                Some(v) => Ok(Number::Real(v)),
                None => Err(EvalError::Overflow),
            },
        }
    }

    /// Converts to an integer, rounding a real toward zero.
    pub fn to_integer(self) -> (r: Result<i64, EvalError>)
        ensures
            r == self.spec_to_integer(),
    {
        match self {
            Number::Integer(a) => Ok(a),
            Number::Real(s) => match s.checked_div(REAL_SCALE) {
                Some(q) => {
                    if q < -0x8000_0000_0000_0000i128 || q > 0x7fff_ffff_ffff_ffffi128 {
                        Err(EvalError::Overflow)
                    } else {
                        Ok(q as i64)
                    }
                },
                None => Err(EvalError::Overflow),
            },
        }
    }
}

} // verus!
