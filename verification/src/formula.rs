//! The formula language of computed nodes: its grammar, its parser and its
//! evaluator.
//!
//! ```text
//! formula := expr blanks END
//! expr    := term { blanks ("+" | "-") term }
//! term    := factor { blanks ("*" | "/") factor }
//! factor  := blanks ( number | name | "(" expr blanks ")" | "-" factor )
//! number  := "0x" hexdigit+ | digit+ [ "." digit+ ]
//! name    := (letter | "_") { letter | digit | "_" }
//! ```
//!
//! Operators of one level associate to the left. A number with a fraction is
//! a real, any other number an integer; see the module `number` for what that
//! means for the arithmetic.

use crate::number::EvalError;
use crate::number::Number;
use crate::number::REAL_SCALE;
use crate::text::blanks_end;
use crate::text::char_digit;
use crate::text::char_is_blank;
use crate::text::chars_of;
use crate::text::digit_of;
use crate::text::digits_end;
use crate::text::digits_to_u64;
use crate::text::digits_value;
use crate::text::is_blank;
use crate::text::lemma_digits_end_bounds;
use crate::text::lemma_digits_value_nonnegative;
use crate::text::scan_digits;
use vstd::prelude::*;

verus! {

/// The four operators of the language.
#[derive(Debug, Clone, Copy, PartialEq, Eq, Structural)]
pub enum BinaryOp {
    Add,
    Sub,
    Mul,
    Div,
}

/// A parsed formula.
#[derive(Debug, PartialEq, Eq)]
pub enum Expr {
    /// A number written in the formula.
    Literal(Number),
    /// A name, to be looked up in the symbol table.
    Ident(String),
    /// The operand with its sign changed.
    Neg(Box<Expr>),
    /// An operator applied to a left and a right operand.
    Binary(BinaryOp, Box<Expr>, Box<Expr>),
}

/// What a formula is, with names as character sequences.
pub enum ExprView {
    Literal(Number),
    Ident(Seq<char>),
    Neg(Box<ExprView>),
    Binary(BinaryOp, Box<ExprView>, Box<ExprView>),
}

impl Expr {
    /// The formula with its names as character sequences.
    pub open spec fn model(&self) -> ExprView
        decreases self,
    {
        match self {
            Expr::Literal(n) => ExprView::Literal(*n),
            Expr::Ident(name) => ExprView::Ident(name@),
            Expr::Neg(e) => ExprView::Neg(Box::new(e.model())),
            Expr::Binary(op, l, r) => ExprView::Binary(
                *op,
                Box::new(l.model()),
                Box::new(r.model()),
            ),
        }
    }
}

impl View for Expr {
    type V = ExprView;

    open spec fn view(&self) -> ExprView {
        self.model()
    }
}

/// What is wrong with the text of a formula.
#[derive(Debug, Clone, Copy, PartialEq, Eq, Structural)]
pub enum FormulaErrorKind {
    /// A number, a name, `(` or `-` was expected.
    ExpectedOperand,
    /// A number is larger than an `i64` can hold.
    NumberTooLarge,
    /// A `(` has no `)`.
    ExpectedClosingParenthesis,
    /// The formula is complete but the text goes on.
    UnexpectedCharacter,
}

/// A syntax error and the index of the character at which it was found.
#[derive(Debug, Clone, Copy, PartialEq, Eq, Structural)]
pub struct FormulaError {
    pub kind: FormulaErrorKind,
    pub position: usize,
}

/// What parsing one construct yields: the construct and the index after it.
pub type Parsed = Result<(ExprView, int), FormulaError>;

/// The error of the given kind at the given index.
pub open spec fn error_at(kind: FormulaErrorKind, pos: int) -> FormulaError {
    FormulaError { kind, position: pos as usize }
}

/// Whether a name may start with `c`.
pub open spec fn is_name_start(c: char) -> bool {
    let u = c as u32;
    (0x41 <= u <= 0x5a) || (0x61 <= u <= 0x7a) || u == 0x5f
}

/// Whether a name may go on with `c`.
pub open spec fn is_name_part(c: char) -> bool {
    is_name_start(c) || digit_of(c, 10) is Some
}

/// The end of the longest run of name characters that starts at `pos`.
pub open spec fn name_end(s: Seq<char>, pos: int) -> int
    decreases s.len() - pos,
{
    if 0 <= pos < s.len() && is_name_part(s[pos]) {
        name_end(s, pos + 1)
    } else {
        pos
    }
}

/// Ten to the power `n`.
pub open spec fn pow10(n: nat) -> int
    decreases n,
{
    if n == 0 {
        1
    } else {
        10 * pow10((n - 1) as nat)
    }
}

/// The billionths that the digits after a decimal point denote. Digits past
/// the ninth are dropped.
pub open spec fn fraction_units(digits: Seq<char>) -> int {
    let k = if digits.len() < 9 {
        digits.len() as int
    } else {
        9
    };
    digits_value(digits.take(k), 10) * pow10((9 - k) as nat)
}

/// Whether a hexadecimal number starts at `pos`.
pub open spec fn hex_number_starts(s: Seq<char>, pos: int) -> bool {
    &&& pos + 2 < s.len()
    &&& s[pos] == '0'
    &&& (s[pos + 1] == 'x' || s[pos + 1] == 'X')
    &&& digit_of(s[pos + 2], 16) is Some
}

/// The number that starts at `pos`, where `s[pos]` is a decimal digit, and the
/// index after it.
pub open spec fn number_at(s: Seq<char>, pos: int) -> Result<(Number, int), FormulaError> {
    if hex_number_starts(s, pos) {
        let end = digits_end(s, pos + 2, 16);
        let v = digits_value(s.subrange(pos + 2, end), 16);
        if v <= i64::MAX {
            Ok((Number::Integer(v as i64), end))
        } else {
            Err(error_at(FormulaErrorKind::NumberTooLarge, pos))
        }
    } else {
        let end = digits_end(s, pos, 10);
        let v = digits_value(s.subrange(pos, end), 10);
        if v > i64::MAX {
            Err(error_at(FormulaErrorKind::NumberTooLarge, pos))
        } else if end + 1 < s.len() && s[end] == '.' && digit_of(s[end + 1], 10) is Some {
            let fraction_end = digits_end(s, end + 1, 10);
            Ok(
                (
                    Number::Real(
                        (v * REAL_SCALE + fraction_units(s.subrange(end + 1, fraction_end)))
                            as i128,
                    ),
                    fraction_end,
                ),
            )
        } else {
            Ok((Number::Integer(v as i64), end))
        }
    }
}

/// The factor that starts at `pos`.
pub open spec fn factor_at(s: Seq<char>, pos: int) -> Parsed
    decreases s.len() - pos, 0int,
{
    let p = blanks_end(s, pos);
    if pos < 0 || p < pos || p >= s.len() {
        Err(error_at(FormulaErrorKind::ExpectedOperand, p))
    } else if digit_of(s[p], 10) is Some {
        match number_at(s, p) {
            Ok((n, end)) => Ok((ExprView::Literal(n), end)),
            Err(e) => Err(e),
        }
    } else if is_name_start(s[p]) {
        let end = name_end(s, p);
        Ok((ExprView::Ident(s.subrange(p, end)), end))
    } else if s[p] == '(' {
        match expr_at(s, p + 1) {
            Ok((e, after)) => {
                let q = blanks_end(s, after);
                if 0 <= q < s.len() && s[q] == ')' {
                    Ok((e, q + 1))
                } else {
                    Err(error_at(FormulaErrorKind::ExpectedClosingParenthesis, q))
                }
            },
            Err(e) => Err(e),
        }
    } else if s[p] == '-' {
        match factor_at(s, p + 1) {
            Ok((e, end)) => Ok((ExprView::Neg(Box::new(e)), end)),
            Err(e) => Err(e),
        }
    } else {
        Err(error_at(FormulaErrorKind::ExpectedOperand, p))
    }
}

/// The rest of a term whose factors so far make up `left` and end at `pos`.
///
/// The test that a factor ends after it starts and within the text holds of
/// every factor (`lemma_parse_advances`); it is here for the termination of
/// the definition.
pub open spec fn term_tail(s: Seq<char>, pos: int, left: ExprView) -> Parsed
    decreases s.len() - pos, 1int,
{
    let q = blanks_end(s, pos);
    if 0 <= pos <= q < s.len() && (s[q] == '*' || s[q] == '/') {
        let op = if s[q] == '*' {
            BinaryOp::Mul
        } else {
            BinaryOp::Div
        };
        match factor_at(s, q + 1) {
            Ok((right, end)) => if q < end <= s.len() {
                term_tail(s, end, ExprView::Binary(op, Box::new(left), Box::new(right)))
            } else {
                Err(error_at(FormulaErrorKind::ExpectedOperand, q + 1))
            },
            Err(e) => Err(e),
        }
    } else {
        Ok((left, pos))
    }
}

/// The term that starts at `pos`.
pub open spec fn term_at(s: Seq<char>, pos: int) -> Parsed
    decreases s.len() - pos, 2int,
{
    match factor_at(s, pos) {
        Ok((left, end)) => if pos < end <= s.len() {
            term_tail(s, end, left)
        } else {
            Err(error_at(FormulaErrorKind::ExpectedOperand, pos))
        },
        Err(e) => Err(e),
    }
}

/// The rest of an expression whose terms so far make up `left` and end at `pos`.
pub open spec fn expr_tail(s: Seq<char>, pos: int, left: ExprView) -> Parsed
    decreases s.len() - pos, 3int,
{
    let q = blanks_end(s, pos);
    if 0 <= pos <= q < s.len() && (s[q] == '+' || s[q] == '-') {
        let op = if s[q] == '+' {
            BinaryOp::Add
        } else {
            BinaryOp::Sub
        };
        match term_at(s, q + 1) {
            Ok((right, end)) => if q < end <= s.len() {
                expr_tail(s, end, ExprView::Binary(op, Box::new(left), Box::new(right)))
            } else {
                Err(error_at(FormulaErrorKind::ExpectedOperand, q + 1))
            },
            Err(e) => Err(e),
        }
    } else {
        Ok((left, pos))
    }
}

/// The expression that starts at `pos`.
pub open spec fn expr_at(s: Seq<char>, pos: int) -> Parsed
    decreases s.len() - pos, 4int,
{
    match term_at(s, pos) {
        Ok((left, end)) => if pos < end <= s.len() {
            expr_tail(s, end, left)
        } else {
            Err(error_at(FormulaErrorKind::ExpectedOperand, pos))
        },
        Err(e) => Err(e),
    }
}

/// The formula that a text holds: one expression and nothing but blanks
/// after it.
pub open spec fn formula_of(s: Seq<char>) -> Result<ExprView, FormulaError> {
    match expr_at(s, 0) {
        Ok((e, end)) => {
            let q = blanks_end(s, end);
            if q >= s.len() {
                Ok(e)
            } else {
                Err(error_at(FormulaErrorKind::UnexpectedCharacter, q))
            }
        },
        Err(e) => Err(e),
    }
}

/// Whether what the parser returned is what the grammar yields.
pub open spec fn agrees(r: Result<(Expr, usize), FormulaError>, p: Parsed) -> bool {
    match r {
        Ok((e, end)) => p == Ok::<(ExprView, int), FormulaError>((e@, end as int)),
        Err(e) => p == Err::<(ExprView, int), FormulaError>(e),
    }
}

pub proof fn lemma_blanks_end_bounds(s: Seq<char>, pos: int)
    requires
        0 <= pos <= s.len(),
    ensures
        pos <= blanks_end(s, pos) <= s.len(),
    decreases s.len() - pos,
{
    if pos < s.len() && is_blank(s[pos]) {
        lemma_blanks_end_bounds(s, pos + 1);
    }
}

pub proof fn lemma_name_end_bounds(s: Seq<char>, pos: int)
    requires
        0 <= pos <= s.len(),
    ensures
        pos <= name_end(s, pos) <= s.len(),
        pos < s.len() && is_name_part(s[pos]) ==> pos < name_end(s, pos),
    decreases s.len() - pos,
{
    if pos < s.len() && is_name_part(s[pos]) {
        lemma_name_end_bounds(s, pos + 1);
    }
}

/// A run of `n` decimal digits denotes a number below ten to the power `n`.
pub proof fn lemma_decimal_value_bound(s: Seq<char>)
    ensures
        0 <= digits_value(s, 10) < pow10(s.len()),
    decreases s.len(),
{
    lemma_digits_value_nonnegative(s, 10);
    if s.len() > 0 {
        lemma_decimal_value_bound(s.drop_last());
    }
}

/// Skips the blanks that start at `pos`.
fn skip_blanks(s: &[char], pos: usize) -> (end: usize)
    requires
        pos <= s.len(),
    ensures
        end == blanks_end(s@, pos as int),
        pos <= end <= s.len(),
{
    let mut p: usize = pos;
    while p < s.len() && char_is_blank(s[p])
        invariant
            pos <= p <= s.len(),
            blanks_end(s@, pos as int) == blanks_end(s@, p as int),
        decreases s.len() - p,
    {
        p = p + 1;
    }
    p
}

fn char_is_name_start(c: char) -> (b: bool)
    ensures
        b == is_name_start(c),
{
    let u: u32 = c as u32;
    (0x41 <= u && u <= 0x5a) || (0x61 <= u && u <= 0x7a) || u == 0x5f
}

fn char_is_name_part(c: char) -> (b: bool)
    ensures
        b == is_name_part(c),
{
    char_is_name_start(c) || char_digit(c, 10).is_some()
}

/// Finds the end of the name that starts at `pos`.
fn scan_name(s: &[char], pos: usize) -> (end: usize)
    requires
        pos <= s.len(),
    ensures
        end == name_end(s@, pos as int),
        pos <= end <= s.len(),
{
    let mut p: usize = pos;
    while p < s.len() && char_is_name_part(s[p])
        invariant
            pos <= p <= s.len(),
            name_end(s@, pos as int) == name_end(s@, p as int),
        decreases s.len() - p,
    {
        p = p + 1;
    }
    p
}

/// The billionths that the fraction digits in `s[from..to]` denote.
fn fraction_to_units(s: &[char], from: usize, to: usize) -> (units: u64)
    requires
        from <= to <= s.len(),
    ensures
        units == fraction_units(s@.subrange(from as int, to as int)),
        units < REAL_SCALE,
{
    let ghost digits = s@.subrange(from as int, to as int);
    let k: usize = if to - from < 9 {
        to - from
    } else {
        9
    };
    proof {
        assert(s@.subrange(from as int, from + k) =~= digits.take(k as int));
        lemma_decimal_value_bound(digits.take(k as int));
        reveal_with_fuel(pow10, 10);
    }
    let head: u64 = match digits_to_u64(s, from, from + k, 10) {
        Some(v) => v,
        None => 0,
    };
    let mut units: u64 = head;
    let mut i: usize = k;
    while i < 9
        invariant
            k <= i <= 9,
            units == head * pow10((i - k) as nat),
            units < pow10(i as nat),
        decreases 9 - i,
    {
        proof {
            reveal_with_fuel(pow10, 10);
            let a = pow10((i - k) as nat);
            assert(pow10((i + 1 - k) as nat) == 10 * a);
            assert(head * (10 * a) == (head * a) * 10) by (nonlinear_arith);
        }
        units = units * 10;
        i = i + 1;
    }
    proof {
        reveal_with_fuel(pow10, 10);
    }
    units
}

/// Reads the number that starts at `pos`.
fn parse_number(s: &[char], pos: usize) -> (r: Result<(Number, usize), FormulaError>)
    requires
        pos < s.len(),
        digit_of(s@[pos as int], 10) is Some,
    ensures
        match r {
            Ok((n, end)) => number_at(s@, pos as int) == Ok::<(Number, int), FormulaError>(
                (n, end as int),
            ) && pos < end <= s.len(),
            Err(e) => number_at(s@, pos as int) == Err::<(Number, int), FormulaError>(e),
        },
{
    let too_large = FormulaError { kind: FormulaErrorKind::NumberTooLarge, position: pos };
    if s.len() - pos > 2 && s[pos] == '0' && (s[pos + 1] == 'x' || s[pos + 1] == 'X')
        && char_digit(s[pos + 2], 16).is_some() {
        let end = scan_digits(s, pos + 2, 16);
        match digits_to_u64(s, pos + 2, end, 16) {
            Some(v) => if v <= 0x7fff_ffff_ffff_ffffu64 {
                Ok((Number::Integer(v as i64), end))
            } else {
                Err(too_large)
            },
            None => Err(too_large),
        }
    } else {
        let end = scan_digits(s, pos, 10);
        proof {
            lemma_digits_end_bounds(s@, pos + 1, 10);
            assert(end == digits_end(s@, pos + 1, 10));
        }
        let v: u64 = match digits_to_u64(s, pos, end, 10) {
            Some(v) => v,
            None => {
                return Err(too_large);
            },
        };
        if v > 0x7fff_ffff_ffff_ffffu64 {
            return Err(too_large);
        }
        if s.len() - end > 1 && s[end] == '.' && char_digit(s[end + 1], 10).is_some() {
            let fraction_end = scan_digits(s, end + 1, 10);
            let units = fraction_to_units(s, end + 1, fraction_end);
            Ok((Number::Real((v as i128) * REAL_SCALE + (units as i128)), fraction_end))
        } else {
            Ok((Number::Integer(v as i64), end))
        }
    }
}

/// Reads the factor that starts at `pos`.
fn parse_factor(text: &str, s: &[char], pos: usize) -> (r: Result<(Expr, usize), FormulaError>)
    requires
        s@ == text@,
        pos <= s.len(),
    ensures
        agrees(r, factor_at(s@, pos as int)),
        r matches Ok((_, end)) ==> pos < end <= s.len(),
    decreases s.len() - pos, 0int,
{
    let p = skip_blanks(s, pos);
    if p >= s.len() {
        return Err(FormulaError { kind: FormulaErrorKind::ExpectedOperand, position: p });
    }
    let c = s[p];
    if char_digit(c, 10).is_some() {
        match parse_number(s, p) {
            Ok((n, end)) => Ok((Expr::Literal(n), end)),
            Err(e) => Err(e),
        }
    } else if char_is_name_start(c) {
        let end = scan_name(s, p);
        proof {
            lemma_name_end_bounds(s@, p as int);
        }
        let name = text.substring_char(p, end).to_owned();
        Ok((Expr::Ident(name), end))
    } else if c == '(' {
        match parse_expr(text, s, p + 1) {
            Ok((e, after)) => {
                let q = skip_blanks(s, after);
                if q < s.len() && s[q] == ')' {
                    Ok((e, q + 1))
                } else {
                    Err(
                        FormulaError {
                            kind: FormulaErrorKind::ExpectedClosingParenthesis,
                            position: q,
                        },
                    )
                }
            },
            Err(e) => Err(e),
        }
    } else if c == '-' {
        match parse_factor(text, s, p + 1) {
            Ok((e, end)) => Ok((Expr::Neg(Box::new(e)), end)),
            Err(e) => Err(e),
        }
    } else {
        Err(FormulaError { kind: FormulaErrorKind::ExpectedOperand, position: p })
    }
}

/// Reads the term that starts at `pos`.
fn parse_term(text: &str, s: &[char], pos: usize) -> (r: Result<(Expr, usize), FormulaError>)
    requires
        s@ == text@,
        pos <= s.len(),
    ensures
        agrees(r, term_at(s@, pos as int)),
        r matches Ok((_, end)) ==> pos < end <= s.len(),
    decreases s.len() - pos, 2int,
{
    let (first, first_end) = match parse_factor(text, s, pos) {
        Ok(found) => found,
        Err(e) => {
            return Err(e);
        },
    };
    let mut left = first;
    let mut p: usize = first_end;
    loop
        invariant
            s@ == text@,
            pos < p <= s.len(),
            term_at(s@, pos as int) == term_tail(s@, p as int, left@),
        decreases s.len() - p,
    {
        let q = skip_blanks(s, p);
        if q < s.len() && (s[q] == '*' || s[q] == '/') {
            let op = if s[q] == '*' {
                BinaryOp::Mul
            } else {
                BinaryOp::Div
            };
            match parse_factor(text, s, q + 1) {
                Ok((right, end)) => {
                    left = Expr::Binary(op, Box::new(left), Box::new(right));
                    p = end;
                },
                Err(e) => {
                    return Err(e);
                },
            }
        } else {
            return Ok((left, p));
        }
    }
}

/// Reads the expression that starts at `pos`.
fn parse_expr(text: &str, s: &[char], pos: usize) -> (r: Result<(Expr, usize), FormulaError>)
    requires
        s@ == text@,
        pos <= s.len(),
    ensures
        agrees(r, expr_at(s@, pos as int)),
        r matches Ok((_, end)) ==> pos < end <= s.len(),
    decreases s.len() - pos, 4int,
{
    let (first, first_end) = match parse_term(text, s, pos) {
        Ok(found) => found,
        Err(e) => {
            return Err(e);
        },
    };
    let mut left = first;
    let mut p: usize = first_end;
    loop
        invariant
            s@ == text@,
            pos < p <= s.len(),
            expr_at(s@, pos as int) == expr_tail(s@, p as int, left@),
        decreases s.len() - p,
    {
        let q = skip_blanks(s, p);
        if q < s.len() && (s[q] == '+' || s[q] == '-') {
            let op = if s[q] == '+' {
                BinaryOp::Add
            } else {
                BinaryOp::Sub
            };
            match parse_term(text, s, q + 1) {
                Ok((right, end)) => {
                    left = Expr::Binary(op, Box::new(left), Box::new(right));
                    p = end;
                },
                Err(e) => {
                    return Err(e);
                },
            }
        } else {
            return Ok((left, p));
        }
    }
}

/// Parses the text of a formula.
pub fn parse_formula(text: &str) -> (r: Result<Expr, FormulaError>)
    ensures
        match r {
            Ok(e) => formula_of(text@) == Ok::<ExprView, FormulaError>(e@),
            Err(e) => formula_of(text@) == Err::<ExprView, FormulaError>(e),
        },
{
    let chars = chars_of(text);
    let s = chars.as_slice();
    match parse_expr(text, s, 0) {
        Ok((e, end)) => {
            let q = skip_blanks(s, end);
            if q >= s.len() {
                Ok(e)
            } else {
                Err(FormulaError { kind: FormulaErrorKind::UnexpectedCharacter, position: q })
            }
        },
        Err(e) => Err(e),
    }
}

/// What follows the factors or terms read so far ends within the text.
pub proof fn lemma_tail_bounds(s: Seq<char>, pos: int, left: ExprView)
    requires
        0 <= pos <= s.len(),
    ensures
        term_tail(s, pos, left) matches Ok((_, end)) ==> pos <= end <= s.len(),
        expr_tail(s, pos, left) matches Ok((_, end)) ==> pos <= end <= s.len(),
    decreases s.len() - pos, 0int,
{
    lemma_blanks_end_bounds(s, pos);
    let q = blanks_end(s, pos);
    if q < s.len() && (s[q] == '*' || s[q] == '/') {
        if let Ok((right, end)) = factor_at(s, q + 1) {
            lemma_parse_advances(s, q + 1);
            let op = if s[q] == '*' {
                BinaryOp::Mul
            } else {
                BinaryOp::Div
            };
            lemma_tail_bounds(s, end, ExprView::Binary(op, Box::new(left), Box::new(right)));
        }
    }
    if q < s.len() && (s[q] == '+' || s[q] == '-') {
        if let Ok((right, end)) = term_at(s, q + 1) {
            lemma_parse_advances(s, q + 1);
            let op = if s[q] == '+' {
                BinaryOp::Add
            } else {
                BinaryOp::Sub
            };
            lemma_tail_bounds(s, end, ExprView::Binary(op, Box::new(left), Box::new(right)));
        }
    }
}

/// Every factor, term and expression ends after it starts and within the
/// text, so the tests to that effect in the grammar never fail.
pub proof fn lemma_parse_advances(s: Seq<char>, pos: int)
    requires
        0 <= pos <= s.len(),
    ensures
        factor_at(s, pos) matches Ok((_, end)) ==> pos < end <= s.len(),
        term_at(s, pos) matches Ok((_, end)) ==> pos < end <= s.len(),
        expr_at(s, pos) matches Ok((_, end)) ==> pos < end <= s.len(),
    decreases s.len() - pos, 1int,
{
    lemma_blanks_end_bounds(s, pos);
    let p = blanks_end(s, pos);
    if p < s.len() {
        if digit_of(s[p], 10) is Some {
            lemma_digits_end_bounds(s, p + 1, 10);
            if hex_number_starts(s, p) {
                lemma_digits_end_bounds(s, p + 2, 16);
            }
            let end = digits_end(s, p, 10);
            assert(end == digits_end(s, p + 1, 10));
            if end + 1 < s.len() {
                lemma_digits_end_bounds(s, end + 1, 10);
            }
        } else if is_name_start(s[p]) {
            lemma_name_end_bounds(s, p);
        } else if s[p] == '(' {
            lemma_parse_advances(s, p + 1);
            if let Ok((_, after)) = expr_at(s, p + 1) {
                lemma_blanks_end_bounds(s, after);
            }
        } else if s[p] == '-' {
            lemma_parse_advances(s, p + 1);
        }
    }
    if let Ok((left, end)) = factor_at(s, pos) {
        lemma_tail_bounds(s, end, left);
    }
    if let Ok((left, end)) = term_at(s, pos) {
        lemma_tail_bounds(s, end, left);
    }
}

/// The definitions of a symbol table, oldest first.
pub type Bindings = Seq<(Seq<char>, Number)>;

/// The value that `name` stands for: that of its latest definition.
pub open spec fn lookup(env: Bindings, name: Seq<char>) -> Option<Number>
    decreases env.len(),
{
    if env.len() == 0 {
        None
    } else if env.last().0 == name {
        Some(env.last().1)
    } else {
        lookup(env.drop_last(), name)
    }
}

/// The result of one operator on two numbers.
pub open spec fn apply(op: BinaryOp, a: Number, b: Number) -> Result<Number, EvalError> {
    match op {
        BinaryOp::Add => a.spec_plus(b),
        BinaryOp::Sub => a.spec_minus(b),
        BinaryOp::Mul => a.spec_times(b),
        BinaryOp::Div => a.spec_divided_by(b),
    }
}

/// The value of a formula under a symbol table. The left operand is
/// evaluated before the right one, and the first error met is the result.
pub open spec fn value_of(e: ExprView, env: Bindings) -> Result<Number, EvalError>
    decreases e,
{
    match e {
        ExprView::Literal(n) => Ok(n),
        ExprView::Ident(name) => match lookup(env, name) {
            Some(v) => Ok(v),
            None => Err(EvalError::UnresolvedReference),
        },
        ExprView::Neg(inner) => match value_of(*inner, env) {
            Ok(v) => v.spec_negated(),
            Err(e) => Err(e),
        },
        ExprView::Binary(op, l, r) => match value_of(*l, env) {
            Ok(a) => match value_of(*r, env) {
                Ok(b) => apply(op, a, b),
                Err(e) => Err(e),
            },
            Err(e) => Err(e),
        },
    }
}

/// The names that a formula can use, each with its value.
pub struct SymbolTable {
    entries: Vec<(String, Number)>,
}

impl View for SymbolTable {
    type V = Bindings;

    closed spec fn view(&self) -> Bindings {
        Seq::new(self.entries@.len(), |i: int| (self.entries@[i].0@, self.entries@[i].1))
    }
}

impl SymbolTable {
    /// A table without definitions.
    pub fn new() -> (table: SymbolTable)
        ensures
            table@ == Seq::<(Seq<char>, Number)>::empty(),
    {
        SymbolTable { entries: Vec::new() }
    }

    /// The number of definitions made.
    pub fn len(&self) -> (n: usize)
        ensures
            n == self@.len(),
    {
        self.entries.len()
    }

    /// Defines `name` as `value`. An earlier definition of the name is hidden.
    pub fn define(&mut self, name: String, value: Number)
        ensures
            final(self)@ == old(self)@.push((name@, value)),
    {
        self.entries.push((name, value));
    }

    /// The value that `name` stands for.
    pub fn get(&self, name: &str) -> (value: Option<Number>)
        ensures
            value == lookup(self@, name@),
    {
        let mut i: usize = self.entries.len();
        assert(self@.take(i as int) =~= self@);
        while i > 0
            invariant
                i <= self.entries.len(),
                self@.len() == self.entries.len(),
                lookup(self@, name@) == lookup(self@.take(i as int), name@),
            decreases i,
        {
            proof {
                assert(self@.take(i as int).drop_last() =~= self@.take(i - 1));
            }
            if crate::text::str_eq(self.entries[i - 1].0.as_str(), name) {
                return Some(self.entries[i - 1].1);
            }
            i = i - 1;
        }
        None
    }
}

impl Expr {
    /// Evaluates the formula under a symbol table.
    pub fn evaluate(&self, env: &SymbolTable) -> (r: Result<Number, EvalError>)
        ensures
            r == value_of(self@, env@),
        decreases self,
    {
        match self {
            Expr::Literal(n) => Ok(*n),
            Expr::Ident(name) => match env.get(name.as_str()) {
                Some(v) => Ok(v),
                None => Err(EvalError::UnresolvedReference),
            },
            Expr::Neg(inner) => match inner.evaluate(env) {
                Ok(v) => v.negated(),
                Err(e) => Err(e),
            },
            Expr::Binary(op, l, r) => {
                let a = match l.evaluate(env) {
                    Ok(a) => a,
                    Err(e) => {
                        return Err(e);
                    },
                };
                let b = match r.evaluate(env) {
                    Ok(b) => b,
                    Err(e) => {
                        return Err(e);
                    },
                };
                match op {
                    BinaryOp::Add => a.plus(b),
                    BinaryOp::Sub => a.minus(b),
                    BinaryOp::Mul => a.times(b),
                    BinaryOp::Div => a.divided_by(b),
                }
            },
        }
    }
}

} // verus!
