use genapi_core::formula::{parse_formula, BinaryOp, Expr, FormulaError, FormulaErrorKind, SymbolTable};
use genapi_core::number::{EvalError, Number};

fn lit(v: i64) -> Box<Expr> {
    Box::new(Expr::Literal(Number::Integer(v)))
}

fn name(s: &str) -> Box<Expr> {
    Box::new(Expr::Ident(s.to_string()))
}

fn eval(text: &str, env: &SymbolTable) -> Result<Number, EvalError> {
    parse_formula(text).unwrap().evaluate(env)
}

fn error(kind: FormulaErrorKind, position: usize) -> Result<Expr, FormulaError> {
    Err(FormulaError { kind, position })
}

#[test]
fn parses_the_two_formulas_of_the_register_example() {
    assert_eq!(
        parse_formula("2.0*Const"),
        Ok(Expr::Binary(
            BinaryOp::Mul,
            Box::new(Expr::Literal(Number::Real(2_000_000_000))),
            name("Const")
        ))
    );
    assert_eq!(
        parse_formula("Var1+Var2+ConstBy2"),
        Ok(Expr::Binary(
            BinaryOp::Add,
            Box::new(Expr::Binary(BinaryOp::Add, name("Var1"), name("Var2"))),
            name("ConstBy2")
        ))
    );
}

#[test]
fn operators_of_one_level_associate_to_the_left() {
    assert_eq!(
        parse_formula("8-3-2"),
        Ok(Expr::Binary(
            BinaryOp::Sub,
            Box::new(Expr::Binary(BinaryOp::Sub, lit(8), lit(3))),
            lit(2)
        ))
    );
    let env = SymbolTable::new();
    assert_eq!(eval("8-3-2", &env), Ok(Number::Integer(3)));
    assert_eq!(eval("64/4/2", &env), Ok(Number::Integer(8)));
}

#[test]
fn products_bind_tighter_than_sums() {
    assert_eq!(
        parse_formula("1+2*3"),
        Ok(Expr::Binary(
            BinaryOp::Add,
            lit(1),
            Box::new(Expr::Binary(BinaryOp::Mul, lit(2), lit(3)))
        ))
    );
    let env = SymbolTable::new();
    assert_eq!(eval("1+2*3", &env), Ok(Number::Integer(7)));
    assert_eq!(eval("(1+2)*3", &env), Ok(Number::Integer(9)));
    assert_eq!(eval("2*(3+4)*5", &env), Ok(Number::Integer(70)));
}

#[test]
fn blanks_are_skipped() {
    assert_eq!(parse_formula("  1 \t+\n 2  "), parse_formula("1+2"));
    assert_eq!(parse_formula(" ( a ) "), Ok(Expr::Ident("a".to_string())));
}

#[test]
fn unary_minus() {
    let env = SymbolTable::new();
    assert_eq!(parse_formula("-5"), Ok(Expr::Neg(lit(5))));
    assert_eq!(eval("-5", &env), Ok(Number::Integer(-5)));
    assert_eq!(eval("3 - -2", &env), Ok(Number::Integer(5)));
    assert_eq!(eval("--4", &env), Ok(Number::Integer(4)));
    assert_eq!(eval("-(2+3)*2", &env), Ok(Number::Integer(-10)));
}

#[test]
fn number_literals() {
    assert_eq!(parse_formula("0x10"), Ok(Expr::Literal(Number::Integer(16))));
    assert_eq!(parse_formula("0XfF"), Ok(Expr::Literal(Number::Integer(255))));
    assert_eq!(parse_formula("007"), Ok(Expr::Literal(Number::Integer(7))));
    assert_eq!(parse_formula("1.5"), Ok(Expr::Literal(Number::Real(1_500_000_000))));
    assert_eq!(parse_formula("0.000000001"), Ok(Expr::Literal(Number::Real(1))));
    // digits past the ninth are dropped
    assert_eq!(parse_formula("0.1234567899"), Ok(Expr::Literal(Number::Real(123_456_789))));
    assert_eq!(
        parse_formula("9223372036854775807"),
        Ok(Expr::Literal(Number::Integer(i64::MAX)))
    );
    assert_eq!(
        parse_formula("9223372036854775807.5"),
        Ok(Expr::Literal(Number::Real(
            9_223_372_036_854_775_807i128 * 1_000_000_000 + 500_000_000
        )))
    );
}

#[test]
fn syntax_errors_carry_kind_and_position() {
    assert_eq!(parse_formula(""), error(FormulaErrorKind::ExpectedOperand, 0));
    assert_eq!(parse_formula("   "), error(FormulaErrorKind::ExpectedOperand, 3));
    assert_eq!(parse_formula("1+"), error(FormulaErrorKind::ExpectedOperand, 2));
    assert_eq!(parse_formula("1 + * 2"), error(FormulaErrorKind::ExpectedOperand, 4));
    assert_eq!(parse_formula("(1+2"), error(FormulaErrorKind::ExpectedClosingParenthesis, 4));
    assert_eq!(parse_formula("(1+2 3)"), error(FormulaErrorKind::ExpectedClosingParenthesis, 5));
    assert_eq!(parse_formula("1 2"), error(FormulaErrorKind::UnexpectedCharacter, 2));
    assert_eq!(parse_formula("1+2)"), error(FormulaErrorKind::UnexpectedCharacter, 3));
    assert_eq!(parse_formula("2x"), error(FormulaErrorKind::UnexpectedCharacter, 1));
    assert_eq!(parse_formula("1."), error(FormulaErrorKind::UnexpectedCharacter, 1));
    assert_eq!(parse_formula("a $ b"), error(FormulaErrorKind::UnexpectedCharacter, 2));
    assert_eq!(
        parse_formula("1+9223372036854775808"),
        error(FormulaErrorKind::NumberTooLarge, 2)
    );
    assert_eq!(
        parse_formula("0xffffffffffffffff"),
        error(FormulaErrorKind::NumberTooLarge, 0)
    );
    assert_eq!(
        parse_formula("99999999999999999999999999"),
        error(FormulaErrorKind::NumberTooLarge, 0)
    );
}

#[test]
fn names_are_looked_up_in_the_table() {
    let mut env = SymbolTable::new();
    env.define("Width".to_string(), Number::Integer(640));
    env.define("_x1".to_string(), Number::Integer(2));
    assert_eq!(env.len(), 2);
    assert_eq!(env.get("Width"), Some(Number::Integer(640)));
    assert_eq!(env.get("width"), None);
    assert_eq!(eval("Width * _x1", &env), Ok(Number::Integer(1280)));
    assert_eq!(eval("Width + Height", &env), Err(EvalError::UnresolvedReference));
}

#[test]
fn a_later_definition_hides_an_earlier_one() {
    let mut env = SymbolTable::new();
    env.define("a".to_string(), Number::Integer(1));
    env.define("b".to_string(), Number::Integer(5));
    env.define("a".to_string(), Number::Integer(2));
    assert_eq!(env.get("a"), Some(Number::Integer(2)));
    assert_eq!(env.get("b"), Some(Number::Integer(5)));
}

#[test]
fn integer_division_rounds_toward_zero_and_rejects_zero() {
    let env = SymbolTable::new();
    assert_eq!(eval("7/2", &env), Ok(Number::Integer(3)));
    assert_eq!(eval("-7/2", &env), Ok(Number::Integer(-3)));
    assert_eq!(eval("7/-2", &env), Ok(Number::Integer(-3)));
    assert_eq!(eval("-7/-2", &env), Ok(Number::Integer(3)));
    assert_eq!(eval("1/0", &env), Err(EvalError::DivisionByZero));
    assert_eq!(eval("1/(2-2)", &env), Err(EvalError::DivisionByZero));
}

#[test]
fn a_real_operand_makes_the_operation_real() {
    let env = SymbolTable::new();
    assert_eq!(eval("7/2.0", &env), Ok(Number::Real(3_500_000_000)));
    assert_eq!(eval("7.0/2", &env), Ok(Number::Real(3_500_000_000)));
    assert_eq!(eval("1/3.0", &env), Ok(Number::Real(333_333_333)));
    assert_eq!(eval("-1/3.0", &env), Ok(Number::Real(-333_333_333)));
    assert_eq!(eval("0.5*0.5", &env), Ok(Number::Real(250_000_000)));
    assert_eq!(eval("1.5+1", &env), Ok(Number::Real(2_500_000_000)));
    assert_eq!(eval("1-1.5", &env), Ok(Number::Real(-500_000_000)));
    assert_eq!(eval("1.0/0", &env), Err(EvalError::DivisionByZero));
    assert_eq!(eval("1/0.0", &env), Err(EvalError::DivisionByZero));
}

#[test]
fn integer_overflow_is_an_error() {
    let env = SymbolTable::new();
    assert_eq!(eval("9223372036854775807+1", &env), Err(EvalError::Overflow));
    assert_eq!(eval("-9223372036854775807-2", &env), Err(EvalError::Overflow));
    assert_eq!(eval("4611686018427387904*2", &env), Err(EvalError::Overflow));
    assert_eq!(eval("-9223372036854775807-1", &env), Ok(Number::Integer(i64::MIN)));
    assert_eq!(eval("(-9223372036854775807-1)/-1", &env), Err(EvalError::Overflow));
    assert_eq!(eval("-(-9223372036854775807-1)", &env), Err(EvalError::Overflow));
}

#[test]
fn the_left_operand_is_evaluated_first() {
    let env = SymbolTable::new();
    assert_eq!(eval("1/0 + missing", &env), Err(EvalError::DivisionByZero));
    assert_eq!(eval("missing + 1/0", &env), Err(EvalError::UnresolvedReference));
}

#[test]
fn sum_of_two_variables_and_a_scaled_constant() {
    for (v1, v2) in [(0i64, 0i64), (3, 4), (-30, 5), (1 << 40, -(1 << 39))] {
        let mut env = SymbolTable::new();
        env.define("Const".to_string(), Number::Integer(10));
        env.define("Var1".to_string(), Number::Integer(v1));
        env.define("Var2".to_string(), Number::Integer(v2));
        let by2 = eval("2.0*Const", &env).unwrap();
        assert_eq!(by2, Number::Real(20_000_000_000));
        env.define("ConstBy2".to_string(), by2);
        match eval("Var1+Var2+ConstBy2", &env) {
            Ok(Number::Real(billionths)) => {
                assert_eq!(billionths as f64 / 1e9, v1 as f64 + v2 as f64 + 20.0);
            }
            _ => panic!(),
        }
    }
}
