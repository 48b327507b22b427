use genapi_core::elem_type::NumericKind;
use genapi_core::error::ParseError;
use genapi_core::formula::{FormulaError, FormulaErrorKind};
use genapi_core::node_store::NodeStore;
use genapi_core::number::{EvalError, Number};
use genapi_core::parse::Parse;
use genapi_core::swiss_knife::SwissKnifeNode;
use genapi_core::xml::Element;

fn named(tag: &str, name: &str, content: &str) -> Element {
    Element::new(tag).with_attribute("Name", name).with_text(content)
}

fn example(tag: &str) -> Element {
    Element::new(tag)
        .with_attribute("Name", "Testnode")
        .with_child(named("pVariable", "Var1", "pValue1"))
        .with_child(named("pVariable", "Var2", "pValue2"))
        .with_child(named("Constant", "Const", "10"))
        .with_child(named("Expression", "ConstBy2", "2.0*Const"))
        .with_child(Element::new("Formula").with_text("Var1+Var2+ConstBy2"))
}

fn parse(elem: &Element) -> Result<SwissKnifeNode, ParseError> {
    SwissKnifeNode::parse(elem, &mut NodeStore::new())
}

#[test]
fn the_example_node_is_read() {
    let mut store = NodeStore::new();
    let node = SwissKnifeNode::parse(&example("IntSwissKnife"), &mut store).unwrap();
    assert_eq!(node.kind(), NumericKind::Integer);
    assert_eq!(node.node_base().id(), store.lookup("Testnode").unwrap());
    assert_eq!(node.variable_count(), 2);
    assert_eq!(node.variable_name(0), "Var1");
    assert_eq!(node.variable_name(1), "Var2");
    assert_eq!(node.variable_node(0), store.lookup("pValue1").unwrap());
    assert_eq!(node.variable_node(1), store.lookup("pValue2").unwrap());
    assert_eq!(
        node.formula(),
        &genapi_core::formula::parse_formula("Var1 + Var2 + ConstBy2").unwrap()
    );
}

#[test]
fn the_example_formula_is_the_sum_plus_twenty() {
    let integer = parse(&example("IntSwissKnife")).unwrap();
    let real = parse(&example("SwissKnife")).unwrap();
    assert_eq!(real.kind(), NumericKind::Real);
    for (v1, v2) in [(0i64, 0i64), (3, 4), (-50, 7), (1_000_000_007, 2)] {
        let values = [Number::Integer(v1), Number::Integer(v2)];
        assert_eq!(integer.evaluate(&values), Ok(Number::Integer(v1 + v2 + 20)));
        match real.evaluate(&values) {
            Ok(Number::Real(billionths)) => {
                assert_eq!(billionths as f64 / 1e9, v1 as f64 + v2 as f64 + 20.0);
            }
            _ => panic!(),
        }
    }
}

#[test]
fn the_example_formula_overflows_past_the_integers() {
    let integer = parse(&example("IntSwissKnife")).unwrap();
    let values = [Number::Integer(i64::MAX), Number::Integer(i64::MAX)];
    assert_eq!(integer.evaluate(&values), Err(EvalError::Overflow));
    let values = [Number::Integer(i64::MAX), Number::Integer(-10)];
    assert_eq!(integer.evaluate(&values), Err(EvalError::Overflow));
}

#[test]
fn an_integer_node_rounds_toward_zero() {
    let elem = Element::new("IntSwissKnife")
        .with_attribute("Name", "K")
        .with_child(named("pVariable", "x", "X"))
        .with_child(Element::new("Formula").with_text("x / 2.0"));
    let node = parse(&elem).unwrap();
    assert_eq!(node.evaluate(&[Number::Integer(7)]), Ok(Number::Integer(3)));
    assert_eq!(node.evaluate(&[Number::Integer(-7)]), Ok(Number::Integer(-3)));
}

#[test]
fn a_real_node_promotes_an_integer() {
    let elem = Element::new("SwissKnife")
        .with_attribute("Name", "K")
        .with_child(Element::new("Formula").with_text("7 / 2"));
    assert_eq!(parse(&elem).unwrap().evaluate(&[]), Ok(Number::Real(3_000_000_000)));
}

#[test]
fn expressions_see_what_stands_before_them_only() {
    let earlier = Element::new("IntSwissKnife")
        .with_attribute("Name", "K")
        .with_child(named("Expression", "a", "2"))
        .with_child(named("Expression", "b", "a * 3"))
        .with_child(Element::new("Formula").with_text("a + b"));
    assert_eq!(parse(&earlier).unwrap().evaluate(&[]), Ok(Number::Integer(8)));
    let later = Element::new("IntSwissKnife")
        .with_attribute("Name", "K")
        .with_child(named("Expression", "b", "a * 3"))
        .with_child(named("Expression", "a", "2"))
        .with_child(Element::new("Formula").with_text("a + b"));
    assert_eq!(parse(&later).unwrap().evaluate(&[]), Err(EvalError::UnresolvedReference));
}

#[test]
fn constants_may_be_real_hexadecimal_or_negative() {
    let elem = Element::new("SwissKnife")
        .with_attribute("Name", "K")
        .with_child(named("Constant", "a", " 0x10 "))
        .with_child(named("Constant", "b", "-2.5"))
        .with_child(Element::new("Formula").with_text("a * b"));
    assert_eq!(parse(&elem).unwrap().evaluate(&[]), Ok(Number::Real(-40_000_000_000)));
}

#[test]
fn errors_of_a_computed_node() {
    let base = || Element::new("IntSwissKnife").with_attribute("Name", "K");
    let formula = || Element::new("Formula").with_text("1");
    assert_eq!(
        parse(&Element::new("Converter").with_attribute("Name", "K").with_child(formula())),
        Err(ParseError::UnexpectedTag)
    );
    assert_eq!(
        parse(&Element::new("IntSwissKnife").with_child(formula())),
        Err(ParseError::MissingAttribute)
    );
    assert_eq!(parse(&base()), Err(ParseError::MissingElement));
    assert_eq!(
        parse(&base().with_child(Element::new("pVariable").with_text("X")).with_child(formula())),
        Err(ParseError::MissingAttribute)
    );
    assert_eq!(
        parse(&base().with_child(named("Constant", "c", "ten")).with_child(formula())),
        Err(ParseError::InvalidValue)
    );
    assert_eq!(
        parse(&base().with_child(named("Constant", "c", "1/0")).with_child(formula())),
        Err(ParseError::InvalidValue)
    );
    assert_eq!(
        parse(&base().with_child(named("Expression", "e", "1 +")).with_child(formula())),
        Err(ParseError::InvalidFormula(FormulaError {
            kind: FormulaErrorKind::ExpectedOperand,
            position: 3
        }))
    );
    assert_eq!(
        parse(&base().with_child(Element::new("Formula").with_text("(1"))),
        Err(ParseError::InvalidFormula(FormulaError {
            kind: FormulaErrorKind::ExpectedClosingParenthesis,
            position: 2
        }))
    );
    assert_eq!(
        parse(&base().with_child(formula()).with_child(named("Constant", "c", "1"))),
        Err(ParseError::UnexpectedElement)
    );
    assert_eq!(
        parse(&base().with_child(named("Constant", "c", "1")).with_child(named("pVariable", "v", "V")).with_child(formula())),
        Err(ParseError::MissingElement)
    );
}

#[test]
fn a_name_defined_twice_is_rejected() {
    let base = || Element::new("IntSwissKnife").with_attribute("Name", "K");
    let formula = || Element::new("Formula").with_text("1");
    for (first, second) in [
        (named("pVariable", "n", "A"), named("pVariable", "n", "B")),
        (named("pVariable", "n", "A"), named("Constant", "n", "1")),
        (named("pVariable", "n", "A"), named("Expression", "n", "1")),
        (named("Constant", "n", "1"), named("Expression", "n", "1")),
        (named("Expression", "n", "1"), named("Expression", "n", "2")),
    ] {
        let elem = base().with_child(first).with_child(second).with_child(formula());
        assert_eq!(parse(&elem), Err(ParseError::DuplicateName));
    }
    let fine = base()
        .with_child(named("pVariable", "n", "A"))
        .with_child(named("Constant", "N", "1"))
        .with_child(formula());
    assert!(parse(&fine).is_ok());
}
