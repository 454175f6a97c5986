use rpnc::error::{Reason, RpnError};
use rpnc::operand::{BinOp, Operand};
use rpnc::rpn::RPN;

/// Numeric evaluation of the operand tree in IEEE-754 doubles, the domain the
/// library leaves to its callers.
fn eval(op: &Operand) -> f64 {
    match op {
        Operand::Lit(s) => s.parse::<f64>().expect("literal is a digit run"),
        Operand::Apply(op, l, r) => {
            let a = eval(l);
            let b = eval(r);
            match op {
                BinOp::Add => a + b,
                BinOp::Sub => a - b,
                BinOp::Mul => a * b,
                BinOp::Div => a / b,
                BinOp::Rem => a % b,
            }
        },
    }
}

fn calc_f64(input: &str) -> Result<f64, RpnError> {
    RPN::calc(String::from(input)).map(|o| eval(&o))
}

#[test]
fn test_calc() {
    assert_eq!(calc_f64("1 2 +").unwrap(), 3.0);
    assert_eq!(calc_f64("1 2 -").unwrap(), -1.0);
    assert_eq!(calc_f64("100 1 +").unwrap(), 101.0);
    assert_eq!(calc_f64("15 7 1 1 + - / 3 * 2 1 1 + + -").unwrap(), 5.0);
    assert_eq!(calc_f64("1 2 /").unwrap(), 0.5);
    assert!(calc_f64("15 7").is_err());
    assert!(calc_f64("a b +").is_err());
}

#[test]
fn empty_input_is_malformed() {
    assert_eq!(
        RPN::calc(String::new()),
        Err(RpnError::MalformedExpression(Reason::NoResult))
    );
}

#[test]
fn single_literal_succeeds() {
    assert_eq!(calc_f64("42").unwrap(), 42.0);
    assert_eq!(
        RPN::calc(String::from("42")).unwrap(),
        Operand::Lit(String::from("42"))
    );
}

#[test]
fn addition_builds_the_expected_tree() {
    assert_eq!(
        RPN::calc(String::from("1 2 +")).unwrap(),
        Operand::Apply(
            BinOp::Add,
            Box::new(Operand::Lit(String::from("1"))),
            Box::new(Operand::Lit(String::from("2"))),
        )
    );
}

#[test]
fn two_literals_without_operator_are_leftover() {
    assert_eq!(
        RPN::calc(String::from("15 7")),
        Err(RpnError::MalformedExpression(Reason::Leftover))
    );
}

#[test]
fn letters_underflow_the_stack() {
    assert_eq!(
        RPN::calc(String::from("a b +")),
        Err(RpnError::MalformedExpression(Reason::Underflow))
    );
}

#[test]
fn lone_operator_underflows() {
    assert_eq!(
        RPN::calc(String::from("1 +")),
        Err(RpnError::MalformedExpression(Reason::Underflow))
    );
}

#[test]
fn division_by_zero_gives_infinity() {
    assert_eq!(calc_f64("5 0 /").unwrap(), f64::INFINITY);
}

#[test]
fn remainder_works_and_by_zero_gives_nan() {
    assert_eq!(calc_f64("7 3 %").unwrap(), 1.0);
    assert!(calc_f64("5 0 %").unwrap().is_nan());
}

#[test]
fn multiplication_works() {
    assert_eq!(calc_f64("6 7 *").unwrap(), 42.0);
}

#[test]
fn evaluation_is_idempotent() {
    let a = RPN::calc(String::from("15 7 1 1 + - / 3 * 2 1 1 + + -"));
    let b = RPN::calc(String::from("15 7 1 1 + - / 3 * 2 1 1 + + -"));
    assert_eq!(a, b);
    let x = RPN::calc(String::from("a b +"));
    let y = RPN::calc(String::from("a b +"));
    assert_eq!(x, y);
}

#[test]
fn surrounding_whitespace_is_skipped() {
    assert_eq!(calc_f64(" \t1  2 +\n").unwrap(), 3.0);
    assert_eq!(calc_f64("\n42\n").unwrap(), 42.0);
}

#[test]
fn unicode_whitespace_is_skipped() {
    // U+00A0 (no-break space) has the Unicode White_Space property.
    assert_eq!(calc_f64("1\u{00A0}2 +").unwrap(), 3.0);
}

#[test]
fn unrecognized_operator_discards_two_operands() {
    // A character that is no recognized operator still pops two operands and
    // pushes nothing back, as the scan's catch-all dispatch has it.
    assert_eq!(calc_f64("1 2 ? 3").unwrap(), 3.0);
    assert_eq!(
        RPN::calc(String::from("1 2 ?")),
        Err(RpnError::MalformedExpression(Reason::NoResult))
    );
    assert_eq!(
        RPN::calc(String::from("4 2 \u{00D7}")),
        Err(RpnError::MalformedExpression(Reason::NoResult))
    );
}

#[test]
fn decimal_points_are_not_part_of_literals() {
    // The digit-run consumer takes ASCII digits only, so '.' dispatches as an
    // operator and finds a single operand on the stack.
    assert_eq!(
        RPN::calc(String::from("1.5")),
        Err(RpnError::MalformedExpression(Reason::Underflow))
    );
}

#[test]
fn leading_zeros_parse() {
    assert_eq!(calc_f64("007 1 +").unwrap(), 8.0);
}

#[test]
fn error_messages_describe_the_failure() {
    assert_eq!(
        RpnError::MalformedExpression(Reason::Underflow).message(),
        "malformed expression: operator found fewer than two operands"
    );
    assert_eq!(
        RpnError::MalformedExpression(Reason::NoResult).message(),
        "malformed expression: no operands remain"
    );
    assert_eq!(
        RpnError::MalformedExpression(Reason::Leftover).message(),
        "malformed expression: more than one operand remains"
    );
}
