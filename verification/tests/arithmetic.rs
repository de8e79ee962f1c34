//! Arithmetic, precedence, and the operator table, with exact expected
//! values.

use misty_db::interpreter::evaluator::{EvalError, LogEntry, Value, ValueKind};
use misty_db::interpreter::Interpreter;
use misty_db::interpreter::PipelineError;
use misty_db::interpreter::ast::{BinaryOp, UnaryOp};

fn printed_number(source: &str) -> i64 {
    let run = Interpreter::execute_full_pipeline(source.to_string())
        .expect("pipeline should succeed");
    match run.output.last() {
        Some(LogEntry::Printed(Value::Number(n))) => *n,
        other => panic!("expected a printed number, got {:?}", other),
    }
}

#[test]
fn test_multiplication_binds_tighter_than_addition() {
    assert_eq!(printed_number("2 + 3 * 4"), 14);
}

#[test]
fn test_parentheses_override_precedence() {
    assert_eq!(printed_number("(2 + 3) * 4"), 20);
}

#[test]
fn test_division_before_subtraction() {
    assert_eq!(printed_number("10 / 2 - 3"), 2);
}

#[test]
fn test_division_is_left_associative() {
    assert_eq!(printed_number("100 / 10 / 2"), 5);
}

#[test]
fn test_addition_chain() {
    assert_eq!(printed_number("1 + 2 + 3 + 4"), 10);
}

#[test]
fn test_unary_negation() {
    assert_eq!(printed_number("-5 + 3"), -2);
}

#[test]
fn test_division_truncates_toward_zero() {
    assert_eq!(printed_number("7 / 2"), 3);
    assert_eq!(printed_number("-7 / 2"), -3);
}

#[test]
fn test_addition_wraps_at_the_signed_boundary() {
    assert_eq!(
        printed_number("9223372036854775807 + 1"),
        i64::MIN
    );
}

#[test]
fn test_division_by_zero_is_an_error() {
    match Interpreter::execute_full_pipeline("5 / 0".to_string()) {
        Err(PipelineError::Eval(EvalError::DivisionByZero)) => {}
        other => panic!("expected a division-by-zero error, got {:?}", other),
    }
}

#[test]
fn test_number_comparisons() {
    let run = Interpreter::execute_full_pipeline("1 < 2; 2 <= 2; 3 > 4; 3 >= 4; 5 == 5; 5 != 5".to_string())
        .expect("pipeline should succeed");
    let expected = vec![true, true, false, false, true, false];
    let got: Vec<bool> = run
        .output
        .iter()
        .map(|entry| match entry {
            LogEntry::Printed(Value::Boolean(b)) => *b,
            other => panic!("expected a printed boolean, got {:?}", other),
        })
        .collect();
    assert_eq!(got, expected);
}

#[test]
fn test_string_concatenation() {
    let run = Interpreter::execute_full_pipeline("\"ab\" + \"cd\"".to_string())
        .expect("pipeline should succeed");
    assert_eq!(
        run.output,
        vec![LogEntry::Printed(Value::Str("abcd".to_string()))]
    );
}

#[test]
fn test_boolean_logic() {
    let run = Interpreter::execute_full_pipeline("true && false; true || false".to_string())
        .expect("pipeline should succeed");
    assert_eq!(
        run.output,
        vec![
            LogEntry::Printed(Value::Boolean(false)),
            LogEntry::Printed(Value::Boolean(true)),
        ]
    );
}

#[test]
fn test_mixed_operands_are_invalid() {
    match Interpreter::execute_full_pipeline("1 + true".to_string()) {
        Err(PipelineError::Eval(EvalError::InvalidBinaryOp { op, left, right })) => {
            assert_eq!(op, BinaryOp::Add);
            assert_eq!(left, ValueKind::Number);
            assert_eq!(right, ValueKind::Boolean);
        }
        other => panic!("expected an invalid-operation error, got {:?}", other),
    }
}

#[test]
fn test_negating_a_boolean_is_invalid() {
    match Interpreter::execute_full_pipeline("-true".to_string()) {
        Err(PipelineError::Eval(EvalError::InvalidUnaryOp { op, operand })) => {
            assert_eq!(op, UnaryOp::Neg);
            assert_eq!(operand, ValueKind::Boolean);
        }
        other => panic!("expected an invalid-unary error, got {:?}", other),
    }
}

#[test]
fn test_undefined_variable_is_an_error() {
    match Interpreter::execute_full_pipeline("x + 1".to_string()) {
        Err(PipelineError::Eval(EvalError::UndefinedVariable(name))) => {
            assert_eq!(name, "x".to_string());
        }
        other => panic!("expected an undefined-variable error, got {:?}", other),
    }
}

#[test]
fn test_let_binds_and_prints() {
    let run = Interpreter::execute_full_pipeline("let x = 41; x + 1".to_string())
        .expect("pipeline should succeed");
    assert_eq!(
        run.output,
        vec![
            LogEntry::Bound("x".to_string(), Value::Number(41)),
            LogEntry::Printed(Value::Number(42)),
        ]
    );
}
