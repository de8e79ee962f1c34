//! Function definitions and calls, run through the whole pipeline.

use misty_db::interpreter::evaluator::{EvalError, LogEntry, Value};
use misty_db::interpreter::Interpreter;
use misty_db::interpreter::PipelineError;

#[test]
fn test_simple_function_call() {
    let source = r#"
        func add(a, b) {
            a + b
        }
        add(5, 3)
    "#
    .to_string();

    let result = Interpreter::execute_full_pipeline(source);
    assert!(result.is_ok());
}

#[test]
fn test_function_with_multiple_statements() {
    let source = r#"
        func calculate(x, y) {
            x + y;
            x * y
        }
        calculate(4, 7)
    "#
    .to_string();

    let result = Interpreter::execute_full_pipeline(source);
    assert!(result.is_ok());
}

#[test]
fn test_nested_function_calls() {
    let source = r#"
        func multiply(a, b) {
            a * b
        }
        func square(n) {
            multiply(n, n)
        }
        square(5)
    "#
    .to_string();

    let result = Interpreter::execute_full_pipeline(source);
    assert!(result.is_ok());
}

#[test]
fn test_function_with_comparison() {
    let source = r#"
        func isGreater(a, b) {
            a > b
        }
        isGreater(10, 5)
    "#
    .to_string();

    let result = Interpreter::execute_full_pipeline(source);
    assert!(result.is_ok());
}

#[test]
fn test_function_wrong_arg_count() {
    let source = r#"
        func add(a, b) {
            a + b
        }
        add(5)
    "#
    .to_string();

    let result = Interpreter::execute_full_pipeline(source);
    // Should fail because wrong number of arguments
    assert!(result.is_err());
}

#[test]
fn test_undefined_function() {
    let source = r#"
        notDefined(5, 3)
    "#
    .to_string();

    let result = Interpreter::execute_full_pipeline(source);
    // Should fail because function is not defined
    assert!(result.is_err());
}

#[test]
fn test_arithmetic_in_function() {
    let source = r#"
        func complex(a, b, c) {
            (a + b) * c
        }
        complex(2, 3, 4)
    "#
    .to_string();

    let result = Interpreter::execute_full_pipeline(source);
    assert!(result.is_ok());
}

#[test]
fn test_wrong_arg_count_names_arity() {
    let source = "func add(a, b) { a + b } add(5)".to_string();
    match Interpreter::execute_full_pipeline(source) {
        Err(PipelineError::Eval(EvalError::ArityMismatch { name, expected, got })) => {
            assert_eq!(name, "add".to_string());
            assert_eq!(expected, 2);
            assert_eq!(got, 1);
        }
        other => panic!("expected an arity error, got {:?}", other),
    }
}

#[test]
fn test_undefined_function_names_callee() {
    let source = "notDefined(5, 3)".to_string();
    match Interpreter::execute_full_pipeline(source) {
        Err(PipelineError::Eval(EvalError::UndefinedFunction(name))) => {
            assert_eq!(name, "notDefined".to_string());
        }
        other => panic!("expected an undefined-function error, got {:?}", other),
    }
}

#[test]
fn test_call_isolation_restores_caller_binding() {
    // The call's parameter `a` shadows the caller's `a` only for the call's
    // duration: the call returns 8 and `a` still reads 99 afterwards.
    let source = "func add(a,b){a+b}\nlet a = 99;\nadd(5,3)\na".to_string();
    let run = Interpreter::execute_full_pipeline(source).expect("pipeline should succeed");
    // Defined, Bound(a, 99), Printed(8) from the body statement,
    // Printed(8) from the top-level call, Printed(99) from reading `a`.
    assert_eq!(
        run.output,
        vec![
            LogEntry::Defined("add".to_string()),
            LogEntry::Bound("a".to_string(), Value::Number(99)),
            LogEntry::Printed(Value::Number(8)),
            LogEntry::Printed(Value::Number(8)),
            LogEntry::Printed(Value::Number(99)),
        ]
    );
}

#[test]
fn test_inner_definitions_persist_after_call() {
    let source = "func outer(){ func inner(){ 7 } 1 } outer() inner()".to_string();
    let run = Interpreter::execute_full_pipeline(source).expect("pipeline should succeed");
    assert_eq!(
        *run.output.last().unwrap(),
        LogEntry::Printed(Value::Number(7))
    );
}

#[test]
fn test_unbounded_recursion_fails_with_limit() {
    let source = "func f(){ f() } f()".to_string();
    match Interpreter::execute_full_pipeline(source) {
        Err(PipelineError::Eval(EvalError::RecursionLimit)) => {}
        other => panic!("expected the recursion limit, got {:?}", other),
    }
}
