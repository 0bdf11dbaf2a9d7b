use std::rc::Rc;
use tini::interpreter::{Environment, Interpreter, InterpreterError, Value};
use tini::lexer::Lexer;
use tini::parser::{ParseResult, Parser};
use tini::Position;

fn run(interpreter: &mut Interpreter, input: &str) -> Vec<Result<Rc<Value>, InterpreterError>> {
    let mut parser = Parser::new(Lexer::new(input));
    let mut results = Vec::new();
    loop {
        match parser.parse_expression() {
            ParseResult::Item(ast) => results.push(interpreter.eval(ast)),
            ParseResult::Error(e) => panic!("parse error: {:?}", e),
            ParseResult::Eof => return results,
        }
    }
}

fn last(interpreter: &mut Interpreter, input: &str) -> Result<Rc<Value>, InterpreterError> {
    run(interpreter, input).pop().expect("no expression")
}

fn as_int(r: Result<Rc<Value>, InterpreterError>) -> i64 {
    match r {
        Ok(v) => match &*v {
            Value::Integer(i) => *i,
            other => panic!("not an integer: {:?}", other),
        },
        Err(e) => panic!("error: {:?}", e),
    }
}

#[test]
fn if_chooses_by_zero() {
    let mut i = Interpreter::new();
    assert_eq!(as_int(last(&mut i, "(if 5 10 20)")), 10);
    assert_eq!(as_int(last(&mut i, "(if 0 10 20)")), 20);
    assert_eq!(as_int(last(&mut i, "(if (- 0 3) 10 20)")), 10);
    // A function value is true as well.
    assert_eq!(as_int(last(&mut i, "(if + 10 20)")), 10);
    // Only the chosen branch is evaluated.
    assert_eq!(as_int(last(&mut i, "(if 1 2 (undefined))")), 2);
}

#[test]
fn define_then_read_variable() {
    let mut i = Interpreter::new();
    assert_eq!(as_int(last(&mut i, "(define x 5)")), 0);
    assert_eq!(as_int(last(&mut i, "x")), 5);
    assert_eq!(as_int(last(&mut i, "(define x (+ x 1)) x")), 6);
}

#[test]
fn define_then_call_function() {
    let mut i = Interpreter::new();
    assert_eq!(as_int(last(&mut i, "(define (inc x) (+ x 1)) (inc 41)")), 42);
}

#[test]
fn wrong_arity_is_an_argument_error() {
    let mut i = Interpreter::new();
    match last(&mut i, "(define (inc x) (+ x 1)) (inc 1 2)") {
        Err(InterpreterError::ArgumentError { got, takes, position }) => {
            assert_eq!((takes, got), (1, 2));
            assert_eq!(position, Position::new(1, 26));
        }
        r => panic!("unexpected result: {:?}", r),
    }
}

#[test]
fn non_integer_operand_is_a_builtin_type_error() {
    let mut i = Interpreter::new();
    match last(&mut i, "(+ 1 print)") {
        Err(InterpreterError::BuiltinTypeError { name, expected, found }) => {
            assert_eq!((name, expected, found), ("+", "int", "function"));
        }
        r => panic!("unexpected result: {:?}", r),
    }
    match last(&mut i, "(* print 1)") {
        Err(InterpreterError::BuiltinTypeError { name, expected, found }) => {
            assert_eq!((name, expected, found), ("*", "int", "function"));
        }
        r => panic!("unexpected result: {:?}", r),
    }
    match last(&mut i, "(- print print)") {
        Err(InterpreterError::BuiltinTypeError { name, expected, found }) => {
            assert_eq!((name, expected, found), ("-", "int", "function"));
        }
        r => panic!("unexpected result: {:?}", r),
    }
}

#[test]
fn parameters_are_restored_after_a_call() {
    let mut i = Interpreter::new();
    assert_eq!(as_int(last(&mut i, "(define y 9) (define (f y) (+ y 1)) (f 3)")), 4);
    assert_eq!(as_int(last(&mut i, "y")), 9);
    // A parameter that had no binding before the call has none after it.
    assert_eq!(as_int(last(&mut i, "(define (g z) z) (g 1)")), 1);
    assert!(matches!(
        last(&mut i, "z"),
        Err(InterpreterError::UnknownVariable { ref name, .. }) if name == "z"
    ));
    // Also when the body fails.
    assert!(last(&mut i, "(define (bad y) (missing)) (bad 1)").is_err());
    assert_eq!(as_int(last(&mut i, "y")), 9);
}

#[test]
fn scoping_is_dynamic() {
    let mut i = Interpreter::new();
    assert_eq!(as_int(last(&mut i, "(define (getn) n) (define (h n) (getn)) (h 7)")), 7);
    assert!(last(&mut i, "(getn)").is_err());
}

#[test]
fn recursion_works() {
    let mut i = Interpreter::new();
    let src = "(define (fact n) (if (< n 1) 1 (* n (fact (- n 1))))) (fact 10)";
    assert_eq!(as_int(last(&mut i, src)), 3628800);
}

#[test]
fn unknown_variables_and_non_functions() {
    let mut i = Interpreter::new();
    match last(&mut i, "nothing") {
        Err(InterpreterError::UnknownVariable { name, position }) => {
            assert_eq!(name, "nothing");
            assert_eq!(position, Position::new(1, 1));
        }
        r => panic!("unexpected result: {:?}", r),
    }
    assert!(matches!(last(&mut i, "(nothing 1)"), Err(InterpreterError::UnknownVariable { .. })));
    match last(&mut i, "(define x 5) (x)") {
        Err(InterpreterError::TypeError { expected, found, .. }) => {
            assert_eq!((expected, found), ("function in function call", "int"));
        }
        r => panic!("unexpected result: {:?}", r),
    }
}

#[test]
fn arithmetic_and_comparisons() {
    let mut i = Interpreter::new();
    assert_eq!(as_int(last(&mut i, "(+ 2 3)")), 5);
    assert_eq!(as_int(last(&mut i, "(- 2 3)")), -1);
    assert_eq!(as_int(last(&mut i, "(* 4 3)")), 12);
    assert_eq!(as_int(last(&mut i, "(= 3 3)")), 1);
    assert_eq!(as_int(last(&mut i, "(= 3 4)")), 0);
    assert_eq!(as_int(last(&mut i, "(> 4 3)")), 1);
    assert_eq!(as_int(last(&mut i, "(> 3 4)")), 0);
    assert_eq!(as_int(last(&mut i, "(< 3 4)")), 1);
    assert_eq!(as_int(last(&mut i, "(< 4 4)")), 0);
    assert_eq!(as_int(last(&mut i, "(= print print)")), 0);
    assert_eq!(as_int(last(&mut i, "(< 1 print)")), 0);
    assert_eq!(as_int(last(&mut i, "(+ 9223372036854775807 1)")), i64::MIN);
}

#[test]
fn builtin_argument_counts() {
    let mut i = Interpreter::new();
    for (src, op, n) in [("(+ 1)", "+", 1usize), ("(- 1 2 3)", "-", 3), ("(*)", "*", 0), ("(= 1)", "=", 1), ("(> 1 2 3)", ">", 3), ("(<)", "<", 0)] {
        match last(&mut i, src) {
            Err(InterpreterError::BuiltinArgumentError { name, got, takes }) => {
                assert_eq!((name, got, takes), (op, n, "2"));
            }
            r => panic!("unexpected result for {}: {:?}", src, r),
        }
    }
}

#[test]
fn print_writes_a_line() {
    let mut i = Interpreter::new();
    assert_eq!(as_int(last(&mut i, "(print 1 (- 0 2) print)")), 0);
    assert_eq!(as_int(last(&mut i, "(print)")), 0);
    assert_eq!(i.take_output(), "1 -2 <function>\n\n");
    assert_eq!(i.take_output(), "");
}

#[test]
fn values_display() {
    assert_eq!(Value::Integer(0).to_string(), "0");
    assert_eq!(Value::Integer(-45).to_string(), "-45");
    assert_eq!(Value::Integer(i64::MIN).to_string(), "-9223372036854775808");
    let mut i = Interpreter::new();
    let f = last(&mut i, "(define (f) 1) f").unwrap();
    assert_eq!(f.to_string(), "<function>");
    assert_eq!(f.type_tag(), "function");
    assert_eq!(Value::Integer(3).type_tag(), "int");
}

#[test]
fn environment_operations() {
    let mut env = Environment::new();
    assert!(env.get(&"a".to_string()).is_none());
    assert!(env.set("a".to_string(), Rc::new(Value::Integer(1))).is_none());
    let previous = env.set("a".to_string(), Rc::new(Value::Integer(2)));
    assert!(matches!(previous.as_deref(), Some(Value::Integer(1))));
    assert!(matches!(env.get(&"a".to_string()).as_deref(), Some(Value::Integer(2))));
    assert!(matches!(env.take(&"a".to_string()).as_deref(), Some(Value::Integer(2))));
    assert!(env.get(&"a".to_string()).is_none());
    assert!(env.take(&"a".to_string()).is_none());
    tini::interpreter::builtins::add_builtins_to_environment(&mut env);
    assert!(matches!(env.get(&"print".to_string()).as_deref(), Some(Value::Builtin(_))));
}

#[test]
fn evaluation_error_messages() {
    let mut i = Interpreter::new();
    let message = |r: Result<Rc<Value>, InterpreterError>| match r {
        Err(e) => e.message(),
        Ok(v) => panic!("unexpected value: {:?}", v),
    };
    assert_eq!(message(last(&mut i, "nothing")), "unknown variable nothing at 1:1");
    assert_eq!(
        message(last(&mut i, "(define x 1)\n (x)")),
        "type error: expected function in function call at 2:2, found int"
    );
    assert_eq!(
        message(last(&mut i, "(define (f a) a) (f)")),
        "function at 1:18 takes 1 arguments, but got 0"
    );
    assert_eq!(
        message(last(&mut i, "(+ 1)")),
        "built-in function + takes 2 arguments, but got 1"
    );
    assert_eq!(
        message(last(&mut i, "(+ 1 f)")),
        "built-in function + expected argument of type int, but got function"
    );
}
