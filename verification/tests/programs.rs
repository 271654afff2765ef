use minilang::asteva::{evaluate, evaluate_ast};
use minilang::astnode::ASTNode;
use minilang::context::Context;
use minilang::error::{EvalError, InterpretError, LexError, LexErrorKind, ParseError, ParseErrorKind};
use minilang::interpreter::Interpreter;
use minilang::value::Value;

fn lines(items: &[&str]) -> Vec<String> {
    items.iter().map(|s| s.to_string()).collect()
}

fn run_in(code: &str, context: &mut Context) -> Result<(), EvalError> {
    let interpreter = Interpreter::new(code);
    let tokens = interpreter.tokenize().expect("lexes");
    let ast = interpreter.parse(&tokens).expect("parses");
    evaluate_ast(ast, context)
}

#[test]
fn declared_integer_is_read_back() {
    for n in [0, 1, 7, 42, 2147483647] {
        let mut context = Context::new();
        let code = format!("variable integer x = {};", n);
        assert_eq!(run_in(&code, &mut context), Ok(()));
        assert_eq!(context.get_variable("x"), Some(&Value::Integer(n)));
        let read = evaluate(&ASTNode::Identifier("x".to_string()), &mut context);
        assert_eq!(read, Ok(Value::Integer(n)));
    }
}

#[test]
fn operators_group_from_the_left() {
    let run = Interpreter::new("print 2 + 3 * 4;").interpret();
    assert_eq!(run.result, Ok(()));
    assert_eq!(run.output, lines(&["20"]));
}

#[test]
fn countdown_loop_ends_at_zero() {
    let mut context = Context::new();
    let code = "variable integer x = 10; loop (x > 0) { x = x - 1; }";
    assert_eq!(run_in(code, &mut context), Ok(()));
    assert_eq!(context.get_variable("x"), Some(&Value::Integer(0)));
}

#[test]
fn true_condition_runs_only_the_first_block() {
    let run = Interpreter::new("if (1 == 1) { print 1; } else { print 0; }").interpret();
    assert_eq!(run.result, Ok(()));
    assert_eq!(run.output, lines(&["1"]));
}

#[test]
fn call_adds_and_leaves_the_caller_alone() {
    let code = "function integer add(variable integer a, variable integer b) { return a + b; } \
                variable integer a = 100; print call add(2, 3); print a;";
    let run = Interpreter::new(code).interpret();
    assert_eq!(run.result, Ok(()));
    assert_eq!(run.output, lines(&["5", "100"]));
}

#[test]
fn division_by_zero_is_reported() {
    let run = Interpreter::new("print 10 / 0;").interpret();
    assert_eq!(run.result, Err(InterpretError::Eval(EvalError::DivisionByZero)));
    assert_eq!(run.output, lines(&[]));
}

#[test]
fn undeclared_identifier_is_reported() {
    let run = Interpreter::new("print y;").interpret();
    assert_eq!(
        run.result,
        Err(InterpretError::Eval(EvalError::UndefinedVariable("y".to_string())))
    );
}

#[test]
fn lexical_failure_is_reported() {
    let run = Interpreter::new("print 1 & 2;").interpret();
    assert_eq!(
        run.result,
        Err(InterpretError::Lex(LexError { kind: LexErrorKind::UnexpectedCharacter, position: 8 }))
    );
}

#[test]
fn syntax_failure_is_reported() {
    let run = Interpreter::new("print 1").interpret();
    assert_eq!(
        run.result,
        Err(InterpretError::Parse(ParseError { kind: ParseErrorKind::ExpectedSemicolon, position: 2 }))
    );
}
