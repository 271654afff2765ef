use minilang::asteva::{
    block_within, evaluate, evaluate_ast, evaluate_block, evaluate_expression, evaluate_within,
    expression_within,
};
use minilang::astnode::ASTNode;
use minilang::context::{Context, DEFAULT_MAX_DEPTH, DEFAULT_MAX_ITERATIONS};
use minilang::error::{EvalError, InterpretError};
use minilang::interpreter::{render_output, Execution, Interpreter};
use minilang::value::Value;

fn program(code: &str) -> Vec<ASTNode> {
    let interpreter = Interpreter::new(code);
    let tokens = interpreter.tokenize().expect("the source lexes");
    interpreter.parse(&tokens).expect("the source parses")
}

fn run(code: &str) -> Execution {
    Interpreter::new(code).interpret()
}

fn prints(code: &str, expected: &[&str]) {
    let execution = run(code);
    assert_eq!(execution.result, Ok(()), "source: {}", code);
    let expected: Vec<String> = expected.iter().map(|s| s.to_string()).collect();
    assert_eq!(execution.output, expected, "source: {}", code);
}

fn fails(code: &str, error: EvalError, expected: &[&str]) {
    let execution = run(code);
    assert_eq!(execution.result, Err(InterpretError::Eval(error)), "source: {}", code);
    let expected: Vec<String> = expected.iter().map(|s| s.to_string()).collect();
    assert_eq!(execution.output, expected, "source: {}", code);
}

fn number(value: i32) -> ASTNode {
    ASTNode::IntegerLiteral(value)
}

fn name(text: &str) -> ASTNode {
    ASTNode::Identifier(text.to_string())
}

fn binary(op: &str, left: ASTNode, right: ASTNode) -> ASTNode {
    ASTNode::BinaryOp { op: op.to_string(), left: Box::new(left), right: Box::new(right) }
}

fn assign(target: &str, value: ASTNode) -> ASTNode {
    ASTNode::Assignment { identifier: target.to_string(), value: Box::new(value) }
}

fn print(value: ASTNode) -> ASTNode {
    ASTNode::PrintStatement { context: Box::new(value) }
}

#[test]
fn literals_evaluate_to_their_values() {
    let mut context = Context::new();
    assert_eq!(evaluate(&number(7), &mut context), Ok(Value::Integer(7)));
    assert_eq!(evaluate(&ASTNode::BooleanLiteral(true), &mut context), Ok(Value::Boolean(true)));
    assert_eq!(
        evaluate(&ASTNode::StringLiteral("hi".to_string()), &mut context),
        Ok(Value::String("hi".to_string()))
    );
}

#[test]
fn arithmetic_is_evaluated_left_to_right() {
    prints("print 2 + 3 * 4;", &["20"]);
    prints("print 2 * 3 + 4;", &["10"]);
    prints("print 20 - 5 - 3;", &["12"]);
    prints("print 100 / 7 % 4;", &["2"]);
    prints("print 1 + 2 == 3;", &["true"]);
    prints("print 7 / 2; print 7 % 2;", &["3", "1"]);
    prints("print 0 - 7 / 2; print 0 - 7 % 2;", &["-3", "-1"]);
}

#[test]
fn comparisons_and_logic_are_evaluated() {
    prints("print 1 < 2; print 2 <= 1; print 3 > 3; print 3 >= 3;", &["true", "false", "false", "true"]);
    prints("print 1 == 1; print 1 != 1; print true == false;", &["true", "false", "false"]);
    prints("print true && false; print true || false;", &["false", "true"]);
    prints("print 1 == true;", &["false"]);
}

#[test]
fn both_operands_are_always_evaluated() {
    fails("print false && 1 / 0 == 1;", EvalError::TypeMismatch, &[]);
    fails("print true || call missing();", EvalError::UndefinedFunction("missing".to_string()), &[]);
    let code = "function boolean noisy() { print 9; return true && true; } \
                print false && call noisy(); print true || call noisy();";
    prints(code, &["9", "false", "9", "true"]);
}

#[test]
fn left_operand_is_evaluated_first() {
    let code = "function integer one() { print 1; return 1 + 0; } \
                function integer two() { print 2; return 2 + 0; } \
                print call one() - call two();";
    prints(code, &["1", "2", "-1"]);
    fails("print x + 1 / 0;", EvalError::UndefinedVariable("x".to_string()), &[]);
}

#[test]
fn type_mismatch_is_reported() {
    fails("print true + 1;", EvalError::TypeMismatch, &[]);
    fails("print 1 && true;", EvalError::TypeMismatch, &[]);
    fails("print 1 < true;", EvalError::TypeMismatch, &[]);
}

#[test]
fn overflow_is_reported() {
    fails("print 2147483647 + 1;", EvalError::Overflow, &[]);
    fails("print 0 - 2147483647 - 2;", EvalError::Overflow, &[]);
    fails("print 65536 * 65536;", EvalError::Overflow, &[]);
    fails(
        "variable integer m = 0 - 2147483647 - 1; variable integer n = 0 - 1; print m / n;",
        EvalError::Overflow,
        &[],
    );
    fails(
        "variable integer m = 0 - 2147483647 - 1; variable integer n = 0 - 1; print m % n;",
        EvalError::Overflow,
        &[],
    );
    prints("print 0 - 2147483647 - 1;", &["-2147483648"]);
}

#[test]
fn division_and_remainder_by_zero_are_reported() {
    fails("print 10 / 0;", EvalError::DivisionByZero, &[]);
    fails("print 10 % 0;", EvalError::DivisionByZero, &[]);
    fails("variable integer z = 0; print 1; print 5 / z; print 2;", EvalError::DivisionByZero, &["1"]);
}

#[test]
fn declaration_binds_and_gives_the_value() {
    let mut context = Context::new();
    let declaration = ASTNode::VariableDeclaration {
        name: "x".to_string(),
        value: Box::new(binary("Plus", number(40), number(2))),
        var_type: "integer".to_string(),
    };
    assert_eq!(evaluate(&declaration, &mut context), Ok(Value::Integer(42)));
    assert_eq!(context.get_variable("x"), Some(&Value::Integer(42)));
    assert_eq!(evaluate(&name("x"), &mut context), Ok(Value::Integer(42)));
}

#[test]
fn stored_values_keep_their_kind() {
    prints("variable boolean b = true; print b;", &["true"]);
    prints("variable boolean b = 1 < 2; if (b) { print 1; }", &["1"]);
    prints("variable integer n = 5; variable boolean same = n == 5; print same && true;", &["true"]);
    let mut context = Context::new();
    let text = ASTNode::StringLiteral("hello".to_string());
    assert_eq!(evaluate(&assign("s", text), &mut context), Ok(Value::String("hello".to_string())));
    assert_eq!(evaluate(&name("s"), &mut context), Ok(Value::String("hello".to_string())));
}

#[test]
fn assignment_rebinds_and_binds() {
    prints("variable integer x = 1; x = x + 1; print x;", &["2"]);
    prints("y = 5; print y;", &["5"]);
    prints("variable integer x = 1; x = true; print x;", &["true"]);
}

#[test]
fn void_is_not_stored() {
    let code = "function integer nothing() { } variable integer x = 3; x = call nothing(); print x;";
    prints(code, &["3"]);
    fails(
        "function integer nothing() { } variable integer y = call nothing(); print y;",
        EvalError::UndefinedVariable("y".to_string()),
        &[],
    );
}

#[test]
fn undefined_variable_is_reported_with_its_name() {
    fails("print y;", EvalError::UndefinedVariable("y".to_string()), &[]);
    fails("print 1; x = x + 1;", EvalError::UndefinedVariable("x".to_string()), &["1"]);
    let mut context = Context::new();
    assert_eq!(
        evaluate(&name("zero"), &mut context),
        Err(EvalError::UndefinedVariable("zero".to_string()))
    );
    assert_eq!(context.get_variable("zero"), None);
}

#[test]
fn loop_runs_while_its_condition_holds() {
    prints(
        "variable integer x = 3; loop (x > 0) { print x; x = x - 1; } print x;",
        &["3", "2", "1", "0"],
    );
    prints("loop (false) { print 1; } print 2;", &["2"]);
    prints("variable integer n = 2; loop (n) { n = n - 1; } print n;", &["0"]);
}

#[test]
fn loop_gives_the_last_value_of_its_last_iteration() {
    let mut context = Context::new();
    let counted = program("variable integer x = 10; loop (x > 0) { x = x - 1; }");
    assert_eq!(evaluate_block(&counted, &mut context), Ok(Value::Integer(0)));
    assert_eq!(context.get_variable("x"), Some(&Value::Integer(0)));
    let mut context = Context::new();
    let never = program("loop (1 > 2) { x = 1; }");
    assert_eq!(evaluate_block(&never, &mut context), Ok(Value::Void));
    let mut context = Context::new();
    let printing = program("variable integer x = 2; loop (x > 0) { x = x - 1; print x; }");
    assert_eq!(evaluate_block(&printing, &mut context), Ok(Value::Void));
}

#[test]
fn loop_condition_must_be_a_boolean_or_an_integer() {
    let mut context = Context::new();
    let node = ASTNode::Loop {
        condition: Box::new(ASTNode::StringLiteral("yes".to_string())),
        body: vec![],
    };
    assert_eq!(evaluate(&node, &mut context), Err(EvalError::TypeMismatch));
    fails("function integer nothing() { } loop (call nothing()) { }", EvalError::TypeMismatch, &[]);
}

#[test]
fn loop_stops_at_the_first_failure() {
    fails(
        "variable integer x = 2; loop (x >= 0) { print 6 / x; x = x - 1; }",
        EvalError::DivisionByZero,
        &["3", "6"],
    );
}

#[test]
fn endless_loop_is_stopped_by_the_iteration_limit() {
    let ast = program("variable integer n = 0; loop (1 == 1) { n = n + 1; }");
    let mut context = Context::with_limits(100, 1000);
    assert_eq!(evaluate_ast(ast, &mut context), Err(EvalError::IterationLimit));
    assert_eq!(context.get_variable("n"), Some(&Value::Integer(1000)));
}

#[test]
fn loop_may_run_exactly_as_often_as_the_limit_allows() {
    let code = "variable integer n = 0; loop (n < 5) { n = n + 1; } print n;";
    let execution = Interpreter::with_limits(code, 100, 5).interpret();
    assert_eq!(execution.result, Ok(()));
    assert_eq!(execution.output, vec!["5".to_string()]);
    let execution = Interpreter::with_limits(code, 100, 4).interpret();
    assert_eq!(execution.result, Err(InterpretError::Eval(EvalError::IterationLimit)));
    assert_eq!(execution.output, Vec::<String>::new());
}

#[test]
fn each_loop_has_the_whole_iteration_limit() {
    let code = "variable integer i = 0; variable integer total = 0; \
                loop (i < 3) { variable integer j = 0; loop (j < 3) { j = j + 1; total = total + 1; } i = i + 1; } \
                print total;";
    let execution = Interpreter::with_limits(code, 100, 3).interpret();
    assert_eq!(execution.result, Ok(()));
    assert_eq!(execution.output, vec!["9".to_string()]);
}

#[test]
fn conditional_runs_exactly_one_block() {
    prints("if (1 == 1) { print 1; } else { print 0; }", &["1"]);
    prints("if (1 == 2) { print 1; } else { print 0; }", &["0"]);
    prints("if (0) { print 1; } print 2;", &["2"]);
    prints("if (5) { print 1; }", &["1"]);
    prints("if (true) { print 1; } else { print 1 / 0; }", &["1"]);
    prints("if (false) { print 1 / 0; } else { print 2; }", &["2"]);
}

#[test]
fn conditional_gives_the_value_of_the_block_it_ran() {
    let mut context = Context::new();
    let yes = program("if (true) { x = 1; x = 2; } else { x = 3; }");
    assert_eq!(evaluate_block(&yes, &mut context), Ok(Value::Integer(2)));
    let no = program("if (false) { x = 1; }");
    assert_eq!(evaluate_block(&no, &mut context), Ok(Value::Void));
    let empty = program("if (true) { }");
    assert_eq!(evaluate_block(&empty, &mut context), Ok(Value::Void));
}

#[test]
fn conditional_condition_must_be_a_boolean_or_an_integer() {
    let mut context = Context::new();
    let node = ASTNode::IfElse {
        condition: Box::new(ASTNode::StringLiteral("yes".to_string())),
        if_block: vec![print(number(1))],
        else_block: None,
    };
    assert_eq!(evaluate(&node, &mut context), Err(EvalError::TypeMismatch));
    assert!(context.output.is_empty());
}

#[test]
fn function_declaration_registers_and_runs_nothing() {
    let mut context = Context::new();
    let ast = program("function integer f(variable integer a) { print a; return a + 1; }");
    assert_eq!(evaluate_block(&ast, &mut context), Ok(Value::Void));
    assert!(context.output.is_empty());
    let definition = context.get_function("f").expect("f is declared");
    assert_eq!(definition.return_type, "integer");
    assert_eq!(definition.parameters, vec![("integer".to_string(), "a".to_string())]);
    assert_eq!(definition.body, program("print a; return a + 1;"));
}

#[test]
fn call_binds_parameters_by_position() {
    let code = "function integer sub(variable integer a, variable integer b) { return a - b; } \
                print call sub(10, 3); print call sub(3, 10);";
    prints(code, &["7", "-7"]);
}

#[test]
fn call_gives_the_value_of_the_last_statement() {
    let code = "function integer add(variable integer a, variable integer b) { return a + b; } \
                variable integer r = call add(2, 3); print r;";
    prints(code, &["5"]);
    let mut context = Context::new();
    let ast = program(
        "function integer add(variable integer a, variable integer b) { return a + b; } call add(2, 3);",
    );
    assert_eq!(evaluate_block(&ast, &mut context), Ok(Value::Integer(5)));
}

#[test]
fn return_does_not_leave_the_block() {
    let code = "function integer f() { return 1 + 0; print 7; return 2 + 0; } print call f();";
    prints(code, &["7", "2"]);
}

#[test]
fn return_takes_any_expression() {
    prints("function integer f(variable integer a) { return a; } print call f(4);", &["4"]);
    prints("function integer f() { return 9; } print call f();", &["9"]);
    prints("function boolean f() { return true; } print call f();", &["true"]);
}

#[test]
fn callee_sees_the_callers_variables() {
    let code = "variable integer base = 10; \
                function integer shifted(variable integer a) { return a + base; } \
                print call shifted(5);";
    prints(code, &["15"]);
}

#[test]
fn callee_cannot_change_the_callers_variables() {
    let code = "variable integer a = 1; variable integer g = 2; \
                function integer f(variable integer a) { a = a + 100; g = 50; h = 7; return a + g; } \
                print call f(5); print a; print g;";
    prints(code, &["155", "1", "2"]);
    fails(
        "function integer f() { h = 7; return h; } print call f(); print h;",
        EvalError::UndefinedVariable("h".to_string()),
        &["7"],
    );
}

#[test]
fn callee_cannot_declare_functions_for_the_caller() {
    let code = "function integer outer() { function integer inner() { return 1; } return call inner(); } \
                print call outer(); print call inner();";
    fails(code, EvalError::UndefinedFunction("inner".to_string()), &["1"]);
}

#[test]
fn arguments_are_evaluated_in_the_callers_environment() {
    let code = "variable integer a = 7; \
                function integer second(variable integer a, variable integer b) { return b; } \
                print call second(1, a);";
    prints(code, &["7"]);
}

#[test]
fn arguments_are_evaluated_left_to_right() {
    let code = "function integer show(variable integer v) { print v; return v; } \
                function integer pair(variable integer a, variable integer b) { return a * 10 + b; } \
                print call pair(call show(1), call show(2));";
    prints(code, &["1", "2", "12"]);
}

#[test]
fn functions_may_call_themselves() {
    let code = "function integer fact(variable integer n) { \
                    if (n <= 1) { return 1; } else { return n * call fact(n - 1); } \
                } \
                print call fact(10);";
    prints(code, &["3628800"]);
}

#[test]
fn undefined_function_is_reported_with_its_name() {
    fails("call nope();", EvalError::UndefinedFunction("nope".to_string()), &[]);
    fails("print 1; print call nope(1 / 0);", EvalError::UndefinedFunction("nope".to_string()), &["1"]);
}

#[test]
fn arity_mismatch_is_reported() {
    let declaration = "function integer f(variable integer a) { return a; } ";
    fails(&format!("{} call f();", declaration), EvalError::ArityMismatch, &[]);
    fails(&format!("{} call f(1, 2);", declaration), EvalError::ArityMismatch, &[]);
    prints(&format!("{} print call f(1);", declaration), &["1"]);
}

#[test]
fn failing_argument_fails_the_call() {
    let code = "function integer f(variable integer a) { print 1; return a; } print call f(1 / 0);";
    fails(code, EvalError::DivisionByZero, &[]);
}

#[test]
fn later_declaration_replaces_the_earlier_one() {
    let code = "function integer f() { return 1; } function integer f() { return 2; } print call f();";
    prints(code, &["2"]);
}

#[test]
fn call_marks_the_current_function_in_the_callee_only() {
    let mut context = Context::new();
    let ast = program("function integer f() { return 1; } call f();");
    assert_eq!(evaluate_block(&ast, &mut context), Ok(Value::Integer(1)));
    assert_eq!(context.current_function, Some(String::new()));
}

#[test]
fn print_emits_one_line_per_value() {
    prints("print 1; print true; print 0 - 5;", &["1", "true", "-5"]);
    let mut context = Context::new();
    let text = print(ASTNode::StringLiteral("raw text".to_string()));
    assert_eq!(evaluate(&text, &mut context), Ok(Value::Void));
    assert_eq!(context.output, vec![Value::String("raw text".to_string())]);
    assert_eq!(render_output(&context.output), vec!["raw text".to_string()]);
}

#[test]
fn print_of_void_prints_void() {
    prints("function integer nothing() { } print call nothing();", &["void"]);
}

#[test]
fn output_before_a_failure_stays() {
    fails("print 1; print 2; print x; print 3;", EvalError::UndefinedVariable("x".to_string()), &["1", "2"]);
    let code = "function integer f() { print 10; return 1 / 0; } print 5; call f(); print 6;";
    fails(code, EvalError::DivisionByZero, &["5", "10"]);
}

#[test]
fn nodes_without_a_rule_are_unsupported() {
    let mut context = Context::new();
    assert_eq!(evaluate(&ASTNode::NoOp, &mut context), Err(EvalError::UnsupportedConstruct));
    let conditional = ASTNode::Conditional {
        condition: Box::new(ASTNode::BooleanLiteral(true)),
        if_block: vec![print(number(1))],
        else_block: None,
    };
    assert_eq!(evaluate(&conditional, &mut context), Err(EvalError::UnsupportedConstruct));
    let alone = ASTNode::ElseStatement { body: vec![print(number(1))] };
    assert_eq!(evaluate(&alone, &mut context), Err(EvalError::UnsupportedConstruct));
    assert!(context.output.is_empty());
}

#[test]
fn unknown_operator_is_unsupported() {
    let mut context = Context::new();
    assert_eq!(
        evaluate(&binary("Star", number(2), number(3)), &mut context),
        Err(EvalError::UnsupportedConstruct)
    );
    assert_eq!(evaluate(&binary("Multiply", number(2), number(3)), &mut context), Ok(Value::Integer(6)));
}

#[test]
fn not_negates_its_left_operand() {
    let mut context = Context::new();
    let node = binary("Not", ASTNode::BooleanLiteral(true), number(0));
    assert_eq!(evaluate(&node, &mut context), Ok(Value::Boolean(false)));
    let node = binary("Not", number(0), ASTNode::BooleanLiteral(true));
    assert_eq!(evaluate(&node, &mut context), Err(EvalError::TypeMismatch));
}

#[test]
fn evaluate_expression_takes_expressions_only() {
    let mut context = Context::new();
    context.add_variable("x", 4);
    assert_eq!(evaluate_expression(&number(1), &mut context), Ok(Value::Integer(1)));
    assert_eq!(evaluate_expression(&name("x"), &mut context), Ok(Value::Integer(4)));
    assert_eq!(
        evaluate_expression(&binary("Plus", name("x"), number(1)), &mut context),
        Ok(Value::Integer(5))
    );
    assert_eq!(
        evaluate_expression(&assign("x", number(1)), &mut context),
        Err(EvalError::UnsupportedConstruct)
    );
    assert_eq!(
        evaluate_expression(&print(number(1)), &mut context),
        Err(EvalError::UnsupportedConstruct)
    );
    assert_eq!(context.get_variable("x"), Some(&Value::Integer(4)));
    assert!(context.output.is_empty());
    assert_eq!(expression_within(&number(1), &mut context, 1), Ok(Value::Integer(1)));
    assert_eq!(expression_within(&number(1), &mut context, 0), Err(EvalError::RecursionLimit));
}

#[test]
fn statement_as_argument_is_unsupported() {
    let mut context = Context::new();
    let ast = program("function integer f(variable integer a) { return a; }");
    assert_eq!(evaluate_block(&ast, &mut context), Ok(Value::Void));
    let node = ASTNode::FunctionCall {
        name: "f".to_string(),
        arguments: vec![Box::new(assign("x", number(1)))],
    };
    assert_eq!(evaluate(&node, &mut context), Err(EvalError::UnsupportedConstruct));
    assert_eq!(context.get_variable("x"), None);
}

#[test]
fn block_gives_the_value_of_its_last_statement() {
    let mut context = Context::new();
    assert_eq!(evaluate_block(&vec![], &mut context), Ok(Value::Void));
    assert_eq!(evaluate_block(&vec![number(1), number(2)], &mut context), Ok(Value::Integer(2)));
    assert_eq!(evaluate_block(&vec![number(1), print(number(2))], &mut context), Ok(Value::Void));
    assert_eq!(
        evaluate_block(&vec![number(1), name("nope"), print(number(3))], &mut context),
        Err(EvalError::UndefinedVariable("nope".to_string()))
    );
    assert_eq!(context.output, vec![Value::Integer(2)]);
}

#[test]
fn evaluate_ast_runs_a_whole_program() {
    let mut context = Context::new();
    assert_eq!(evaluate_ast(program("variable integer x = 1; print x + 1;"), &mut context), Ok(()));
    assert_eq!(context.output, vec![Value::Integer(2)]);
    assert_eq!(
        evaluate_ast(program("print x; print 1 / 0; print 3;"), &mut context),
        Err(EvalError::DivisionByZero)
    );
    assert_eq!(context.output, vec![Value::Integer(2), Value::Integer(1)]);
    assert_eq!(evaluate_ast(vec![], &mut context), Ok(()));
}

#[test]
fn depth_bounds_the_nesting_of_evaluation() {
    let mut context = Context::new();
    let leaf = number(1);
    assert_eq!(evaluate_within(&leaf, &mut context, 0), Err(EvalError::RecursionLimit));
    assert_eq!(evaluate_within(&leaf, &mut context, 1), Ok(Value::Integer(1)));
    let sum = binary("Plus", number(1), binary("Plus", number(2), number(3)));
    assert_eq!(evaluate_within(&sum, &mut context, 2), Err(EvalError::RecursionLimit));
    assert_eq!(evaluate_within(&sum, &mut context, 3), Ok(Value::Integer(6)));
    let statements = vec![sum];
    assert_eq!(block_within(&statements, &mut context, 2), Err(EvalError::RecursionLimit));
    assert_eq!(block_within(&statements, &mut context, 3), Ok(Value::Integer(6)));
    assert_eq!(block_within(&[], &mut context, 0), Ok(Value::Void));
}

#[test]
fn endless_recursion_is_stopped_by_the_depth_limit() {
    let code = "function integer down(variable integer n) { print n; return call down(n + 1); } call down(0);";
    let execution = Interpreter::with_limits(code, 10, 100).interpret();
    assert_eq!(execution.result, Err(InterpretError::Eval(EvalError::RecursionLimit)));
    assert_eq!(
        execution.output,
        vec!["0".to_string(), "1".to_string(), "2".to_string(), "3".to_string()]
    );
}

#[test]
fn default_limits_stop_endless_recursion() {
    let code = "function integer down(variable integer n) { return call down(n + 1); } call down(0);";
    let execution = Interpreter::new(code).interpret();
    assert_eq!(execution.result, Err(InterpretError::Eval(EvalError::RecursionLimit)));
    assert_eq!(DEFAULT_MAX_DEPTH, 500);
    assert_eq!(DEFAULT_MAX_ITERATIONS, u64::MAX);
}

#[test]
fn reevaluation_without_effects_is_idempotent() {
    let ast = program(
        "if (1 + 2 * 3 == 9) { loop (1 > 2) { return 5; } return 7 % 4; } else { return 0; }",
    );
    let mut context = Context::new();
    let first = evaluate_block(&ast, &mut context);
    assert_eq!(first, Ok(Value::Integer(3)));
    assert!(context.output.is_empty());
    assert_eq!(context.get_variable("x"), None);
    let second = evaluate_block(&ast, &mut context);
    assert_eq!(second, first);
    let mut fresh = Context::new();
    assert_eq!(evaluate_block(&ast, &mut fresh), first);
    let failing = program("return 1 / 0;");
    assert_eq!(evaluate_block(&failing, &mut context), Err(EvalError::DivisionByZero));
    assert_eq!(evaluate_block(&failing, &mut context), Err(EvalError::DivisionByZero));
}

#[test]
fn interpret_reports_the_stage_that_failed() {
    let execution = run("print 1; print $;");
    assert!(matches!(execution.result, Err(InterpretError::Lex(_))));
    assert!(execution.output.is_empty());
    let execution = run("print 1; print ;");
    assert!(matches!(execution.result, Err(InterpretError::Parse(_))));
    assert!(execution.output.is_empty());
    let execution = run("print 1; print q;");
    assert!(matches!(execution.result, Err(InterpretError::Eval(_))));
    assert_eq!(execution.output, vec!["1".to_string()]);
}

#[test]
fn interpreter_evaluate_starts_from_a_fresh_environment() {
    let interpreter = Interpreter::new("");
    let ast = program("x = 1; print x;");
    let first = interpreter.evaluate(&ast);
    assert_eq!(first.result, Ok(()));
    assert_eq!(first.output, vec!["1".to_string()]);
    let reads = program("print x;");
    let second = interpreter.evaluate(&reads);
    assert_eq!(
        second.result,
        Err(InterpretError::Eval(EvalError::UndefinedVariable("x".to_string())))
    );
}
