use minilang::astnode::ASTNode;
use minilang::context::{Context, FunctionDefinition, DEFAULT_MAX_DEPTH, DEFAULT_MAX_ITERATIONS};
use minilang::table::Table;
use minilang::value::Value;

fn definition(parameters: &[&str]) -> FunctionDefinition {
    FunctionDefinition {
        return_type: "integer".to_string(),
        parameters: parameters.iter().map(|p| ("integer".to_string(), p.to_string())).collect(),
        body: vec![ASTNode::ReturnStatement(Box::new(ASTNode::IntegerLiteral(1)))],
    }
}

#[test]
fn new_context_is_empty() {
    let context = Context::new();
    assert_eq!(context.get_variable("x"), None);
    assert!(context.get_function("f").is_none());
    assert_eq!(context.current_function, Some(String::new()));
    assert!(context.output.is_empty());
    assert_eq!(context.max_depth, DEFAULT_MAX_DEPTH);
    assert_eq!(context.max_iterations, DEFAULT_MAX_ITERATIONS);
}

#[test]
fn with_limits_sets_the_limits() {
    let context = Context::with_limits(7, 9);
    assert_eq!(context.max_depth, 7);
    assert_eq!(context.max_iterations, 9);
    assert_eq!(context.get_variable("x"), None);
}

#[test]
fn add_variable_binds_an_integer() {
    let mut context = Context::new();
    context.add_variable("x", 5);
    assert_eq!(context.get_variable("x"), Some(&Value::Integer(5)));
    assert_eq!(context.get_variable("y"), None);
    context.add_variable("x", 6);
    assert_eq!(context.get_variable("x"), Some(&Value::Integer(6)));
}

#[test]
fn set_variable_stores_the_value_as_it_is() {
    let mut context = Context::new();
    context.set_variable("i", Value::Integer(-3));
    context.set_variable("b", Value::Boolean(true));
    context.set_variable("s", Value::String("text".to_string()));
    assert_eq!(context.get_variable("i"), Some(&Value::Integer(-3)));
    assert_eq!(context.get_variable("b"), Some(&Value::Boolean(true)));
    assert_eq!(context.get_variable("s"), Some(&Value::String("text".to_string())));
    context.set_variable("i", Value::Boolean(false));
    assert_eq!(context.get_variable("i"), Some(&Value::Boolean(false)));
}

#[test]
fn set_variable_does_not_store_void() {
    let mut context = Context::new();
    context.set_variable("v", Value::Void);
    assert_eq!(context.get_variable("v"), None);
    context.set_variable("x", Value::Integer(1));
    context.set_variable("x", Value::Void);
    assert_eq!(context.get_variable("x"), Some(&Value::Integer(1)));
}

#[test]
fn update_variable_rebinds_or_binds() {
    let mut context = Context::new();
    context.update_variable("x", 1);
    assert_eq!(context.get_variable("x"), Some(&Value::Integer(1)));
    context.update_variable("x", 2);
    assert_eq!(context.get_variable("x"), Some(&Value::Integer(2)));
}

#[test]
fn remove_variable_unbinds() {
    let mut context = Context::new();
    context.add_variable("x", 1);
    context.add_variable("y", 2);
    context.add_variable("z", 3);
    context.remove_variable("y");
    assert_eq!(context.get_variable("x"), Some(&Value::Integer(1)));
    assert_eq!(context.get_variable("y"), None);
    assert_eq!(context.get_variable("z"), Some(&Value::Integer(3)));
    context.remove_variable("y");
    context.remove_variable("never");
    assert_eq!(context.get_variable("x"), Some(&Value::Integer(1)));
    context.remove_variable("x");
    context.remove_variable("z");
    assert_eq!(context.get_variable("x"), None);
    assert_eq!(context.get_variable("z"), None);
}

#[test]
fn names_are_told_apart_exactly() {
    let mut context = Context::new();
    context.add_variable("x", 1);
    context.add_variable("X", 2);
    context.add_variable("xx", 3);
    context.add_variable("", 4);
    assert_eq!(context.get_variable("x"), Some(&Value::Integer(1)));
    assert_eq!(context.get_variable("X"), Some(&Value::Integer(2)));
    assert_eq!(context.get_variable("xx"), Some(&Value::Integer(3)));
    assert_eq!(context.get_variable(""), Some(&Value::Integer(4)));
    assert_eq!(context.get_variable("x "), None);
}

#[test]
fn set_function_declares_and_replaces() {
    let mut context = Context::new();
    context.set_function("f".to_string(), definition(&["a"]));
    assert_eq!(context.get_function("f").unwrap().parameters.len(), 1);
    context.set_function("f".to_string(), definition(&["a", "b"]));
    assert_eq!(context.get_function("f").unwrap().parameters.len(), 2);
    assert!(context.get_function("g").is_none());
    assert_eq!(context.get_variable("f"), None);
}

#[test]
fn enter_and_exit_function_set_the_marker() {
    let mut context = Context::new();
    context.enter_function("f".to_string());
    assert_eq!(context.current_function, Some("f".to_string()));
    context.exit_function();
    assert_eq!(context.current_function, None);
}

#[test]
fn get_parameter_reads_parameters_of_calculate() {
    let mut context = Context::new();
    context.add_variable("a", 5);
    context.add_variable("other", 6);
    assert_eq!(context.get_parameter("a"), None);
    context.set_function("calculate".to_string(), definition(&["a", "b"]));
    assert_eq!(context.get_parameter("a"), Some(Value::Integer(5)));
    assert_eq!(context.get_parameter("b"), None);
    assert_eq!(context.get_parameter("other"), None);
    context.set_variable("b", Value::Boolean(true));
    assert_eq!(context.get_parameter("b"), Some(Value::Boolean(true)));
    context.set_function("calculate".to_string(), definition(&[]));
    assert_eq!(context.get_parameter("a"), None);
}

#[test]
fn emit_appends_to_the_output() {
    let mut context = Context::new();
    context.emit(Value::Integer(1));
    context.emit(Value::Void);
    assert_eq!(context.output, vec![Value::Integer(1), Value::Void]);
}

#[test]
fn clone_is_a_copy_of_its_own() {
    let mut context = Context::with_limits(11, 12);
    context.add_variable("x", 1);
    context.set_function("f".to_string(), definition(&["a"]));
    context.enter_function("f".to_string());
    context.emit(Value::Integer(9));
    let mut copy = context.clone();
    assert_eq!(copy.get_variable("x"), Some(&Value::Integer(1)));
    assert_eq!(copy.get_function("f"), Some(&definition(&["a"])));
    assert_eq!(copy.current_function, Some("f".to_string()));
    assert_eq!(copy.output, vec![Value::Integer(9)]);
    assert_eq!(copy.max_depth, 11);
    assert_eq!(copy.max_iterations, 12);
    copy.add_variable("x", 2);
    copy.add_variable("y", 3);
    copy.remove_variable("x");
    assert_eq!(context.get_variable("x"), Some(&Value::Integer(1)));
    assert_eq!(context.get_variable("y"), None);
}

#[test]
fn table_maps_names_to_values() {
    let mut table: Table<Value> = Table::new();
    let a = "a".to_string();
    let b = "b".to_string();
    assert!(!table.contains(&a));
    assert_eq!(table.get(&a), None);
    table.insert(a.clone(), Value::Integer(1));
    table.insert(b.clone(), Value::Integer(2));
    table.insert(a.clone(), Value::Integer(3));
    assert!(table.contains(&a));
    assert_eq!(table.get(&a), Some(&Value::Integer(3)));
    assert_eq!(table.get(&b), Some(&Value::Integer(2)));
    let copy = table.replicate();
    table.remove(&a);
    assert_eq!(table.get(&a), None);
    assert_eq!(table.get(&b), Some(&Value::Integer(2)));
    assert_eq!(copy.get(&a), Some(&Value::Integer(3)));
}
