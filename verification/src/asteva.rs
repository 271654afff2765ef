//! The evaluator: a direct walk of the tree against a mutable
//! environment, proved to compute what the semantics say.
use vstd::prelude::*;
use crate::astnode::{
    boxed_nodes_view, clone_nodes, clone_parameters, nodes_view, ASTNode, NodeView,
};
use crate::context::{values_view, Context, Env, FunctionDefinition};
use crate::error::{EvalError, EvalErrorView};
use crate::operator::{apply_named, result_view};
use crate::semantics::{
    bind_parameters, callee_env, eval_arguments, eval_block, eval_call, eval_expression,
    eval_loop, eval_node, ArgumentsOutcome, Outcome,
};
use crate::value::{Value, ValueView};

verus! {

/// The contents of the result of evaluating an argument list.
pub open spec fn arguments_view(r: Result<Vec<Value>, EvalError>) -> Result<
    Seq<ValueView>,
    EvalErrorView,
> {
    match r {
        Ok(values) => Ok(values_view(values@)),
        Err(error) => Err(error@),
    }
}

/// Evaluates `node`, nesting at most `depth` deep.
pub fn evaluate_within(node: &ASTNode, context: &mut Context, depth: usize) -> (r: Result<
    Value,
    EvalError,
>)
    ensures
        eval_node(node@, old(context)@, depth as nat) == (Outcome {
            result: result_view(r),
            env: final(context)@,
        }),
    decreases depth, 0nat, 0nat,
{
    if depth == 0 {
        return Err(EvalError::RecursionLimit);
    }
    let inner: usize = depth - 1;
    match node {
        ASTNode::IntegerLiteral(value) => Ok(Value::Integer(*value)),
        ASTNode::BooleanLiteral(value) => Ok(Value::Boolean(*value)),
        ASTNode::StringLiteral(value) => Ok(Value::String(value.clone())),
        ASTNode::Identifier(name) => match context.variables.get(name) {
            Some(value) => Ok(value.clone()),
            None => Err(EvalError::UndefinedVariable(name.clone())),
        },
        ASTNode::BinaryOp { op, left, right } => {
            let left_value: Value = match evaluate_within(left, context, inner) {
                Ok(value) => value,
                Err(error) => {
                    return Err(error);
                },
            };
            let right_value: Value = match evaluate_within(right, context, inner) {
                Ok(value) => value,
                Err(error) => {
                    return Err(error);
                },
            };
            apply_named(op.as_str(), &left_value, &right_value)
        },
        ASTNode::VariableDeclaration { name, value, var_type: _ } => {
            match evaluate_within(value, context, inner) {
                Ok(v) => {
                    context.set_variable(name.as_str(), v.clone());
                    Ok(v)
                },
                Err(error) => Err(error),
            }
        },
        ASTNode::Assignment { identifier, value } => {
            match evaluate_within(value, context, inner) {
                Ok(v) => {
                    context.set_variable(identifier.as_str(), v.clone());
                    Ok(v)
                },
                Err(error) => Err(error),
            }
        },
        ASTNode::Loop { condition, body } => loop_within(condition, body, context, inner),
        ASTNode::IfElse { condition, if_block, else_block } => {
            let test: Value = match evaluate_within(condition, context, inner) {
                Ok(value) => value,
                Err(error) => {
                    return Err(error);
                },
            };
            match test.as_bool() {
                Err(error) => Err(error),
                Ok(true) => block_within(if_block.as_slice(), context, inner),
                Ok(false) => match else_block {
                    Some(block) => block_within(block.as_slice(), context, inner),
                    None => Ok(Value::Void),
                },
            }
        },
        ASTNode::FunctionDeclaration { name, return_type, parameters, body } => {
            let definition = FunctionDefinition {
                return_type: return_type.clone(),
                parameters: clone_parameters(parameters),
                body: clone_nodes(body),
            };
            context.set_function(name.clone(), definition);
            Ok(Value::Void)
        },
        ASTNode::FunctionCall { name, arguments } => call_within(name, arguments, context, inner),
        ASTNode::ReturnStatement(value) => evaluate_within(value, context, inner),
        ASTNode::PrintStatement { context: printed } => {
            match evaluate_within(printed, context, inner) {
                Ok(v) => {
                    context.emit(v);
                    Ok(Value::Void)
                },
                Err(error) => Err(error),
            }
        },
        ASTNode::Conditional { .. } => Err(EvalError::UnsupportedConstruct),
        ASTNode::ElseStatement { .. } => Err(EvalError::UnsupportedConstruct),
        ASTNode::NoOp => Err(EvalError::UnsupportedConstruct),
    }
}

/// Evaluates the statements of `block` in order, nesting at most `depth`
/// deep.
pub fn block_within(block: &[ASTNode], context: &mut Context, depth: usize) -> (r: Result<
    Value,
    EvalError,
>)
    ensures
        eval_block(nodes_view(block@), old(context)@, depth as nat) == (Outcome {
            result: result_view(r),
            env: final(context)@,
        }),
    decreases depth, 1nat, 0nat,
{
    let ghost all = nodes_view(block@);
    let mut result: Value = Value::Void;
    let mut i: usize = 0;
    while i < block.len()
        invariant
            i <= block.len(),
            all == nodes_view(block@),
            eval_block(all.take(i as int), old(context)@, depth as nat) == (Outcome {
                result: Ok(result@),
                env: context@,
            }),
        decreases block.len() - i,
    {
        proof {
            assert(all.take(i + 1).drop_last() == all.take(i as int));
            assert(all.take(i + 1).last() == block[i as int]@);
        }
        match evaluate_within(&block[i], context, depth) {
            Ok(value) => {
                result = value;
            },
            Err(error) => {
                proof {
                    lemma_block_fails_early(all, i + 1, old(context)@, depth as nat);
                }
                return Err(error);
            },
        }
        i += 1;
    }
    assert(all.take(i as int) == all);
    Ok(result)
}

/// A block whose beginning fails, fails in the same way.
pub proof fn lemma_block_fails_early(block: Seq<NodeView>, count: int, env: Env, depth: nat)
    requires
        0 <= count <= block.len(),
        eval_block(block.take(count), env, depth).result is Err,
    ensures
        eval_block(block, env, depth) == eval_block(block.take(count), env, depth),
    decreases block.len(),
{
    if count == block.len() {
        assert(block.take(count) == block);
    } else {
        assert(block.drop_last().take(count) == block.take(count));
        lemma_block_fails_early(block.drop_last(), count, env, depth);
    }
}

/// An argument list whose beginning fails, fails in the same way.
pub proof fn lemma_arguments_fail_early(
    arguments: Seq<NodeView>,
    count: int,
    env: Env,
    depth: nat,
)
    requires
        0 <= count <= arguments.len(),
        eval_arguments(arguments.take(count), env, depth).result is Err,
    ensures
        eval_arguments(arguments, env, depth) == eval_arguments(arguments.take(count), env, depth),
    decreases arguments.len(),
{
    if count == arguments.len() {
        assert(arguments.take(count) == arguments);
    } else {
        assert(arguments.drop_last().take(count) == arguments.take(count));
        lemma_arguments_fail_early(arguments.drop_last(), count, env, depth);
    }
}

/// Evaluates `node` as the argument of a call, nesting at most `depth`
/// deep.
pub fn expression_within(node: &ASTNode, context: &mut Context, depth: usize) -> (r: Result<
    Value,
    EvalError,
>)
    ensures
        eval_expression(node@, old(context)@, depth as nat) == (Outcome {
            result: result_view(r),
            env: final(context)@,
        }),
    decreases depth, 0nat, 1nat,
{
    match node {
        ASTNode::IntegerLiteral(_)
        | ASTNode::BooleanLiteral(_)
        | ASTNode::StringLiteral(_)
        | ASTNode::Identifier(_)
        | ASTNode::BinaryOp { .. }
        | ASTNode::FunctionCall { .. } => evaluate_within(node, context, depth),
        _ => Err(EvalError::UnsupportedConstruct),
    }
}

/// Evaluates the arguments of a call, left to right.
fn arguments_within(arguments: &Vec<Box<ASTNode>>, context: &mut Context, depth: usize) -> (r:
    Result<Vec<Value>, EvalError>)
    ensures
        eval_arguments(boxed_nodes_view(arguments@), old(context)@, depth as nat) == (
        ArgumentsOutcome { result: arguments_view(r), env: final(context)@ }),
        r matches Ok(values) ==> values.len() == arguments.len(),
    decreases depth, 1nat, 0nat,
{
    let ghost all = boxed_nodes_view(arguments@);
    let mut values: Vec<Value> = Vec::new();
    let mut i: usize = 0;
    assert(values_view(values@) == Seq::<ValueView>::empty());
    while i < arguments.len()
        invariant
            i <= arguments.len(),
            values.len() == i,
            all == boxed_nodes_view(arguments@),
            eval_arguments(all.take(i as int), old(context)@, depth as nat) == (ArgumentsOutcome {
                result: Ok(values_view(values@)),
                env: context@,
            }),
        decreases arguments.len() - i,
    {
        proof {
            assert(all.take(i + 1).drop_last() == all.take(i as int));
            assert(all.take(i + 1).last() == (*arguments[i as int])@);
        }
        let ghost before = values_view(values@);
        match expression_within(&arguments[i], context, depth) {
            Ok(value) => {
                values.push(value);
                assert(values_view(values@) == before.push(value@));
            },
            Err(error) => {
                proof {
                    lemma_arguments_fail_early(all, i + 1, old(context)@, depth as nat);
                }
                return Err(error);
            },
        }
        i += 1;
    }
    assert(all.take(i as int) == all);
    Ok(values)
}

/// Runs a loop, nesting at most `depth` deep.
fn loop_within(condition: &ASTNode, body: &Vec<ASTNode>, context: &mut Context, depth: usize) -> (r:
    Result<Value, EvalError>)
    ensures
        eval_loop(
            condition@,
            nodes_view(body@),
            old(context)@,
            depth as nat,
            old(context)@.max_iterations,
            ValueView::Void,
        ) == (Outcome { result: result_view(r), env: final(context)@ }),
    decreases depth, 2nat, 0nat,
{
    let mut remaining: u64 = context.max_iterations;
    let mut last: Value = Value::Void;
    loop
        invariant
            eval_loop(
                condition@,
                nodes_view(body@),
                old(context)@,
                depth as nat,
                old(context)@.max_iterations,
                ValueView::Void,
            ) == eval_loop(
                condition@,
                nodes_view(body@),
                context@,
                depth as nat,
                remaining as nat,
                last@,
            ),
        decreases remaining,
    {
        let test: Value = match evaluate_within(condition, context, depth) {
            Ok(value) => value,
            Err(error) => {
                return Err(error);
            },
        };
        match test.as_bool() {
            Err(error) => {
                return Err(error);
            },
            Ok(false) => {
                return Ok(last);
            },
            Ok(true) => {},
        }
        if remaining == 0 {
            return Err(EvalError::IterationLimit);
        }
        match block_within(body.as_slice(), context, depth) {
            Ok(value) => {
                last = value;
            },
            Err(error) => {
                return Err(error);
            },
        }
        remaining = remaining - 1;
    }
}

/// Calls the function `name` with `arguments`, nesting at most `depth`
/// deep.
fn call_within(
    name: &String,
    arguments: &Vec<Box<ASTNode>>,
    context: &mut Context,
    depth: usize,
) -> (r: Result<Value, EvalError>)
    ensures
        eval_call(name@, boxed_nodes_view(arguments@), old(context)@, depth as nat) == (Outcome {
            result: result_view(r),
            env: final(context)@,
        }),
    decreases depth, 2nat, 0nat,
{
    if !context.functions.contains(name) {
        return Err(EvalError::UndefinedFunction(name.clone()));
    }
    let values: Vec<Value> = match arguments_within(arguments, context, depth) {
        Ok(values) => values,
        Err(error) => {
            return Err(error);
        },
    };
    let ghost caller = context@;
    let definition: &FunctionDefinition = match context.functions.get(name) {
        Some(definition) => definition,
        None => {
            return Err(EvalError::UndefinedFunction(name.clone()));
        },
    };
    if definition.parameters.len() != values.len() {
        return Err(EvalError::ArityMismatch);
    }
    let mut callee = Context {
        variables: context.variables.replicate(),
        functions: context.functions.replicate(),
        current_function: Some(name.clone()),
        output: Vec::new(),
        max_depth: context.max_depth,
        max_iterations: context.max_iterations,
    };
    core::mem::swap(&mut context.output, &mut callee.output);
    let ghost start = callee@;
    let mut i: usize = 0;
    while i < values.len()
        invariant
            i <= values.len(),
            values.len() == definition.parameters.len(),
            callee@ == bind_parameters(
                start,
                definition@.parameters,
                values_view(values@),
                i as nat,
            ),
        decreases values.len() - i,
    {
        callee.set_variable(definition.parameters[i].1.as_str(), values[i].clone());
        i += 1;
    }
    assert(start == (Env { current_function: Some(name@), ..caller }));
    assert(callee@ == callee_env(caller, name@, definition@, values_view(values@)));
    let r = block_within(definition.body.as_slice(), &mut callee, depth);
    core::mem::swap(&mut context.output, &mut callee.output);
    r
}

/// Evaluates `node` in `context` and returns its value, as [`eval_node`]
/// describes. On a failure the context is left as it was when the failure
/// occurred.
pub fn evaluate(node: &ASTNode, context: &mut Context) -> (r: Result<Value, EvalError>)
    ensures
        eval_node(node@, old(context)@, old(context)@.max_depth) == (Outcome {
            result: result_view(r),
            env: final(context)@,
        }),
{
    let depth: usize = context.max_depth;
    evaluate_within(node, context, depth)
}

/// Evaluates the statements of `block` in order and returns the value of
/// the last one, as [`eval_block`] describes.
pub fn evaluate_block(block: &Vec<ASTNode>, context: &mut Context) -> (r: Result<Value, EvalError>)
    ensures
        eval_block(nodes_view(block@), old(context)@, old(context)@.max_depth) == (Outcome {
            result: result_view(r),
            env: final(context)@,
        }),
{
    let depth: usize = context.max_depth;
    block_within(block.as_slice(), context, depth)
}

/// Evaluates `expr` as the argument of a call, as [`eval_expression`]
/// describes: a node that is no expression is refused.
pub fn evaluate_expression(expr: &ASTNode, context: &mut Context) -> (r: Result<Value, EvalError>)
    ensures
        eval_expression(expr@, old(context)@, old(context)@.max_depth) == (Outcome {
            result: result_view(r),
            env: final(context)@,
        }),
{
    let depth: usize = context.max_depth;
    expression_within(expr, context, depth)
}

/// Runs a program: evaluates its statements in order and stops at the
/// first failure. What was printed is in the context's output, also after
/// a failure.
pub fn evaluate_ast(ast: Vec<ASTNode>, context: &mut Context) -> (r: Result<(), EvalError>)
    ensures
        eval_block(nodes_view(ast@), old(context)@, old(context)@.max_depth).env == final(context)@,
        match r {
            Ok(_) => eval_block(nodes_view(ast@), old(context)@, old(context)@.max_depth).result
                is Ok,
            Err(error) => eval_block(
                nodes_view(ast@),
                old(context)@,
                old(context)@.max_depth,
            ).result == Err::<ValueView, EvalErrorView>(error@),
        },
{
    match evaluate_block(&ast, context) {
        Ok(_) => Ok(()),
        Err(error) => Err(error),
    }
}

} // verus!
