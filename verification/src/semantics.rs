//! What evaluation means: the value, the failure and the environment that
//! each node gives, as mathematical functions of the node and the
//! environment before it.
use vstd::prelude::*;
use crate::astnode::NodeView;
use crate::context::{Env, FunctionView};
use crate::error::EvalErrorView;
use crate::operator::operate;
use crate::value::ValueView;

verus! {

/// How the evaluation of a node ends: with a value or a failure, and with
/// the environment as it stands then. After a failure the environment is
/// the one in which it occurred: what was bound or printed before stays.
pub ghost struct Outcome {
    pub result: Result<ValueView, EvalErrorView>,
    pub env: Env,
}

/// How the evaluation of an argument list ends.
pub ghost struct ArgumentsOutcome {
    pub result: Result<Seq<ValueView>, EvalErrorView>,
    pub env: Env,
}

/// Evaluation that ends with `value` in `env`.
pub open spec fn done(value: ValueView, env: Env) -> Outcome {
    Outcome { result: Ok(value), env }
}

/// Evaluation that fails with `error` in `env`.
pub open spec fn failed(error: EvalErrorView, env: Env) -> Outcome {
    Outcome { result: Err(error), env }
}

/// Whether a node is of a kind that may stand as the argument of a call: a
/// literal, a variable, a binary operation or a call.
pub open spec fn is_expression(node: NodeView) -> bool {
    node is IntegerLiteral || node is BooleanLiteral || node is StringLiteral || node is Identifier
        || node is BinaryOp || node is FunctionCall
}

/// The environment after the first `count` parameters are set, in order, to
/// the values at their positions.
pub open spec fn bind_parameters(
    env: Env,
    parameters: Seq<(Seq<char>, Seq<char>)>,
    values: Seq<ValueView>,
    count: nat,
) -> Env
    decreases count,
{
    if count == 0 {
        env
    } else {
        bind_parameters(env, parameters, values, (count - 1) as nat).bind(
            parameters[count - 1].1,
            values[count - 1],
        )
    }
}

/// The environment in which the body of `function`, called as `name` with
/// `values`, begins: a copy of the caller's, with the parameters bound.
pub open spec fn callee_env(
    caller: Env,
    name: Seq<char>,
    function: FunctionView,
    values: Seq<ValueView>,
) -> Env {
    bind_parameters(
        Env { current_function: Some(name), ..caller },
        function.parameters,
        values,
        function.parameters.len(),
    )
}

/// The outcome of evaluating `node` in `env`, nesting at most `depth`
/// deep.
///
/// A literal gives its value and a variable what it is bound to. A binary
/// operation evaluates its left operand, then its right one, both always,
/// and applies the operator. A declaration or an assignment evaluates its
/// right-hand side, binds the name and gives the value. A conditional
/// evaluates its condition once and then exactly one block, or nothing
/// where the condition is false and there is no `else`. A function
/// declaration records the function and gives `Void`. `print` appends the
/// value to the output and gives `Void`. `return` gives the value of its
/// expression and does not leave the block. The node kinds that have no
/// rule are unsupported constructs.
pub open spec fn eval_node(node: NodeView, env: Env, depth: nat) -> Outcome
    decreases depth, 0nat, 0nat,
{
    if depth == 0 {
        failed(EvalErrorView::RecursionLimit, env)
    } else {
        let inner = (depth - 1) as nat;
        match node {
            NodeView::IntegerLiteral(value) => done(ValueView::Integer(value), env),
            NodeView::BooleanLiteral(value) => done(ValueView::Boolean(value), env),
            NodeView::StringLiteral(value) => done(ValueView::String(value), env),
            NodeView::Identifier(name) => if env.variables.contains_key(name) {
                done(env.variables[name], env)
            } else {
                failed(EvalErrorView::UndefinedVariable(name), env)
            },
            NodeView::BinaryOp { op, left, right } => {
                let first = eval_node(*left, env, inner);
                match first.result {
                    Err(_) => first,
                    Ok(left_value) => {
                        let second = eval_node(*right, first.env, inner);
                        match second.result {
                            Err(_) => second,
                            Ok(right_value) => Outcome {
                                result: operate(op, left_value, right_value),
                                env: second.env,
                            },
                        }
                    },
                }
            },
            NodeView::VariableDeclaration { name, value, var_type } => {
                let right = eval_node(*value, env, inner);
                match right.result {
                    Err(_) => right,
                    Ok(v) => done(v, right.env.bind(name, v)),
                }
            },
            NodeView::Assignment { identifier, value } => {
                let right = eval_node(*value, env, inner);
                match right.result {
                    Err(_) => right,
                    Ok(v) => done(v, right.env.bind(identifier, v)),
                }
            },
            NodeView::Loop { condition, body } => eval_loop(
                *condition,
                body,
                env,
                inner,
                env.max_iterations,
                ValueView::Void,
            ),
            NodeView::IfElse { condition, if_block, else_block } => {
                let test = eval_node(*condition, env, inner);
                match test.result {
                    Err(_) => test,
                    Ok(v) => match v.truth() {
                        None => failed(EvalErrorView::TypeMismatch, test.env),
                        Some(true) => eval_block(if_block, test.env, inner),
                        Some(false) => match else_block {
                            Some(block) => eval_block(block, test.env, inner),
                            None => done(ValueView::Void, test.env),
                        },
                    },
                }
            },
            NodeView::FunctionDeclaration { name, return_type, parameters, body } => done(
                ValueView::Void,
                env.declare(name, FunctionView { return_type, parameters, body }),
            ),
            NodeView::FunctionCall { name, arguments } => eval_call(name, arguments, env, inner),
            NodeView::ReturnStatement(value) => eval_node(*value, env, inner),
            NodeView::PrintStatement { context } => {
                let printed = eval_node(*context, env, inner);
                match printed.result {
                    Err(_) => printed,
                    Ok(v) => done(ValueView::Void, printed.env.emit(v)),
                }
            },
            NodeView::Conditional { .. } => failed(EvalErrorView::UnsupportedConstruct, env),
            NodeView::ElseStatement { .. } => failed(EvalErrorView::UnsupportedConstruct, env),
            NodeView::NoOp => failed(EvalErrorView::UnsupportedConstruct, env),
        }
    }
}

/// The outcome of evaluating the statements of `block` in order. The value
/// is that of the last statement, `Void` for an empty block; the first
/// failure ends the block.
pub open spec fn eval_block(block: Seq<NodeView>, env: Env, depth: nat) -> Outcome
    decreases depth, 1nat, block.len(),
{
    if block.len() == 0 {
        done(ValueView::Void, env)
    } else {
        let before = eval_block(block.drop_last(), env, depth);
        match before.result {
            Err(_) => before,
            Ok(_) => eval_node(block.last(), before.env, depth),
        }
    }
}

/// The outcome of evaluating `node` as the argument of a call: as
/// [`eval_node`] does where the node is an expression, and as an
/// unsupported construct otherwise.
pub open spec fn eval_expression(node: NodeView, env: Env, depth: nat) -> Outcome
    decreases depth, 0nat, 1nat,
{
    if is_expression(node) {
        eval_node(node, env, depth)
    } else {
        failed(EvalErrorView::UnsupportedConstruct, env)
    }
}

/// The outcome of evaluating the arguments of a call, left to right.
pub open spec fn eval_arguments(arguments: Seq<NodeView>, env: Env, depth: nat) -> ArgumentsOutcome
    decreases depth, 1nat, arguments.len(),
{
    if arguments.len() == 0 {
        ArgumentsOutcome { result: Ok(Seq::empty()), env }
    } else {
        let before = eval_arguments(arguments.drop_last(), env, depth);
        match before.result {
            Err(_) => before,
            Ok(values) => {
                let last = eval_expression(arguments.last(), before.env, depth);
                match last.result {
                    Err(error) => ArgumentsOutcome { result: Err(error), env: last.env },
                    Ok(value) => ArgumentsOutcome { result: Ok(values.push(value)), env: last.env },
                }
            },
        }
    }
}

/// The outcome of a loop that may still run `iterations` times and whose
/// last iteration, if there was one, gave `last`.
///
/// The condition is evaluated before each iteration and must be a boolean
/// or an integer. Where it is false the loop gives `last`; where it is true
/// and no iteration is left, the loop fails.
pub open spec fn eval_loop(
    condition: NodeView,
    body: Seq<NodeView>,
    env: Env,
    depth: nat,
    iterations: nat,
    last: ValueView,
) -> Outcome
    decreases depth, 2nat, iterations,
{
    let test = eval_node(condition, env, depth);
    match test.result {
        Err(_) => test,
        Ok(v) => match v.truth() {
            None => failed(EvalErrorView::TypeMismatch, test.env),
            Some(false) => done(last, test.env),
            Some(true) => if iterations == 0 {
                failed(EvalErrorView::IterationLimit, test.env)
            } else {
                let round = eval_block(body, test.env, depth);
                match round.result {
                    Err(_) => round,
                    Ok(value) => eval_loop(
                        condition,
                        body,
                        round.env,
                        depth,
                        (iterations - 1) as nat,
                        value,
                    ),
                }
            },
        },
    }
}

/// The outcome of calling the function `name` with `arguments`.
///
/// The function must be declared, or the call fails before anything is
/// evaluated. The arguments are evaluated in the caller's environment.
/// Then the function is looked up, the number of arguments is held against
/// the number of parameters, and the body is evaluated as a block in a copy
/// of the caller's environment with the parameters bound. Of what the body
/// does to that copy the caller sees the output and nothing else.
pub open spec fn eval_call(name: Seq<char>, arguments: Seq<NodeView>, env: Env, depth: nat) -> Outcome
    decreases depth, 2nat, 0nat,
{
    if !env.functions.contains_key(name) {
        failed(EvalErrorView::UndefinedFunction(name), env)
    } else {
        let evaluated = eval_arguments(arguments, env, depth);
        match evaluated.result {
            Err(error) => failed(error, evaluated.env),
            Ok(values) => {
                let caller = evaluated.env;
                if !caller.functions.contains_key(name) {
                    failed(EvalErrorView::UndefinedFunction(name), caller)
                } else {
                    let function = caller.functions[name];
                    if function.parameters.len() != values.len() {
                        failed(EvalErrorView::ArityMismatch, caller)
                    } else {
                        let body = eval_block(
                            function.body,
                            callee_env(caller, name, function, values),
                            depth,
                        );
                        Outcome {
                            result: body.result,
                            env: Env { output: body.env.output, ..caller },
                        }
                    }
                }
            },
        }
    }
}

} // verus!
