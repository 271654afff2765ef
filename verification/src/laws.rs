//! Laws of the language, proved from the grammar and the semantics.
use vstd::prelude::*;
use crate::astnode::NodeView;
use crate::context::Env;
use crate::error::{EvalErrorView, ParseError};
use crate::grammar::{
    accept, expression, is_binary_operator, operations, program, statement, statements, term,
    terminated_expression, variable_declaration,
};
use crate::operator::{integer_result, operate, operator_named, Operator};
use crate::semantics::{
    bind_parameters, callee_env, done, eval_arguments, eval_block, eval_call, eval_expression,
    eval_loop, eval_node, failed, Outcome,
};
use crate::token::TokenView;
use crate::value::ValueView;

verus! {

/// A variable that is declared with an integer literal holds that integer:
/// the declaration gives it, and reading the variable afterwards gives it
/// again.
pub proof fn law_declared_integer_is_read_back(
    name: Seq<char>,
    var_type: Seq<char>,
    n: i32,
    env: Env,
    depth: nat,
)
    requires
        depth >= 2,
    ensures
        ({
            let declaration = NodeView::VariableDeclaration {
                name,
                value: Box::new(NodeView::IntegerLiteral(n)),
                var_type,
            };
            let declared = eval_node(declaration, env, depth);
            &&& declared.result == Ok::<ValueView, EvalErrorView>(ValueView::Integer(n))
            &&& eval_node(NodeView::Identifier(name), declared.env, depth).result == Ok::<
                ValueView,
                EvalErrorView,
            >(ValueView::Integer(n))
        }),
{
    reveal_with_fuel(eval_node, 2);
}

/// The tokens of `variable integer <name> = <n>;` are the declaration of
/// `name` with the integer literal `n`, whatever the name and the number.
pub proof fn law_integer_declaration_parses(name: Seq<char>, n: i32)
    ensures
        program(
            seq![
                TokenView::Variable,
                TokenView::Integer,
                TokenView::Identifier(name),
                TokenView::Assign,
                TokenView::IntegerLiteral(n),
                TokenView::Semicolon,
            ],
        ) == Ok::<Seq<NodeView>, ParseError>(
            seq![
                NodeView::VariableDeclaration {
                    name,
                    value: Box::new(NodeView::IntegerLiteral(n)),
                    var_type: "integer"@,
                },
            ],
        ),
{
    let tokens = seq![
        TokenView::Variable,
        TokenView::Integer,
        TokenView::Identifier(name),
        TokenView::Assign,
        TokenView::IntegerLiteral(n),
        TokenView::Semicolon,
    ];
    let declaration = NodeView::VariableDeclaration {
        name,
        value: Box::new(NodeView::IntegerLiteral(n)),
        var_type: "integer"@,
    };
    reveal(variable_declaration);
    reveal(terminated_expression);
    assert(term(tokens, 4) == accept(NodeView::IntegerLiteral(n), 5));
    assert(operations(tokens, 5, NodeView::IntegerLiteral(n)) == accept(
        NodeView::IntegerLiteral(n),
        5,
    ));
    assert(expression(tokens, 4) == accept(NodeView::IntegerLiteral(n), 5));
    assert(statement(tokens, 0) == accept(declaration, 6));
    assert(statements(tokens, 6) == accept(Seq::<NodeView>::empty(), 6));
    assert(seq![declaration] + Seq::<NodeView>::empty() == seq![declaration]);
}

/// A variable that is assigned a value other than `Void` holds that value:
/// reading it afterwards gives the value and leaves the environment as it
/// is.
pub proof fn law_assigned_value_is_read_back(
    identifier: Seq<char>,
    value: NodeView,
    env: Env,
    depth: nat,
)
    requires
        depth >= 1,
        eval_node(NodeView::Assignment { identifier, value: Box::new(value) }, env, depth).result
            is Ok,
        !(eval_node(
            NodeView::Assignment { identifier, value: Box::new(value) },
            env,
            depth,
        ).result->Ok_0 is Void),
    ensures
        ({
            let assigned = eval_node(
                NodeView::Assignment { identifier, value: Box::new(value) },
                env,
                depth,
            );
            eval_node(NodeView::Identifier(identifier), assigned.env, depth) == done(
                assigned.result->Ok_0,
                assigned.env,
            )
        }),
{
}

/// Reading a variable that has no binding fails, names the variable and
/// leaves the environment as it is. No value stands in for the missing one.
pub proof fn law_unbound_variable_fails(name: Seq<char>, env: Env, depth: nat)
    requires
        depth >= 1,
        !env.variables.contains_key(name),
    ensures
        eval_node(NodeView::Identifier(name), env, depth) == failed(
            EvalErrorView::UndefinedVariable(name),
            env,
        ),
{
}

/// Dividing an integer by zero, or taking its remainder by zero, fails
/// with `DivisionByZero`.
pub proof fn law_division_by_zero_fails(dividend: i32)
    ensures
        operate("Divide"@, ValueView::Integer(dividend), ValueView::Integer(0)) == Err::<
            ValueView,
            EvalErrorView,
        >(EvalErrorView::DivisionByZero),
        operate("Modulo"@, ValueView::Integer(dividend), ValueView::Integer(0)) == Err::<
            ValueView,
            EvalErrorView,
        >(EvalErrorView::DivisionByZero),
{
    lemma_operator_names();
}

/// Each operator name stands for its operator.
pub proof fn lemma_operator_names()
    ensures
        operator_named("Plus"@) == Some(Operator::Plus),
        operator_named("Minus"@) == Some(Operator::Minus),
        operator_named("Multiply"@) == Some(Operator::Multiply),
        operator_named("Divide"@) == Some(Operator::Divide),
        operator_named("Modulo"@) == Some(Operator::Modulo),
        operator_named("Equals"@) == Some(Operator::Equals),
        operator_named("NotEquals"@) == Some(Operator::NotEquals),
        operator_named("LessThan"@) == Some(Operator::LessThan),
        operator_named("LessThanOrEqual"@) == Some(Operator::LessThanOrEqual),
        operator_named("GreaterThan"@) == Some(Operator::GreaterThan),
        operator_named("GreaterThanOrEqual"@) == Some(Operator::GreaterThanOrEqual),
        operator_named("And"@) == Some(Operator::And),
        operator_named("Or"@) == Some(Operator::Or),
        operator_named("Not"@) == Some(Operator::Not),
{
    reveal_strlit("Plus");
    reveal_strlit("Minus");
    reveal_strlit("Multiply");
    reveal_strlit("Divide");
    reveal_strlit("Modulo");
    reveal_strlit("Equals");
    reveal_strlit("NotEquals");
    reveal_strlit("LessThan");
    reveal_strlit("LessThanOrEqual");
    reveal_strlit("GreaterThan");
    reveal_strlit("GreaterThanOrEqual");
    reveal_strlit("And");
    reveal_strlit("Or");
    reveal_strlit("Not");
    assert("Plus"@.len() == 4 && "Minus"@.len() == 5 && "Multiply"@.len() == 8);
    assert("Divide"@.len() == 6 && "Modulo"@.len() == 6 && "Equals"@.len() == 6);
    assert("NotEquals"@.len() == 9 && "LessThan"@.len() == 8);
    assert("LessThanOrEqual"@.len() == 15 && "GreaterThan"@.len() == 11);
    assert("GreaterThanOrEqual"@.len() == 18);
    assert("And"@.len() == 3 && "Or"@.len() == 2 && "Not"@.len() == 3);
    assert("Divide"@[0] != "Modulo"@[0]);
    assert("Divide"@[0] != "Equals"@[0]);
    assert("Modulo"@[0] != "Equals"@[0]);
    assert("Multiply"@[1] != "LessThan"@[1]);
    assert("And"@[0] != "Not"@[0]);
}

/// Operators have one level of precedence and group from the left: three
/// terms with two operators between them are the second operator applied
/// to the first operation and the third term, whatever the operators are.
pub proof fn law_operators_group_from_the_left(
    a: NodeView,
    first: TokenView,
    b: NodeView,
    second: TokenView,
    c: NodeView,
    tokens: Seq<TokenView>,
)
    requires
        tokens.len() == 5,
        term(tokens, 0) == accept(a, 1),
        tokens[1] == first,
        is_binary_operator(first),
        term(tokens, 2) == accept(b, 3),
        tokens[3] == second,
        is_binary_operator(second),
        term(tokens, 4) == accept(c, 5),
    ensures
        expression(tokens, 0) == accept(
            NodeView::BinaryOp {
                op: second.name(),
                left: Box::new(
                    NodeView::BinaryOp { op: first.name(), left: Box::new(a), right: Box::new(b) },
                ),
                right: Box::new(c),
            },
            5,
        ),
{
    reveal_with_fuel(operations, 4);
}

/// A sum followed by a product is the product of the sum: the tree that
/// `a + b * c` parses to evaluates to `(a + b) * c`, not to `a + (b * c)`.
pub proof fn law_sum_is_multiplied_as_a_whole(a: i32, b: i32, c: i32, env: Env, depth: nat)
    requires
        depth >= 3,
        i32::MIN <= a + b <= i32::MAX,
    ensures
        eval_node(
            NodeView::BinaryOp {
                op: "Multiply"@,
                left: Box::new(
                    NodeView::BinaryOp {
                        op: "Plus"@,
                        left: Box::new(NodeView::IntegerLiteral(a)),
                        right: Box::new(NodeView::IntegerLiteral(b)),
                    },
                ),
                right: Box::new(NodeView::IntegerLiteral(c)),
            },
            env,
            depth,
        ) == (Outcome { result: integer_result((a + b) * c), env }),
{
    lemma_operator_names();
    let sum = NodeView::BinaryOp {
        op: "Plus"@,
        left: Box::new(NodeView::IntegerLiteral(a)),
        right: Box::new(NodeView::IntegerLiteral(b)),
    };
    let inner = (depth - 1) as nat;
    assert(eval_node(sum, env, inner) == done(ValueView::Integer((a + b) as i32), env)) by {
        reveal_with_fuel(eval_node, 2);
    }
    assert(eval_node(NodeView::IntegerLiteral(c), env, inner) == done(ValueView::Integer(c), env));
}

/// Where the condition of a conditional holds, the conditional is its
/// first block: the `else` block is not evaluated and has no say in the
/// outcome.
pub proof fn law_true_condition_skips_else(
    condition: NodeView,
    if_block: Seq<NodeView>,
    else_block: Option<Seq<NodeView>>,
    env: Env,
    depth: nat,
)
    requires
        depth >= 1,
        eval_node(condition, env, (depth - 1) as nat).result matches Ok(v) && v.truth() == Some(
            true,
        ),
    ensures
        eval_node(
            NodeView::IfElse { condition: Box::new(condition), if_block, else_block },
            env,
            depth,
        ) == eval_block(
            if_block,
            eval_node(condition, env, (depth - 1) as nat).env,
            (depth - 1) as nat,
        ),
{
}

/// Binding parameters changes the variables and nothing else.
pub proof fn lemma_bind_parameters_keeps_the_rest(
    env: Env,
    parameters: Seq<(Seq<char>, Seq<char>)>,
    values: Seq<ValueView>,
    count: nat,
)
    ensures
        bind_parameters(env, parameters, values, count) == (Env {
            variables: bind_parameters(env, parameters, values, count).variables,
            ..env
        }),
    decreases count,
{
    if count > 0 {
        lemma_bind_parameters_keeps_the_rest(env, parameters, values, (count - 1) as nat);
    }
}

/// Environments are not shared: of what the body of a called function does
/// to its environment, the caller sees the output and nothing else. After
/// the call the caller's variables, functions and limits are those in
/// which the arguments were evaluated.
pub proof fn law_call_leaves_the_caller_alone(
    name: Seq<char>,
    arguments: Seq<NodeView>,
    env: Env,
    depth: nat,
)
    requires
        env.functions.contains_key(name),
    ensures
        ({
            let caller = eval_arguments(arguments, env, depth).env;
            let after = eval_call(name, arguments, env, depth).env;
            after == (Env { output: after.output, ..caller })
        }),
{
}

/// Whether evaluating a node can bind, declare or print nothing, wherever
/// in the node evaluation goes.
pub open spec fn effect_free(node: NodeView) -> bool
    decreases node,
{
    match node {
        NodeView::IntegerLiteral(_) => true,
        NodeView::BooleanLiteral(_) => true,
        NodeView::StringLiteral(_) => true,
        NodeView::Identifier(_) => true,
        NodeView::BinaryOp { op, left, right } => effect_free(*left) && effect_free(*right),
        NodeView::Loop { condition, body } => effect_free(*condition) && all_effect_free(body),
        NodeView::IfElse { condition, if_block, else_block } => effect_free(*condition)
            && all_effect_free(if_block) && match else_block {
            Some(block) => all_effect_free(block),
            None => true,
        },
        NodeView::FunctionCall { name, arguments } => all_effect_free(arguments),
        NodeView::ReturnStatement(value) => effect_free(*value),
        NodeView::Conditional { .. } => true,
        NodeView::ElseStatement { .. } => true,
        NodeView::NoOp => true,
        NodeView::VariableDeclaration { .. } => false,
        NodeView::Assignment { .. } => false,
        NodeView::FunctionDeclaration { .. } => false,
        NodeView::PrintStatement { .. } => false,
    }
}

/// Whether every node of a sequence is [`effect_free`].
pub open spec fn all_effect_free(nodes: Seq<NodeView>) -> bool
    decreases nodes,
{
    forall|i: int| 0 <= i < nodes.len() ==> effect_free(#[trigger] nodes[i])
}

/// Whether the body of every declared function is [`effect_free`].
pub open spec fn functions_effect_free(env: Env) -> bool {
    forall|name: Seq<char>| #[trigger]
        env.functions.contains_key(name) ==> all_effect_free(env.functions[name].body)
}

/// Evaluating an effect-free node leaves the environment as it was.
pub proof fn lemma_effect_free_node(node: NodeView, env: Env, depth: nat)
    requires
        effect_free(node),
        functions_effect_free(env),
    ensures
        eval_node(node, env, depth).env == env,
    decreases depth, 0nat, 0nat,
{
    if depth > 0 {
        let inner = (depth - 1) as nat;
        match node {
            NodeView::BinaryOp { op, left, right } => {
                lemma_effect_free_node(*left, env, inner);
                lemma_effect_free_node(*right, env, inner);
            },
            NodeView::Loop { condition, body } => {
                lemma_effect_free_loop(
                    *condition,
                    body,
                    env,
                    inner,
                    env.max_iterations,
                    ValueView::Void,
                );
            },
            NodeView::IfElse { condition, if_block, else_block } => {
                lemma_effect_free_node(*condition, env, inner);
                lemma_effect_free_block(if_block, env, inner);
                match else_block {
                    Some(block) => {
                        lemma_effect_free_block(block, env, inner);
                    },
                    None => {},
                }
            },
            NodeView::FunctionCall { name, arguments } => {
                lemma_effect_free_call(name, arguments, env, inner);
            },
            NodeView::ReturnStatement(value) => {
                lemma_effect_free_node(*value, env, inner);
            },
            _ => {},
        }
    }
}

/// Evaluating a block of effect-free statements leaves the environment as
/// it was.
pub proof fn lemma_effect_free_block(block: Seq<NodeView>, env: Env, depth: nat)
    requires
        all_effect_free(block),
        functions_effect_free(env),
    ensures
        eval_block(block, env, depth).env == env,
    decreases depth, 1nat, block.len(),
{
    if block.len() > 0 {
        assert(all_effect_free(block.drop_last())) by {
            assert forall|i: int| 0 <= i < block.drop_last().len() implies effect_free(
                #[trigger] block.drop_last()[i],
            ) by {
                assert(block.drop_last()[i] == block[i]);
            }
        }
        lemma_effect_free_block(block.drop_last(), env, depth);
        assert(effect_free(block[block.len() - 1]));
        lemma_effect_free_node(block.last(), env, depth);
    }
}

/// Evaluating effect-free arguments leaves the environment as it was.
pub proof fn lemma_effect_free_arguments(arguments: Seq<NodeView>, env: Env, depth: nat)
    requires
        all_effect_free(arguments),
        functions_effect_free(env),
    ensures
        eval_arguments(arguments, env, depth).env == env,
    decreases depth, 1nat, arguments.len(),
{
    if arguments.len() > 0 {
        assert(all_effect_free(arguments.drop_last())) by {
            assert forall|i: int| 0 <= i < arguments.drop_last().len() implies effect_free(
                #[trigger] arguments.drop_last()[i],
            ) by {
                assert(arguments.drop_last()[i] == arguments[i]);
            }
        }
        lemma_effect_free_arguments(arguments.drop_last(), env, depth);
        assert(effect_free(arguments[arguments.len() - 1]));
        lemma_effect_free_node(arguments.last(), env, depth);
        assert(eval_expression(arguments.last(), env, depth).env == env);
    }
}

/// A loop with an effect-free condition and body leaves the environment as
/// it was.
pub proof fn lemma_effect_free_loop(
    condition: NodeView,
    body: Seq<NodeView>,
    env: Env,
    depth: nat,
    iterations: nat,
    last: ValueView,
)
    requires
        effect_free(condition),
        all_effect_free(body),
        functions_effect_free(env),
    ensures
        eval_loop(condition, body, env, depth, iterations, last).env == env,
    decreases depth, 2nat, iterations,
{
    lemma_effect_free_node(condition, env, depth);
    lemma_effect_free_block(body, env, depth);
    if iterations > 0 {
        let round = eval_block(body, env, depth);
        match round.result {
            Ok(value) => {
                lemma_effect_free_loop(
                    condition,
                    body,
                    env,
                    depth,
                    (iterations - 1) as nat,
                    value,
                );
            },
            Err(_) => {},
        }
    }
}

/// A call with effect-free arguments, where every declared function has an
/// effect-free body, leaves the environment as it was.
pub proof fn lemma_effect_free_call(name: Seq<char>, arguments: Seq<NodeView>, env: Env, depth: nat)
    requires
        all_effect_free(arguments),
        functions_effect_free(env),
    ensures
        eval_call(name, arguments, env, depth).env == env,
    decreases depth, 2nat, 0nat,
{
    lemma_effect_free_arguments(arguments, env, depth);
    let evaluated = eval_arguments(arguments, env, depth);
    if env.functions.contains_key(name) {
        match evaluated.result {
            Ok(values) => {
                let function = env.functions[name];
                let callee = callee_env(env, name, function, values);
                lemma_bind_parameters_keeps_the_rest(
                    Env { current_function: Some(name), ..env },
                    function.parameters,
                    values,
                    function.parameters.len(),
                );
                assert(functions_effect_free(callee));
                lemma_effect_free_block(function.body, callee, depth);
            },
            Err(_) => {},
        }
    }
}

/// Evaluating a program that binds, declares and prints nothing is
/// idempotent: it leaves the environment as it found it, so evaluating it
/// again gives the same outcome again. This holds of every environment in
/// which the declared functions bind, declare and print nothing either.
pub proof fn law_reevaluation_is_idempotent(program: Seq<NodeView>, env: Env, depth: nat)
    requires
        all_effect_free(program),
        functions_effect_free(env),
    ensures
        eval_block(program, env, depth).env == env,
        eval_block(program, eval_block(program, env, depth).env, depth) == eval_block(
            program,
            env,
            depth,
        ),
{
    lemma_effect_free_block(program, env, depth);
}

/// Evaluating a program that binds, declares and prints nothing against a
/// fresh environment leaves that environment fresh, so that evaluating the
/// program twice gives the same outcome twice.
pub proof fn law_reevaluation_from_fresh_is_idempotent(
    program: Seq<NodeView>,
    max_depth: nat,
    max_iterations: nat,
)
    requires
        all_effect_free(program),
    ensures
        ({
            let fresh = Env::fresh(max_depth, max_iterations);
            let first = eval_block(program, fresh, max_depth);
            &&& first.env == fresh
            &&& eval_block(program, first.env, max_depth) == first
        }),
{
    law_reevaluation_is_idempotent(program, Env::fresh(max_depth, max_iterations), max_depth);
}

/// The condition `<name> > 0`.
pub open spec fn is_positive(name: Seq<char>) -> NodeView {
    NodeView::BinaryOp {
        op: "GreaterThan"@,
        left: Box::new(NodeView::Identifier(name)),
        right: Box::new(NodeView::IntegerLiteral(0)),
    }
}

/// The statement `<name> = <name> - 1;`.
pub open spec fn decrement(name: Seq<char>) -> NodeView {
    NodeView::Assignment {
        identifier: name,
        value: Box::new(
            NodeView::BinaryOp {
                op: "Minus"@,
                left: Box::new(NodeView::Identifier(name)),
                right: Box::new(NodeView::IntegerLiteral(1)),
            },
        ),
    }
}

/// The condition `<name> > 0` tells whether the integer bound to `name`
/// is positive, and changes nothing.
pub proof fn lemma_is_positive(name: Seq<char>, k: i32, env: Env, depth: nat)
    requires
        depth >= 2,
        env.variables.contains_key(name),
        env.variables[name] == ValueView::Integer(k),
    ensures
        eval_node(is_positive(name), env, depth) == done(ValueView::Boolean(k > 0), env),
{
    lemma_operator_names();
    reveal_with_fuel(eval_node, 2);
}

/// The statement `<name> = <name> - 1;` lowers the integer bound to `name`
/// by one and gives the new value.
pub proof fn lemma_decrement(name: Seq<char>, k: i32, env: Env, depth: nat)
    requires
        depth >= 3,
        k > i32::MIN,
        env.variables.contains_key(name),
        env.variables[name] == ValueView::Integer(k),
    ensures
        eval_block(seq![decrement(name)], env, depth) == done(
            ValueView::Integer((k - 1) as i32),
            env.bind(name, ValueView::Integer((k - 1) as i32)),
        ),
{
    lemma_operator_names();
    let body = seq![decrement(name)];
    let inner = (depth - 1) as nat;
    let difference = NodeView::BinaryOp {
        op: "Minus"@,
        left: Box::new(NodeView::Identifier(name)),
        right: Box::new(NodeView::IntegerLiteral(1)),
    };
    assert(eval_node(difference, env, inner) == done(ValueView::Integer((k - 1) as i32), env)) by {
        reveal_with_fuel(eval_node, 2);
    }
    assert(eval_node(decrement(name), env, depth) == done(
        ValueView::Integer((k - 1) as i32),
        env.bind(name, ValueView::Integer((k - 1) as i32)),
    ));
    assert(body.len() == 1);
    assert(body.drop_last() == Seq::<NodeView>::empty());
    assert(eval_block(body.drop_last(), env, depth) == done(ValueView::Void, env));
    assert(body.last() == decrement(name));
    assert(eval_block(body, env, depth) == eval_node(body.last(), env, depth));
}

/// Counting down ends at zero: where `name` is bound to an integer that is
/// not negative, the loop `loop (<name> > 0) { <name> = <name> - 1; }` ends
/// without a failure, with `name` bound to zero and everything else as it
/// was, provided that the loop may run as many times as the integer says.
pub proof fn law_countdown_ends_at_zero(
    name: Seq<char>,
    k: i32,
    env: Env,
    depth: nat,
    iterations: nat,
    last: ValueView,
)
    requires
        depth >= 3,
        0 <= k <= iterations,
        env.variables.contains_key(name),
        env.variables[name] == ValueView::Integer(k),
    ensures
        ({
            let ended = eval_loop(
                is_positive(name),
                seq![decrement(name)],
                env,
                depth,
                iterations,
                last,
            );
            &&& ended.result is Ok
            &&& ended.env == (Env {
                variables: env.variables.insert(name, ValueView::Integer(0)),
                ..env
            })
        }),
    decreases k,
{
    lemma_is_positive(name, k, env, depth);
    if k > 0 {
        lemma_decrement(name, k, env, depth);
        let lower = env.bind(name, ValueView::Integer((k - 1) as i32));
        law_countdown_ends_at_zero(
            name,
            (k - 1) as i32,
            lower,
            depth,
            (iterations - 1) as nat,
            ValueView::Integer((k - 1) as i32),
        );
        assert(lower.variables.insert(name, ValueView::Integer(0)) == env.variables.insert(
            name,
            ValueView::Integer(0),
        ));
    } else {
        assert(env.variables.insert(name, ValueView::Integer(0)) == env.variables);
    }
}

} // verus!
