//! The grammar, as mathematical functions from a token sequence and a
//! position to what is parsed there and where parsing stops.
//!
//! Expressions have one level of precedence and associate to the left:
//! `2 + 3 * 4` is `(2 + 3) * 4`.
use vstd::prelude::*;
use crate::astnode::NodeView;
use crate::error::{ParseError, ParseErrorKind};
use crate::token::TokenView;

verus! {

/// What parsing at a position gives: a result and the position of the
/// first token that was not consumed. After a failure that is the
/// position of the offending token.
pub ghost struct Parse<T> {
    pub result: Result<T, ParseError>,
    pub next: int,
}

/// A parse that gives `value` and stops at `next`.
pub open spec fn accept<T>(value: T, next: int) -> Parse<T> {
    Parse { result: Ok(value), next }
}

/// A parse that fails at `pos`.
pub open spec fn reject<T>(kind: ParseErrorKind, pos: int) -> Parse<T> {
    Parse { result: Err(ParseError { kind, position: pos as usize }), next: pos }
}

/// A parse that fails as an earlier one did.
pub open spec fn pass_on<T>(error: ParseError, next: int) -> Parse<T> {
    Parse { result: Err(error), next }
}

/// The token at `pos`, if there is one.
pub open spec fn token_at(tokens: Seq<TokenView>, pos: int) -> Option<TokenView> {
    if 0 <= pos < tokens.len() {
        Some(tokens[pos])
    } else {
        None
    }
}

/// The fixed tokens that the grammar asks for by position.
#[derive(Debug, Clone, Copy, PartialEq, Eq, Structural)]
pub enum Delimiter {
    Assign,
    Semicolon,
    LParen,
    RParen,
    LBrace,
}

impl Delimiter {
    /// The token that the delimiter is.
    pub open spec fn token(self) -> TokenView {
        match self {
            Delimiter::Assign => TokenView::Assign,
            Delimiter::Semicolon => TokenView::Semicolon,
            Delimiter::LParen => TokenView::LParen,
            Delimiter::RParen => TokenView::RParen,
            Delimiter::LBrace => TokenView::LBrace,
        }
    }

    /// The failure that the delimiter's absence is.
    pub open spec fn missing(self) -> ParseErrorKind {
        match self {
            Delimiter::Assign => ParseErrorKind::ExpectedAssign,
            Delimiter::Semicolon => ParseErrorKind::ExpectedSemicolon,
            Delimiter::LParen => ParseErrorKind::ExpectedLParen,
            Delimiter::RParen => ParseErrorKind::ExpectedRParen,
            Delimiter::LBrace => ParseErrorKind::ExpectedLBrace,
        }
    }
}

/// The delimiter `delimiter` at `pos`.
pub open spec fn expect(tokens: Seq<TokenView>, pos: int, delimiter: Delimiter) -> Parse<()> {
    if token_at(tokens, pos) == Some(delimiter.token()) {
        accept((), pos + 1)
    } else {
        reject(delimiter.missing(), pos)
    }
}

/// A type at `pos`: `integer` or `boolean`, given by its name.
pub open spec fn expect_type(tokens: Seq<TokenView>, pos: int) -> Parse<Seq<char>> {
    match token_at(tokens, pos) {
        Some(TokenView::Integer) => accept("integer"@, pos + 1),
        Some(TokenView::Boolean) => accept("boolean"@, pos + 1),
        _ => reject(ParseErrorKind::ExpectedType, pos),
    }
}

/// An identifier at `pos`, given by its name.
pub open spec fn expect_identifier(tokens: Seq<TokenView>, pos: int) -> Parse<Seq<char>> {
    match token_at(tokens, pos) {
        Some(TokenView::Identifier(name)) => accept(name, pos + 1),
        _ => reject(ParseErrorKind::ExpectedIdentifier, pos),
    }
}

/// Whether a token is a binary operator: arithmetic, relational, equality
/// or logical.
pub open spec fn is_binary_operator(token: TokenView) -> bool {
    token is Plus || token is Minus || token is Multiply || token is Divide || token is Modulo
        || token is Star || token is Slash || token is Percent || token is Equals
        || token is NotEquals || token is LessThan || token is LessThanOrEqual
        || token is GreaterThan || token is GreaterThanOrEqual || token is And || token is Or
}

/// A term at `pos`: an integer or boolean literal, an identifier, or a
/// call.
pub open spec fn term(tokens: Seq<TokenView>, pos: int) -> Parse<NodeView>
    decreases tokens.len() - pos, 1nat,
{
    match token_at(tokens, pos) {
        Some(TokenView::IntegerLiteral(value)) => accept(NodeView::IntegerLiteral(value), pos + 1),
        Some(TokenView::BooleanLiteral(value)) => accept(NodeView::BooleanLiteral(value), pos + 1),
        Some(TokenView::Identifier(name)) => accept(NodeView::Identifier(name), pos + 1),
        Some(TokenView::Call) => call(tokens, pos + 1),
        _ => reject(ParseErrorKind::UnexpectedToken, pos),
    }
}

/// What follows the keyword `call`, from `pos` on: the function's name and
/// its arguments in round brackets.
pub open spec fn call(tokens: Seq<TokenView>, pos: int) -> Parse<NodeView>
    decreases tokens.len() - pos, 0nat,
{
    let name = expect_identifier(tokens, pos);
    match name.result {
        Err(e) => pass_on(e, name.next),
        Ok(function) => {
            let open = expect(tokens, name.next, Delimiter::LParen);
            match open.result {
                Err(e) => pass_on(e, open.next),
                Ok(_) => {
                    let list = argument_list(tokens, open.next);
                    match list.result {
                        Err(e) => pass_on(e, list.next),
                        Ok(arguments) => {
                            let close = expect(tokens, list.next, Delimiter::RParen);
                            match close.result {
                                Err(e) => pass_on(e, close.next),
                                Ok(_) => accept(
                                    NodeView::FunctionCall { name: function, arguments },
                                    close.next,
                                ),
                            }
                        },
                    }
                },
            }
        },
    }
}

/// The arguments of a call, from `pos` on: nothing where `)` stands, or
/// else expressions separated by commas.
pub open spec fn argument_list(tokens: Seq<TokenView>, pos: int) -> Parse<Seq<NodeView>>
    decreases tokens.len() - pos, 4nat,
{
    if token_at(tokens, pos) == Some(TokenView::RParen) {
        accept(Seq::empty(), pos)
    } else {
        arguments(tokens, pos)
    }
}

/// One or more expressions separated by commas, from `pos` on.
///
/// That the first expression ends at or after `pos` is asked for only to
/// make the definition well founded: by [`lemma_expression_advances`] it
/// always does.
pub open spec fn arguments(tokens: Seq<TokenView>, pos: int) -> Parse<Seq<NodeView>>
    decreases tokens.len() - pos, 3nat,
{
    let first = expression(tokens, pos);
    match first.result {
        Err(e) => pass_on(e, first.next),
        Ok(argument) => if token_at(tokens, first.next) == Some(TokenView::Comma) {
            if first.next < pos {
                reject(ParseErrorKind::UnexpectedToken, pos)
            } else {
                let rest = arguments(tokens, first.next + 1);
                match rest.result {
                    Err(e) => pass_on(e, rest.next),
                    Ok(others) => accept(seq![argument] + others, rest.next),
                }
            }
        } else {
            accept(seq![argument], first.next)
        },
    }
}

/// An expression at `pos`: a term, and then operators and terms for as
/// long as an operator follows, grouped from the left.
///
/// That the term ends after `pos` and inside the tokens is asked for only
/// to make the definition well founded: by [`lemma_term_advances`] it
/// always does.
pub open spec fn expression(tokens: Seq<TokenView>, pos: int) -> Parse<NodeView>
    decreases tokens.len() - pos, 2nat,
{
    let first = term(tokens, pos);
    match first.result {
        Err(e) => pass_on(e, first.next),
        Ok(left) => if pos < first.next <= tokens.len() {
            operations(tokens, first.next, left)
        } else {
            reject(ParseErrorKind::UnexpectedToken, pos)
        },
    }
}

/// The rest of an expression whose part before `pos` is `left`.
///
/// That the term after the operator ends after `pos` and inside the tokens
/// is asked for only to make the definition well founded: by
/// [`lemma_term_advances`] it always does.
pub open spec fn operations(tokens: Seq<TokenView>, pos: int, left: NodeView) -> Parse<NodeView>
    decreases tokens.len() - pos, 2nat,
{
    match token_at(tokens, pos) {
        Some(token) => if is_binary_operator(token) {
            let second = term(tokens, pos + 1);
            match second.result {
                Err(e) => pass_on(e, second.next),
                Ok(right) => if pos < second.next <= tokens.len() {
                    operations(
                        tokens,
                        second.next,
                        NodeView::BinaryOp {
                            op: token.name(),
                            left: Box::new(left),
                            right: Box::new(right),
                        },
                    )
                } else {
                    reject(ParseErrorKind::UnexpectedToken, pos)
                },
            }
        } else {
            accept(left, pos)
        },
        None => accept(left, pos),
    }
}

/// Parsing a term consumes at least one token and stays inside the token
/// sequence.
pub proof fn lemma_term_advances(tokens: Seq<TokenView>, pos: int)
    requires
        0 <= pos <= tokens.len(),
    ensures
        term(tokens, pos).result is Ok ==> pos < term(tokens, pos).next,
        pos <= term(tokens, pos).next <= tokens.len(),
    decreases tokens.len() - pos, 1nat,
{
    if pos < tokens.len() && tokens[pos] is Call {
        lemma_call_advances(tokens, pos + 1);
    }
}

/// What follows `call` is parsed inside the token sequence.
pub proof fn lemma_call_advances(tokens: Seq<TokenView>, pos: int)
    requires
        0 <= pos <= tokens.len(),
    ensures
        pos <= call(tokens, pos).next <= tokens.len(),
    decreases tokens.len() - pos, 0nat,
{
    if pos + 2 <= tokens.len() {
        lemma_argument_list_advances(tokens, pos + 2);
    }
}

/// An argument list is parsed inside the token sequence.
pub proof fn lemma_argument_list_advances(tokens: Seq<TokenView>, pos: int)
    requires
        0 <= pos <= tokens.len(),
    ensures
        pos <= argument_list(tokens, pos).next <= tokens.len(),
        pos <= arguments(tokens, pos).next <= tokens.len(),
    decreases tokens.len() - pos, 3nat,
{
    lemma_expression_advances(tokens, pos);
    let first = expression(tokens, pos);
    if first.result is Ok && token_at(tokens, first.next) == Some(TokenView::Comma) {
        lemma_argument_list_advances(tokens, first.next + 1);
    }
}

/// Parsing an expression consumes at least one token and stays inside the
/// token sequence.
pub proof fn lemma_expression_advances(tokens: Seq<TokenView>, pos: int)
    requires
        0 <= pos <= tokens.len(),
    ensures
        expression(tokens, pos).result is Ok ==> pos < expression(tokens, pos).next,
        pos <= expression(tokens, pos).next <= tokens.len(),
    decreases tokens.len() - pos, 2nat,
{
    lemma_term_advances(tokens, pos);
    let first = term(tokens, pos);
    match first.result {
        Ok(left) => {
            lemma_operations_advance(tokens, first.next, left);
        },
        Err(_) => {},
    }
}

/// The rest of an expression is parsed inside the token sequence.
pub proof fn lemma_operations_advance(tokens: Seq<TokenView>, pos: int, left: NodeView)
    requires
        0 <= pos <= tokens.len(),
    ensures
        pos <= operations(tokens, pos, left).next <= tokens.len(),
    decreases tokens.len() - pos, 2nat,
{
    if pos < tokens.len() && is_binary_operator(tokens[pos]) {
        lemma_term_advances(tokens, pos + 1);
        let second = term(tokens, pos + 1);
        match second.result {
            Ok(right) => {
                lemma_operations_advance(
                    tokens,
                    second.next,
                    NodeView::BinaryOp {
                        op: tokens[pos].name(),
                        left: Box::new(left),
                        right: Box::new(right),
                    },
                );
            },
            Err(_) => {},
        }
    }
}

/// An expression at `pos` and the semicolon that ends its statement.
#[verifier::opaque]
pub open spec fn terminated_expression(tokens: Seq<TokenView>, pos: int) -> Parse<NodeView> {
    let value = expression(tokens, pos);
    match value.result {
        Err(e) => pass_on(e, value.next),
        Ok(node) => {
            let end = expect(tokens, value.next, Delimiter::Semicolon);
            match end.result {
                Err(e) => pass_on(e, end.next),
                Ok(_) => accept(node, end.next),
            }
        },
    }
}

/// A condition in round brackets at `pos` and the `{` that opens the block
/// after it.
#[verifier::opaque]
pub open spec fn condition(tokens: Seq<TokenView>, pos: int) -> Parse<NodeView> {
    let open = expect(tokens, pos, Delimiter::LParen);
    match open.result {
        Err(e) => pass_on(e, open.next),
        Ok(_) => {
            let test = expression(tokens, open.next);
            match test.result {
                Err(e) => pass_on(e, test.next),
                Ok(node) => {
                    let close = expect(tokens, test.next, Delimiter::RParen);
                    match close.result {
                        Err(e) => pass_on(e, close.next),
                        Ok(_) => {
                            let brace = expect(tokens, close.next, Delimiter::LBrace);
                            match brace.result {
                                Err(e) => pass_on(e, brace.next),
                                Ok(_) => accept(node, brace.next),
                            }
                        },
                    }
                },
            }
        },
    }
}

/// What follows the keyword `variable`, from `pos` on: a type, a name, `=`,
/// an expression and `;`.
#[verifier::opaque]
pub open spec fn variable_declaration(tokens: Seq<TokenView>, pos: int) -> Parse<NodeView> {
    let kind = expect_type(tokens, pos);
    match kind.result {
        Err(e) => pass_on(e, kind.next),
        Ok(var_type) => {
            let id = expect_identifier(tokens, kind.next);
            match id.result {
                Err(e) => pass_on(e, id.next),
                Ok(name) => {
                    let sign = expect(tokens, id.next, Delimiter::Assign);
                    match sign.result {
                        Err(e) => pass_on(e, sign.next),
                        Ok(_) => {
                            let value = terminated_expression(tokens, sign.next);
                            match value.result {
                                Err(e) => pass_on(e, value.next),
                                Ok(node) => accept(
                                    NodeView::VariableDeclaration {
                                        name,
                                        value: Box::new(node),
                                        var_type,
                                    },
                                    value.next,
                                ),
                            }
                        },
                    }
                },
            }
        },
    }
}

/// What follows the name at the beginning of an assignment, from `pos` on:
/// `=`, an expression and `;`.
#[verifier::opaque]
pub open spec fn assignment(tokens: Seq<TokenView>, pos: int, identifier: Seq<char>) -> Parse<
    NodeView,
> {
    let sign = expect(tokens, pos, Delimiter::Assign);
    match sign.result {
        Err(e) => pass_on(e, sign.next),
        Ok(_) => {
            let value = terminated_expression(tokens, sign.next);
            match value.result {
                Err(e) => pass_on(e, value.next),
                Ok(node) => accept(
                    NodeView::Assignment { identifier, value: Box::new(node) },
                    value.next,
                ),
            }
        },
    }
}

/// What follows the keyword `return`, from `pos` on.
#[verifier::opaque]
pub open spec fn return_statement(tokens: Seq<TokenView>, pos: int) -> Parse<NodeView> {
    let value = terminated_expression(tokens, pos);
    match value.result {
        Err(e) => pass_on(e, value.next),
        Ok(node) => accept(NodeView::ReturnStatement(Box::new(node)), value.next),
    }
}

/// What follows the keyword `print`, from `pos` on.
#[verifier::opaque]
pub open spec fn print_statement(tokens: Seq<TokenView>, pos: int) -> Parse<NodeView> {
    let value = terminated_expression(tokens, pos);
    match value.result {
        Err(e) => pass_on(e, value.next),
        Ok(node) => accept(NodeView::PrintStatement { context: Box::new(node) }, value.next),
    }
}

/// What follows the keyword `call` at the beginning of a statement, from
/// `pos` on: the call and `;`.
#[verifier::opaque]
pub open spec fn call_statement(tokens: Seq<TokenView>, pos: int) -> Parse<NodeView> {
    let called = call(tokens, pos);
    match called.result {
        Err(e) => pass_on(e, called.next),
        Ok(node) => {
            let end = expect(tokens, called.next, Delimiter::Semicolon);
            match end.result {
                Err(e) => pass_on(e, end.next),
                Ok(_) => accept(node, end.next),
            }
        },
    }
}

/// The parameters of a function, from `pos` on: any number of
/// `variable <type> <name>`, each but the last followed by a comma; a comma
/// after the last one is let pass. Each parameter is given as the pair of
/// its type and its name.
pub open spec fn parameters(tokens: Seq<TokenView>, pos: int) -> Parse<Seq<(Seq<char>, Seq<char>)>>
    decreases tokens.len() - pos,
{
    if token_at(tokens, pos) == Some(TokenView::Variable) {
        let kind = expect_type(tokens, pos + 1);
        match kind.result {
            Err(e) => pass_on(e, kind.next),
            Ok(parameter_type) => {
                let id = expect_identifier(tokens, kind.next);
                match id.result {
                    Err(e) => pass_on(e, id.next),
                    Ok(name) => if token_at(tokens, id.next) == Some(TokenView::Comma) {
                        let rest = parameters(tokens, id.next + 1);
                        match rest.result {
                            Err(e) => pass_on(e, rest.next),
                            Ok(others) => accept(seq![(parameter_type, name)] + others, rest.next),
                        }
                    } else {
                        accept(seq![(parameter_type, name)], id.next)
                    },
                }
            },
        }
    } else {
        accept(Seq::empty(), pos)
    }
}

/// A parameter list is parsed inside the token sequence.
pub proof fn lemma_parameters_advance(tokens: Seq<TokenView>, pos: int)
    requires
        0 <= pos <= tokens.len(),
    ensures
        pos <= parameters(tokens, pos).next <= tokens.len(),
    decreases tokens.len() - pos,
{
    if pos + 3 < tokens.len() {
        lemma_parameters_advance(tokens, pos + 4);
    }
}

/// A statement at `pos`, chosen by its first token: `variable`, `function`,
/// `return`, `loop`, a name, `if`, `print` or `call`. Any other token
/// begins no statement.
pub open spec fn statement(tokens: Seq<TokenView>, pos: int) -> Parse<NodeView>
    decreases tokens.len() - pos, 0nat,
{
    match token_at(tokens, pos) {
        Some(TokenView::Variable) => variable_declaration(tokens, pos + 1),
        Some(TokenView::Function) => function_declaration(tokens, pos + 1),
        Some(TokenView::Return) => return_statement(tokens, pos + 1),
        Some(TokenView::Loop) => loop_statement(tokens, pos + 1),
        Some(TokenView::Identifier(name)) => assignment(tokens, pos + 1, name),
        Some(TokenView::If) => conditional(tokens, pos + 1),
        Some(TokenView::Print) => print_statement(tokens, pos + 1),
        Some(TokenView::Call) => call_statement(tokens, pos + 1),
        _ => reject(ParseErrorKind::UnexpectedToken, pos),
    }
}

/// What follows the keyword `function`, from `pos` on: the return type,
/// the name, the parameters in round brackets and the body in braces.
pub open spec fn function_declaration(tokens: Seq<TokenView>, pos: int) -> Parse<NodeView>
    decreases tokens.len() - pos, 0nat,
{
    let kind = expect_type(tokens, pos);
    match kind.result {
        Err(e) => pass_on(e, kind.next),
        Ok(return_type) => {
            let id = expect_identifier(tokens, kind.next);
            match id.result {
                Err(e) => pass_on(e, id.next),
                Ok(name) => {
                    let open = expect(tokens, id.next, Delimiter::LParen);
                    match open.result {
                        Err(e) => pass_on(e, open.next),
                        Ok(_) => {
                            let list = parameters(tokens, open.next);
                            match list.result {
                                Err(e) => pass_on(e, list.next),
                                Ok(parameters) => {
                                    let close = expect(tokens, list.next, Delimiter::RParen);
                                    match close.result {
                                        Err(e) => pass_on(e, close.next),
                                        Ok(_) => {
                                            let brace = expect(
                                                tokens,
                                                close.next,
                                                Delimiter::LBrace,
                                            );
                                            match brace.result {
                                                Err(e) => pass_on(e, brace.next),
                                                Ok(_) => {
                                                    proof {
                                                        lemma_parameters_advance(tokens, open.next);
                                                    }
                                                    let body = block(tokens, brace.next);
                                                    match body.result {
                                                        Err(e) => pass_on(e, body.next),
                                                        Ok(statements) => accept(
                                                            NodeView::FunctionDeclaration {
                                                                name,
                                                                return_type,
                                                                parameters,
                                                                body: statements,
                                                            },
                                                            body.next,
                                                        ),
                                                    }
                                                },
                                            }
                                        },
                                    }
                                },
                            }
                        },
                    }
                },
            }
        },
    }
}

/// What follows the keyword `loop`, from `pos` on: the condition in round
/// brackets and the body in braces.
pub open spec fn loop_statement(tokens: Seq<TokenView>, pos: int) -> Parse<NodeView>
    decreases tokens.len() - pos, 0nat,
{
    let test = condition(tokens, pos);
    match test.result {
        Err(e) => pass_on(e, test.next),
        Ok(node) => {
            proof {
                lemma_condition_advances(tokens, pos);
            }
            let body = block(tokens, test.next);
            match body.result {
                Err(e) => pass_on(e, body.next),
                Ok(statements) => accept(
                    NodeView::Loop { condition: Box::new(node), body: statements },
                    body.next,
                ),
            }
        },
    }
}

/// What follows the keyword `if`, from `pos` on: the condition in round
/// brackets, a block, and then `else` with a block of its own, or nothing.
///
/// That the first block ends at or after `pos` is asked for only to make
/// the definition well founded: by [`lemma_block_advances`] it always
/// does.
pub open spec fn conditional(tokens: Seq<TokenView>, pos: int) -> Parse<NodeView>
    decreases tokens.len() - pos, 0nat,
{
    let test = condition(tokens, pos);
    match test.result {
        Err(e) => pass_on(e, test.next),
        Ok(node) => {
            proof {
                lemma_condition_advances(tokens, pos);
            }
            let first = block(tokens, test.next);
            match first.result {
                Err(e) => pass_on(e, first.next),
                Ok(if_block) => if token_at(tokens, first.next) == Some(TokenView::Else) {
                    let brace = expect(tokens, first.next + 1, Delimiter::LBrace);
                    match brace.result {
                        Err(e) => pass_on(e, brace.next),
                        Ok(_) => if first.next < pos {
                            reject(ParseErrorKind::UnexpectedToken, pos)
                        } else {
                            let second = block(tokens, brace.next);
                            match second.result {
                                Err(e) => pass_on(e, second.next),
                                Ok(else_block) => accept(
                                    NodeView::IfElse {
                                        condition: Box::new(node),
                                        if_block,
                                        else_block: Some(else_block),
                                    },
                                    second.next,
                                ),
                            }
                        },
                    }
                } else {
                    accept(
                        NodeView::IfElse { condition: Box::new(node), if_block, else_block: None },
                        first.next,
                    )
                },
            }
        },
    }
}

/// The statements from `pos` up to the end of the tokens or to a `}`,
/// which is not consumed.
///
/// That each statement ends after its beginning and inside the tokens is
/// asked for only to make the definition well founded: by
/// [`lemma_statement_advances`] it always does.
pub open spec fn statements(tokens: Seq<TokenView>, pos: int) -> Parse<Seq<NodeView>>
    decreases tokens.len() - pos, 1nat,
{
    match token_at(tokens, pos) {
        None => accept(Seq::empty(), pos),
        Some(TokenView::RBrace) => accept(Seq::empty(), pos),
        Some(_) => {
            let first = statement(tokens, pos);
            match first.result {
                Err(e) => pass_on(e, first.next),
                Ok(node) => if pos < first.next <= tokens.len() {
                    let rest = statements(tokens, first.next);
                    match rest.result {
                        Err(e) => pass_on(e, rest.next),
                        Ok(others) => accept(seq![node] + others, rest.next),
                    }
                } else {
                    reject(ParseErrorKind::UnexpectedToken, pos)
                },
            }
        },
    }
}

/// What follows the `{` that opens a block, from `pos` on: statements and
/// the `}` that closes the block.
pub open spec fn block(tokens: Seq<TokenView>, pos: int) -> Parse<Seq<NodeView>>
    decreases tokens.len() - pos, 2nat,
{
    let inside = statements(tokens, pos);
    match inside.result {
        Err(e) => pass_on(e, inside.next),
        Ok(nodes) => if token_at(tokens, inside.next) == Some(TokenView::RBrace) {
            accept(nodes, inside.next + 1)
        } else {
            reject(ParseErrorKind::ExpectedRBrace, inside.next)
        },
    }
}

/// A condition is parsed inside the token sequence, and one that is
/// accepted has consumed at least its brackets.
pub proof fn lemma_condition_advances(tokens: Seq<TokenView>, pos: int)
    ensures
        0 <= pos <= tokens.len() ==> pos <= condition(tokens, pos).next <= tokens.len(),
        condition(tokens, pos).result is Ok ==> 0 <= pos < condition(tokens, pos).next
            <= tokens.len(),
{
    reveal(condition);
    if 0 <= pos < tokens.len() {
        lemma_expression_advances(tokens, pos + 1);
    }
}

/// An expression with its semicolon is parsed inside the token sequence.
pub proof fn lemma_terminated_expression_advances(tokens: Seq<TokenView>, pos: int)
    requires
        0 <= pos <= tokens.len(),
    ensures
        pos <= terminated_expression(tokens, pos).next <= tokens.len(),
{
    reveal(terminated_expression);
    lemma_expression_advances(tokens, pos);
}

/// Parsing a statement consumes at least one token and stays inside the
/// token sequence.
pub proof fn lemma_statement_advances(tokens: Seq<TokenView>, pos: int)
    requires
        0 <= pos <= tokens.len(),
    ensures
        statement(tokens, pos).result is Ok ==> pos < statement(tokens, pos).next,
        pos <= statement(tokens, pos).next <= tokens.len(),
    decreases tokens.len() - pos, 0nat,
{
    reveal(variable_declaration);
    reveal(assignment);
    reveal(return_statement);
    reveal(print_statement);
    reveal(call_statement);
    if pos < tokens.len() {
        let after = pos + 1;
        match tokens[pos] {
            TokenView::Variable => {
                if after + 3 <= tokens.len() {
                    lemma_terminated_expression_advances(tokens, after + 3);
                }
            },
            TokenView::Function => {
                if after + 3 <= tokens.len() {
                    lemma_parameters_advance(tokens, after + 3);
                    let list = parameters(tokens, after + 3);
                    if list.next + 2 <= tokens.len() {
                        lemma_block_advances(tokens, list.next + 2);
                    }
                }
            },
            TokenView::Return => {
                lemma_terminated_expression_advances(tokens, after);
            },
            TokenView::Loop => {
                lemma_condition_advances(tokens, after);
                if condition(tokens, after).result is Ok {
                    lemma_block_advances(tokens, condition(tokens, after).next);
                }
            },
            TokenView::Identifier(_) => {
                if after + 1 <= tokens.len() {
                    lemma_terminated_expression_advances(tokens, after + 1);
                }
            },
            TokenView::If => {
                lemma_condition_advances(tokens, after);
                if condition(tokens, after).result is Ok {
                    let first = block(tokens, condition(tokens, after).next);
                    lemma_block_advances(tokens, condition(tokens, after).next);
                    if first.result is Ok && first.next + 2 <= tokens.len() {
                        lemma_block_advances(tokens, first.next + 2);
                    }
                }
            },
            TokenView::Print => {
                lemma_terminated_expression_advances(tokens, after);
            },
            TokenView::Call => {
                lemma_call_advances(tokens, after);
            },
            _ => {},
        }
    }
}

/// A run of statements is parsed inside the token sequence.
pub proof fn lemma_statements_advance(tokens: Seq<TokenView>, pos: int)
    requires
        0 <= pos <= tokens.len(),
    ensures
        pos <= statements(tokens, pos).next <= tokens.len(),
    decreases tokens.len() - pos, 1nat,
{
    if pos < tokens.len() && !(tokens[pos] is RBrace) {
        lemma_statement_advances(tokens, pos);
        let first = statement(tokens, pos);
        if first.result is Ok {
            lemma_statements_advance(tokens, first.next);
        }
    }
}

/// A block is parsed inside the token sequence.
pub proof fn lemma_block_advances(tokens: Seq<TokenView>, pos: int)
    requires
        0 <= pos <= tokens.len(),
    ensures
        pos <= block(tokens, pos).next <= tokens.len(),
    decreases tokens.len() - pos, 2nat,
{
    lemma_statements_advance(tokens, pos);
}

/// The statements of a whole program.
pub open spec fn program(tokens: Seq<TokenView>) -> Result<Seq<NodeView>, ParseError> {
    statements(tokens, 0).result
}

} // verus!
