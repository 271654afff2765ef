//! Recursive-descent parsing: from tokens to statements.
use vstd::prelude::*;
use crate::astnode::{box_nodes, nodes_view, parameters_view, ASTNode, NodeView};
use crate::error::{ParseError, ParseErrorKind};
use crate::grammar::{
    argument_list, arguments, assignment, block, call, call_statement, condition, conditional,
    expect, expect_identifier, expect_type, expression, function_declaration, is_binary_operator,
    lemma_block_advances, lemma_condition_advances, lemma_expression_advances,
    lemma_parameters_advance, lemma_statement_advances, lemma_term_advances, loop_statement, operations, parameters, print_statement,
    return_statement, statement, statements, term, terminated_expression, token_at,
    variable_declaration, Delimiter, Parse,
};
use crate::text::push_text;
use crate::token::{tokens_view, Token, TokenView};

verus! {

/// A cursor over a token sequence.
pub struct Parser<'a> {
    tokens: &'a [Token],
    position: usize,
}

/// The mathematical content of a [`Parser`]: the tokens and the cursor.
pub ghost struct ParserView {
    pub tokens: Seq<TokenView>,
    pub position: int,
}

impl<'a> View for Parser<'a> {
    type V = ParserView;

    closed spec fn view(&self) -> ParserView {
        ParserView { tokens: tokens_view(self.tokens@), position: self.position as int }
    }
}

/// The contents of a parsed node.
pub open spec fn node_result(r: Result<ASTNode, ParseError>) -> Result<NodeView, ParseError> {
    match r {
        Ok(node) => Ok(node@),
        Err(e) => Err(e),
    }
}

/// The contents of a parsed sequence of nodes.
pub open spec fn nodes_result(r: Result<Vec<ASTNode>, ParseError>) -> Result<
    Seq<NodeView>,
    ParseError,
> {
    match r {
        Ok(nodes) => Ok(nodes_view(nodes@)),
        Err(e) => Err(e),
    }
}

/// The contents of a parsed name.
pub open spec fn name_result(r: Result<String, ParseError>) -> Result<Seq<char>, ParseError> {
    match r {
        Ok(name) => Ok(name@),
        Err(e) => Err(e),
    }
}

/// The contents of a parsed parameter list.
pub open spec fn parameters_result(r: Result<Vec<(String, String)>, ParseError>) -> Result<
    Seq<(Seq<char>, Seq<char>)>,
    ParseError,
> {
    match r {
        Ok(list) => Ok(parameters_view(list@)),
        Err(e) => Err(e),
    }
}

/// A parse of a sequence, with `prefix` put before what was parsed.
pub open spec fn after<T>(prefix: Seq<T>, rest: Parse<Seq<T>>) -> Parse<Seq<T>> {
    match rest.result {
        Ok(items) => Parse { result: Ok(prefix + items), next: rest.next },
        Err(e) => Parse { result: Err(e), next: rest.next },
    }
}

/// Whether `token` is a binary operator.
pub fn is_operator(token: &Token) -> (r: bool)
    ensures
        r == is_binary_operator(token@),
{
    match token {
        Token::Plus
        | Token::Minus
        | Token::Multiply
        | Token::Divide
        | Token::Modulo
        | Token::Star
        | Token::Slash
        | Token::Percent
        | Token::Equals
        | Token::NotEquals
        | Token::LessThan
        | Token::LessThanOrEqual
        | Token::GreaterThan
        | Token::GreaterThanOrEqual
        | Token::And
        | Token::Or => true,
        _ => false,
    }
}

impl<'a> Parser<'a> {
    #[verifier::type_invariant]
    spec fn cursor_in_tokens(self) -> bool {
        self.position <= self.tokens.len()
    }

    /// A parser at the beginning of `tokens`.
    pub fn new(tokens: &'a [Token]) -> (r: Self)
        ensures
            r@.tokens == tokens_view(tokens@),
            r@.position == 0,
    {
        Parser { tokens, position: 0 }
    }

    /// The index of the token under the cursor; the number of tokens when
    /// none is left.
    pub fn position(&self) -> (p: usize)
        ensures
            p == self@.position,
            p <= self@.tokens.len(),
    {
        proof {
            use_type_invariant(self);
        }
        self.position
    }

    /// The token under the cursor, if one is left.
    pub fn current(&self) -> (r: Option<&'a Token>)
        ensures
            match r {
                Some(token) => token_at(self@.tokens, self@.position) == Some(token@),
                None => token_at(self@.tokens, self@.position) is None,
            },
    {
        if self.position < self.tokens.len() {
            Some(&self.tokens[self.position])
        } else {
            None
        }
    }

    /// Moves the cursor past the token under it; at the end of the tokens
    /// the cursor stays.
    pub fn advance(&mut self)
        ensures
            final(self)@.tokens == old(self)@.tokens,
            final(self)@.position == (if old(self)@.position < old(self)@.tokens.len() {
                old(self)@.position + 1
            } else {
                old(self)@.position
            }),
    {
        if self.position < self.tokens.len() {
            self.position = self.position + 1;
        }
    }

    /// The failure `kind` at the token under the cursor.
    fn failure(&self, kind: ParseErrorKind) -> (e: ParseError)
        ensures
            e == (ParseError { kind, position: self@.position as usize }),
    {
        ParseError { kind, position: self.position }
    }

    /// Consumes `delimiter`, which must stand under the cursor.
    fn expect(&mut self, delimiter: Delimiter) -> (r: Result<(), ParseError>)
        ensures
            final(self)@.tokens == old(self)@.tokens,
            expect(old(self)@.tokens, old(self)@.position, delimiter) == (Parse {
                result: r,
                next: final(self)@.position,
            }),
    {
        let found: bool = match (delimiter, self.current()) {
            (Delimiter::Assign, Some(Token::Assign)) => true,
            (Delimiter::Semicolon, Some(Token::Semicolon)) => true,
            (Delimiter::LParen, Some(Token::LParen)) => true,
            (Delimiter::RParen, Some(Token::RParen)) => true,
            (Delimiter::LBrace, Some(Token::LBrace)) => true,
            _ => false,
        };
        if found {
            self.advance();
            Ok(())
        } else {
            Err(
                self.failure(
                    match delimiter {
                        Delimiter::Assign => ParseErrorKind::ExpectedAssign,
                        Delimiter::Semicolon => ParseErrorKind::ExpectedSemicolon,
                        Delimiter::LParen => ParseErrorKind::ExpectedLParen,
                        Delimiter::RParen => ParseErrorKind::ExpectedRParen,
                        Delimiter::LBrace => ParseErrorKind::ExpectedLBrace,
                    },
                ),
            )
        }
    }

    /// Consumes a type, which must stand under the cursor, and gives its
    /// name.
    fn expect_type(&mut self) -> (r: Result<String, ParseError>)
        ensures
            final(self)@.tokens == old(self)@.tokens,
            expect_type(old(self)@.tokens, old(self)@.position) == (Parse {
                result: name_result(r),
                next: final(self)@.position,
            }),
    {
        let mut name: String = String::new();
        match self.current() {
            Some(Token::Integer) => {
                push_text(&mut name, "integer");
            },
            Some(Token::Boolean) => {
                push_text(&mut name, "boolean");
            },
            _ => {
                return Err(self.failure(ParseErrorKind::ExpectedType));
            },
        }
        self.advance();
        Ok(name)
    }

    /// Consumes an identifier, which must stand under the cursor, and gives
    /// its name.
    fn expect_identifier(&mut self) -> (r: Result<String, ParseError>)
        ensures
            final(self)@.tokens == old(self)@.tokens,
            expect_identifier(old(self)@.tokens, old(self)@.position) == (Parse {
                result: name_result(r),
                next: final(self)@.position,
            }),
    {
        match self.current() {
            Some(Token::Identifier(name)) => {
                self.advance();
                Ok(name.clone())
            },
            _ => Err(self.failure(ParseErrorKind::ExpectedIdentifier)),
        }
    }

    /// Parses a term, as [`term`] describes.
    pub fn parse_term(&mut self) -> (r: Result<ASTNode, ParseError>)
        ensures
            final(self)@.tokens == old(self)@.tokens,
            term(old(self)@.tokens, old(self)@.position) == (Parse {
                result: node_result(r),
                next: final(self)@.position,
            }),
        decreases old(self)@.tokens.len() - old(self)@.position, 1nat,
    {
        proof {
            use_type_invariant(&*self);
        }
        match self.current() {
            Some(Token::IntegerLiteral(value)) => {
                self.advance();
                Ok(ASTNode::IntegerLiteral(*value))
            },
            Some(Token::BooleanLiteral(value)) => {
                self.advance();
                Ok(ASTNode::BooleanLiteral(*value))
            },
            Some(Token::Identifier(name)) => {
                self.advance();
                Ok(ASTNode::Identifier(name.clone()))
            },
            Some(Token::Call) => {
                self.advance();
                self.parse_call()
            },
            _ => Err(self.failure(ParseErrorKind::UnexpectedToken)),
        }
    }

    /// Parses what follows the keyword `call`, as [`call`] describes.
    fn parse_call(&mut self) -> (r: Result<ASTNode, ParseError>)
        ensures
            final(self)@.tokens == old(self)@.tokens,
            call(old(self)@.tokens, old(self)@.position) == (Parse {
                result: node_result(r),
                next: final(self)@.position,
            }),
        decreases old(self)@.tokens.len() - old(self)@.position, 0nat,
    {
        proof {
            use_type_invariant(&*self);
        }
        let name: String = match self.expect_identifier() {
            Ok(name) => name,
            Err(e) => {
                return Err(e);
            },
        };
        match self.expect(Delimiter::LParen) {
            Ok(_) => {},
            Err(e) => {
                return Err(e);
            },
        }
        let list: Vec<ASTNode> = match self.parse_argument_list() {
            Ok(list) => list,
            Err(e) => {
                return Err(e);
            },
        };
        match self.expect(Delimiter::RParen) {
            Ok(_) => {},
            Err(e) => {
                return Err(e);
            },
        }
        Ok(ASTNode::FunctionCall { name, arguments: box_nodes(list) })
    }

    /// Parses the arguments of a call, as [`argument_list`] describes. The
    /// closing bracket is left under the cursor.
    pub fn parse_argument_list(&mut self) -> (r: Result<Vec<ASTNode>, ParseError>)
        ensures
            final(self)@.tokens == old(self)@.tokens,
            argument_list(old(self)@.tokens, old(self)@.position) == (Parse {
                result: nodes_result(r),
                next: final(self)@.position,
            }),
        decreases old(self)@.tokens.len() - old(self)@.position, 4nat,
    {
        proof {
            use_type_invariant(&*self);
        }
        let mut list: Vec<ASTNode> = Vec::new();
        assert(nodes_view(list@) == Seq::<NodeView>::empty());
        match self.current() {
            Some(Token::RParen) => {
                return Ok(list);
            },
            _ => {},
        }
        let ghost tokens = self@.tokens;
        let ghost start = self@.position;
        assert(after(nodes_view(list@), arguments(tokens, start)) == arguments(tokens, start))
            by {
            let whole = arguments(tokens, start);
            if let Ok(items) = whole.result {
                assert(Seq::<NodeView>::empty() + items == items);
            }
        }
        loop
            invariant
                tokens == old(self)@.tokens,
                start == old(self)@.position,
                self@.tokens == tokens,
                start <= self@.position <= tokens.len(),
                argument_list(tokens, start) == arguments(tokens, start),
                arguments(tokens, start) == after(
                    nodes_view(list@),
                    arguments(tokens, self@.position),
                ),
            decreases tokens.len() - self@.position,
        {
            let ghost here = self@.position;
            let ghost before = nodes_view(list@);
            proof {
                lemma_expression_advances(tokens, here);
            }
            let argument: ASTNode = match self.parse_expression() {
                Ok(argument) => argument,
                Err(e) => {
                    return Err(e);
                },
            };
            list.push(argument);
            assert(nodes_view(list@) == before + seq![argument@]);
            match self.current() {
                Some(Token::Comma) => {
                    proof {
                        let rest = arguments(tokens, self@.position + 1);
                        if let Ok(others) = rest.result {
                            assert(before + (seq![argument@] + others) == (before + seq![
                                argument@,
                            ]) + others);
                        }
                    }
                    self.advance();
                },
                _ => {
                    return Ok(list);
                },
            }
        }
    }

    /// Parses an expression, as [`expression`] describes: operators are
    /// grouped from the left, whatever they are.
    pub fn parse_expression(&mut self) -> (r: Result<ASTNode, ParseError>)
        ensures
            final(self)@.tokens == old(self)@.tokens,
            expression(old(self)@.tokens, old(self)@.position) == (Parse {
                result: node_result(r),
                next: final(self)@.position,
            }),
        decreases old(self)@.tokens.len() - old(self)@.position, 2nat,
    {
        proof {
            use_type_invariant(&*self);
            lemma_term_advances(self@.tokens, self@.position);
        }
        let ghost tokens = self@.tokens;
        let ghost start = self@.position;
        let mut left: ASTNode = match self.parse_term() {
            Ok(node) => node,
            Err(e) => {
                return Err(e);
            },
        };
        loop
            invariant
                tokens == old(self)@.tokens,
                start == old(self)@.position,
                self@.tokens == tokens,
                start < self@.position <= tokens.len(),
                expression(tokens, start) == operations(tokens, self@.position, left@),
            decreases tokens.len() - self@.position,
        {
            let op: String = match self.current() {
                Some(token) => {
                    if is_operator(token) {
                        token.to_string()
                    } else {
                        return Ok(left);
                    }
                },
                None => {
                    return Ok(left);
                },
            };
            proof {
                lemma_term_advances(tokens, self@.position + 1);
            }
            self.advance();
            let right: ASTNode = match self.parse_term() {
                Ok(node) => node,
                Err(e) => {
                    return Err(e);
                },
            };
            left = ASTNode::BinaryOp { op, left: Box::new(left), right: Box::new(right) };
        }
    }

    /// Parses an expression and the semicolon after it.
    fn parse_terminated_expression(&mut self) -> (r: Result<ASTNode, ParseError>)
        ensures
            final(self)@.tokens == old(self)@.tokens,
            terminated_expression(old(self)@.tokens, old(self)@.position) == (Parse {
                result: node_result(r),
                next: final(self)@.position,
            }),
    {
        proof {
            reveal(terminated_expression);
        }
        let value: ASTNode = match self.parse_expression() {
            Ok(node) => node,
            Err(e) => {
                return Err(e);
            },
        };
        match self.expect(Delimiter::Semicolon) {
            Ok(_) => Ok(value),
            Err(e) => Err(e),
        }
    }

    /// Parses a condition in round brackets and the `{` after it.
    fn parse_condition(&mut self) -> (r: Result<ASTNode, ParseError>)
        ensures
            final(self)@.tokens == old(self)@.tokens,
            condition(old(self)@.tokens, old(self)@.position) == (Parse {
                result: node_result(r),
                next: final(self)@.position,
            }),
    {
        proof {
            reveal(condition);
        }
        match self.expect(Delimiter::LParen) {
            Ok(_) => {},
            Err(e) => {
                return Err(e);
            },
        }
        let test: ASTNode = match self.parse_expression() {
            Ok(node) => node,
            Err(e) => {
                return Err(e);
            },
        };
        match self.expect(Delimiter::RParen) {
            Ok(_) => {},
            Err(e) => {
                return Err(e);
            },
        }
        match self.expect(Delimiter::LBrace) {
            Ok(_) => Ok(test),
            Err(e) => Err(e),
        }
    }

    /// Parses what follows the keyword `variable`.
    fn parse_variable_declaration(&mut self) -> (r: Result<ASTNode, ParseError>)
        ensures
            final(self)@.tokens == old(self)@.tokens,
            variable_declaration(old(self)@.tokens, old(self)@.position) == (Parse {
                result: node_result(r),
                next: final(self)@.position,
            }),
    {
        proof {
            reveal(variable_declaration);
        }
        let var_type: String = match self.expect_type() {
            Ok(name) => name,
            Err(e) => {
                return Err(e);
            },
        };
        let name: String = match self.expect_identifier() {
            Ok(name) => name,
            Err(e) => {
                return Err(e);
            },
        };
        match self.expect(Delimiter::Assign) {
            Ok(_) => {},
            Err(e) => {
                return Err(e);
            },
        }
        match self.parse_terminated_expression() {
            Ok(value) => Ok(ASTNode::VariableDeclaration { name, value: Box::new(value), var_type }),
            Err(e) => Err(e),
        }
    }

    /// Parses what follows the name at the beginning of an assignment.
    fn parse_assignment(&mut self, identifier: String) -> (r: Result<ASTNode, ParseError>)
        ensures
            final(self)@.tokens == old(self)@.tokens,
            assignment(old(self)@.tokens, old(self)@.position, identifier@) == (Parse {
                result: node_result(r),
                next: final(self)@.position,
            }),
    {
        proof {
            reveal(assignment);
        }
        match self.expect(Delimiter::Assign) {
            Ok(_) => {},
            Err(e) => {
                return Err(e);
            },
        }
        match self.parse_terminated_expression() {
            Ok(value) => Ok(ASTNode::Assignment { identifier, value: Box::new(value) }),
            Err(e) => Err(e),
        }
    }

    /// Parses what follows the keyword `return`.
    fn parse_return(&mut self) -> (r: Result<ASTNode, ParseError>)
        ensures
            final(self)@.tokens == old(self)@.tokens,
            return_statement(old(self)@.tokens, old(self)@.position) == (Parse {
                result: node_result(r),
                next: final(self)@.position,
            }),
    {
        proof {
            reveal(return_statement);
        }
        match self.parse_terminated_expression() {
            Ok(value) => Ok(ASTNode::ReturnStatement(Box::new(value))),
            Err(e) => Err(e),
        }
    }

    /// Parses what follows the keyword `print`.
    fn parse_print(&mut self) -> (r: Result<ASTNode, ParseError>)
        ensures
            final(self)@.tokens == old(self)@.tokens,
            print_statement(old(self)@.tokens, old(self)@.position) == (Parse {
                result: node_result(r),
                next: final(self)@.position,
            }),
    {
        proof {
            reveal(print_statement);
        }
        match self.parse_terminated_expression() {
            Ok(value) => Ok(ASTNode::PrintStatement { context: Box::new(value) }),
            Err(e) => Err(e),
        }
    }

    /// Parses what follows the keyword `call` at the beginning of a
    /// statement.
    fn parse_call_statement(&mut self) -> (r: Result<ASTNode, ParseError>)
        ensures
            final(self)@.tokens == old(self)@.tokens,
            call_statement(old(self)@.tokens, old(self)@.position) == (Parse {
                result: node_result(r),
                next: final(self)@.position,
            }),
    {
        proof {
            reveal(call_statement);
        }
        let called: ASTNode = match self.parse_call() {
            Ok(node) => node,
            Err(e) => {
                return Err(e);
            },
        };
        match self.expect(Delimiter::Semicolon) {
            Ok(_) => Ok(called),
            Err(e) => Err(e),
        }
    }

    /// Parses the parameters of a function, as [`parameters`] describes.
    /// The closing bracket is left under the cursor.
    pub fn parse_parameters(&mut self) -> (r: Result<Vec<(String, String)>, ParseError>)
        ensures
            final(self)@.tokens == old(self)@.tokens,
            parameters(old(self)@.tokens, old(self)@.position) == (Parse {
                result: parameters_result(r),
                next: final(self)@.position,
            }),
    {
        proof {
            use_type_invariant(&*self);
        }
        let ghost tokens = self@.tokens;
        let ghost start = self@.position;
        let mut list: Vec<(String, String)> = Vec::new();
        assert(parameters_view(list@) == Seq::<(Seq<char>, Seq<char>)>::empty());
        assert(after(parameters_view(list@), parameters(tokens, start)) == parameters(
            tokens,
            start,
        )) by {
            let whole = parameters(tokens, start);
            if let Ok(items) = whole.result {
                assert(Seq::<(Seq<char>, Seq<char>)>::empty() + items == items);
            }
        }
        loop
            invariant
                tokens == old(self)@.tokens,
                start == old(self)@.position,
                self@.tokens == tokens,
                start <= self@.position <= tokens.len(),
                parameters(tokens, start) == after(
                    parameters_view(list@),
                    parameters(tokens, self@.position),
                ),
            decreases tokens.len() - self@.position,
        {
            let ghost before = parameters_view(list@);
            match self.current() {
                Some(Token::Variable) => {},
                _ => {
                    assert(before + Seq::<(Seq<char>, Seq<char>)>::empty() == before);
                    return Ok(list);
                },
            }
            self.advance();
            let parameter_type: String = match self.expect_type() {
                Ok(name) => name,
                Err(e) => {
                    return Err(e);
                },
            };
            let name: String = match self.expect_identifier() {
                Ok(name) => name,
                Err(e) => {
                    return Err(e);
                },
            };
            let ghost parameter = (parameter_type@, name@);
            list.push((parameter_type, name));
            assert(parameters_view(list@) == before + seq![parameter]);
            match self.current() {
                Some(Token::Comma) => {
                    proof {
                        use_type_invariant(&*self);
                        let rest = parameters(tokens, self@.position + 1);
                        if let Ok(others) = rest.result {
                            assert(before + (seq![parameter] + others) == (before + seq![
                                parameter,
                            ]) + others);
                        }
                    }
                    self.advance();
                },
                _ => {
                    return Ok(list);
                },
            }
        }
    }

    /// Parses what follows the keyword `function`.
    fn parse_function_declaration(&mut self) -> (r: Result<ASTNode, ParseError>)
        ensures
            final(self)@.tokens == old(self)@.tokens,
            function_declaration(old(self)@.tokens, old(self)@.position) == (Parse {
                result: node_result(r),
                next: final(self)@.position,
            }),
        decreases old(self)@.tokens.len() - old(self)@.position, 0nat,
    {
        proof {
            use_type_invariant(&*self);
        }
        let return_type: String = match self.expect_type() {
            Ok(name) => name,
            Err(e) => {
                return Err(e);
            },
        };
        let name: String = match self.expect_identifier() {
            Ok(name) => name,
            Err(e) => {
                return Err(e);
            },
        };
        match self.expect(Delimiter::LParen) {
            Ok(_) => {},
            Err(e) => {
                return Err(e);
            },
        }
        proof {
            lemma_parameters_advance(self@.tokens, self@.position);
        }
        let list: Vec<(String, String)> = match self.parse_parameters() {
            Ok(list) => list,
            Err(e) => {
                return Err(e);
            },
        };
        match self.expect(Delimiter::RParen) {
            Ok(_) => {},
            Err(e) => {
                return Err(e);
            },
        }
        match self.expect(Delimiter::LBrace) {
            Ok(_) => {},
            Err(e) => {
                return Err(e);
            },
        }
        match self.parse_block() {
            Ok(body) => Ok(ASTNode::FunctionDeclaration { name, return_type, parameters: list, body }),
            Err(e) => Err(e),
        }
    }

    /// Parses what follows the keyword `loop`.
    fn parse_loop(&mut self) -> (r: Result<ASTNode, ParseError>)
        ensures
            final(self)@.tokens == old(self)@.tokens,
            loop_statement(old(self)@.tokens, old(self)@.position) == (Parse {
                result: node_result(r),
                next: final(self)@.position,
            }),
        decreases old(self)@.tokens.len() - old(self)@.position, 0nat,
    {
        proof {
            use_type_invariant(&*self);
            lemma_condition_advances(self@.tokens, self@.position);
        }
        let test: ASTNode = match self.parse_condition() {
            Ok(node) => node,
            Err(e) => {
                return Err(e);
            },
        };
        match self.parse_block() {
            Ok(body) => Ok(ASTNode::Loop { condition: Box::new(test), body }),
            Err(e) => Err(e),
        }
    }

    /// Parses what follows the keyword `if`.
    fn parse_conditional(&mut self) -> (r: Result<ASTNode, ParseError>)
        ensures
            final(self)@.tokens == old(self)@.tokens,
            conditional(old(self)@.tokens, old(self)@.position) == (Parse {
                result: node_result(r),
                next: final(self)@.position,
            }),
        decreases old(self)@.tokens.len() - old(self)@.position, 0nat,
    {
        proof {
            use_type_invariant(&*self);
            lemma_condition_advances(self@.tokens, self@.position);
        }
        let test: ASTNode = match self.parse_condition() {
            Ok(node) => node,
            Err(e) => {
                return Err(e);
            },
        };
        proof {
            lemma_block_advances(self@.tokens, self@.position);
        }
        let if_block: Vec<ASTNode> = match self.parse_block() {
            Ok(nodes) => nodes,
            Err(e) => {
                return Err(e);
            },
        };
        match self.current() {
            Some(Token::Else) => {},
            _ => {
                return Ok(
                    ASTNode::IfElse { condition: Box::new(test), if_block, else_block: None },
                );
            },
        }
        self.advance();
        match self.expect(Delimiter::LBrace) {
            Ok(_) => {},
            Err(e) => {
                return Err(e);
            },
        }
        match self.parse_block() {
            Ok(else_block) => Ok(
                ASTNode::IfElse {
                    condition: Box::new(test),
                    if_block,
                    else_block: Some(else_block),
                },
            ),
            Err(e) => Err(e),
        }
    }

    /// Parses one statement, as [`statement`] describes.
    pub fn parse_statement(&mut self) -> (r: Result<ASTNode, ParseError>)
        ensures
            final(self)@.tokens == old(self)@.tokens,
            statement(old(self)@.tokens, old(self)@.position) == (Parse {
                result: node_result(r),
                next: final(self)@.position,
            }),
        decreases old(self)@.tokens.len() - old(self)@.position, 0nat,
    {
        proof {
            use_type_invariant(&*self);
        }
        match self.current() {
            Some(Token::Variable) => {
                self.advance();
                self.parse_variable_declaration()
            },
            Some(Token::Function) => {
                self.advance();
                self.parse_function_declaration()
            },
            Some(Token::Return) => {
                self.advance();
                self.parse_return()
            },
            Some(Token::Loop) => {
                self.advance();
                self.parse_loop()
            },
            Some(Token::Identifier(name)) => {
                self.advance();
                self.parse_assignment(name.clone())
            },
            Some(Token::If) => {
                self.advance();
                self.parse_conditional()
            },
            Some(Token::Print) => {
                self.advance();
                self.parse_print()
            },
            Some(Token::Call) => {
                self.advance();
                self.parse_call_statement()
            },
            _ => Err(self.failure(ParseErrorKind::UnexpectedToken)),
        }
    }

    /// Parses statements up to the end of the tokens or to a `}`, which is
    /// left under the cursor, as [`statements`] describes.
    pub fn parse(&mut self) -> (r: Result<Vec<ASTNode>, ParseError>)
        ensures
            final(self)@.tokens == old(self)@.tokens,
            statements(old(self)@.tokens, old(self)@.position) == (Parse {
                result: nodes_result(r),
                next: final(self)@.position,
            }),
        decreases old(self)@.tokens.len() - old(self)@.position, 1nat,
    {
        proof {
            use_type_invariant(&*self);
        }
        let ghost tokens = self@.tokens;
        let ghost start = self@.position;
        let mut nodes: Vec<ASTNode> = Vec::new();
        assert(nodes_view(nodes@) == Seq::<NodeView>::empty());
        assert(after(nodes_view(nodes@), statements(tokens, start)) == statements(tokens, start))
            by {
            let whole = statements(tokens, start);
            if let Ok(items) = whole.result {
                assert(Seq::<NodeView>::empty() + items == items);
            }
        }
        loop
            invariant
                tokens == old(self)@.tokens,
                start == old(self)@.position,
                self@.tokens == tokens,
                start <= self@.position <= tokens.len(),
                statements(tokens, start) == after(
                    nodes_view(nodes@),
                    statements(tokens, self@.position),
                ),
            decreases tokens.len() - self@.position,
        {
            let ghost before = nodes_view(nodes@);
            match self.current() {
                None => {
                    assert(before + Seq::<NodeView>::empty() == before);
                    return Ok(nodes);
                },
                Some(Token::RBrace) => {
                    assert(before + Seq::<NodeView>::empty() == before);
                    return Ok(nodes);
                },
                Some(_) => {},
            }
            proof {
                lemma_statement_advances(tokens, self@.position);
            }
            let node: ASTNode = match self.parse_statement() {
                Ok(node) => node,
                Err(e) => {
                    return Err(e);
                },
            };
            proof {
                let rest = statements(tokens, self@.position);
                if let Ok(others) = rest.result {
                    assert(before + (seq![node@] + others) == (before + seq![node@]) + others);
                }
            }
            nodes.push(node);
            assert(nodes_view(nodes@) == before + seq![node@]);
        }
    }

    /// Parses the statements of a block up to the `}` that closes it, and
    /// that `}`, as [`block`] describes. The `{` that opens the block has
    /// been consumed before.
    pub fn parse_block(&mut self) -> (r: Result<Vec<ASTNode>, ParseError>)
        ensures
            final(self)@.tokens == old(self)@.tokens,
            block(old(self)@.tokens, old(self)@.position) == (Parse {
                result: nodes_result(r),
                next: final(self)@.position,
            }),
        decreases old(self)@.tokens.len() - old(self)@.position, 2nat,
    {
        let nodes: Vec<ASTNode> = match self.parse() {
            Ok(nodes) => nodes,
            Err(e) => {
                return Err(e);
            },
        };
        match self.current() {
            Some(Token::RBrace) => {
                self.advance();
                Ok(nodes)
            },
            _ => Err(self.failure(ParseErrorKind::ExpectedRBrace)),
        }
    }
}

} // verus!
