//! The whole pipeline: source text in, printed lines and the first
//! failure out.
use vstd::prelude::*;
use crate::asteva::block_within;
use crate::astnode::{nodes_view, ASTNode, NodeView};
use crate::context::{
    values_view, Context, Env, DEFAULT_MAX_DEPTH, DEFAULT_MAX_ITERATIONS,
};
use crate::error::{InterpretError, InterpretErrorView, LexError, ParseError};
use crate::grammar::program;
use crate::lexer::{lex, lex_from, Lexer};
use crate::parser::{nodes_result, Parser};
use crate::semantics::eval_block;
use crate::token::{tokens_view, Token, TokenView};
use crate::value::{Value, ValueView};

verus! {

/// What a run leaves behind: the lines it printed, oldest first, and how
/// it ended. The lines printed before a failure are there too.
#[derive(Debug, PartialEq, Eq)]
pub struct Execution {
    pub output: Vec<String>,
    pub result: Result<(), InterpretError>,
}

/// The mathematical content of an [`Execution`].
pub ghost struct ExecutionView {
    pub output: Seq<Seq<char>>,
    pub result: Result<(), InterpretErrorView>,
}

/// The contents of a sequence of lines.
pub open spec fn lines_view(lines: Seq<String>) -> Seq<Seq<char>> {
    Seq::new(lines.len(), |i: int| lines[i]@)
}

/// The lines that printing `values` gives.
pub open spec fn printed_lines(values: Seq<ValueView>) -> Seq<Seq<char>> {
    Seq::new(values.len(), |i: int| values[i].text())
}

impl View for Execution {
    type V = ExecutionView;

    open spec fn view(&self) -> ExecutionView {
        ExecutionView {
            output: lines_view(self.output@),
            result: match self.result {
                Ok(_) => Ok(()),
                Err(e) => Err(e@),
            },
        }
    }
}

/// The contents of the result of lexing.
pub open spec fn tokens_result(r: Result<Vec<Token>, LexError>) -> Result<Seq<TokenView>, LexError> {
    match r {
        Ok(tokens) => Ok(tokens_view(tokens@)),
        Err(e) => Err(e),
    }
}

/// What running `program` in a fresh environment under the given limits
/// leaves behind.
pub open spec fn run(program: Seq<NodeView>, max_depth: nat, max_iterations: nat) -> ExecutionView {
    let outcome = eval_block(program, Env::fresh(max_depth, max_iterations), max_depth);
    ExecutionView {
        output: printed_lines(outcome.env.output),
        result: match outcome.result {
            Ok(_) => Ok(()),
            Err(e) => Err(InterpretErrorView::Eval(e)),
        },
    }
}

/// What interpreting the source text `code` under the given limits leaves
/// behind: the first lexical failure, or else the first syntax failure, or
/// else what running the parsed program leaves behind.
pub open spec fn interpretation(code: Seq<char>, max_depth: nat, max_iterations: nat) -> ExecutionView {
    match lex(code) {
        Err(e) => ExecutionView { output: Seq::empty(), result: Err(InterpretErrorView::Lex(e)) },
        Ok(tokens) => match program(tokens) {
            Err(e) => ExecutionView {
                output: Seq::empty(),
                result: Err(InterpretErrorView::Parse(e)),
            },
            Ok(statements) => run(statements, max_depth, max_iterations),
        },
    }
}

/// The lines that printing `values` gives.
pub fn render_output(values: &Vec<Value>) -> (lines: Vec<String>)
    ensures
        lines_view(lines@) == printed_lines(values_view(values@)),
{
    let mut lines: Vec<String> = Vec::new();
    let mut i: usize = 0;
    while i < values.len()
        invariant
            i <= values.len(),
            lines.len() == i,
            forall|j: int| 0 <= j < i ==> (#[trigger] lines[j])@ == values[j]@.text(),
        decreases values.len() - i,
    {
        lines.push(values[i].to_string());
        i += 1;
    }
    assert(lines_view(lines@) =~= printed_lines(values_view(values@)));
    lines
}

/// A tokens sequence with `prefix` put before it.
pub open spec fn tokens_after(prefix: Seq<TokenView>, rest: Result<Seq<TokenView>, LexError>) -> Result<
    Seq<TokenView>,
    LexError,
> {
    match rest {
        Ok(tokens) => Ok(prefix + tokens),
        Err(e) => Err(e),
    }
}

/// An interpreter for one source text.
pub struct Interpreter<'a> {
    code: &'a str,
    max_depth: usize,
    max_iterations: u64,
}

impl<'a> Interpreter<'a> {
    /// An interpreter for `code` under the default limits.
    pub fn new(code: &'a str) -> (r: Self)
        ensures
            r.source() == code@,
            r.depth_limit() == DEFAULT_MAX_DEPTH,
            r.iteration_limit() == DEFAULT_MAX_ITERATIONS,
    {
        Interpreter { code, max_depth: DEFAULT_MAX_DEPTH, max_iterations: DEFAULT_MAX_ITERATIONS }
    }

    /// An interpreter for `code` in which evaluation may nest `max_depth`
    /// deep and one loop may run `max_iterations` times.
    pub fn with_limits(code: &'a str, max_depth: usize, max_iterations: u64) -> (r: Self)
        ensures
            r.source() == code@,
            r.depth_limit() == max_depth,
            r.iteration_limit() == max_iterations,
    {
        Interpreter { code, max_depth, max_iterations }
    }

    /// The source text.
    pub closed spec fn source(&self) -> Seq<char> {
        self.code@
    }

    /// How deep evaluation may nest.
    pub closed spec fn depth_limit(&self) -> nat {
        self.max_depth as nat
    }

    /// How many iterations one loop may run.
    pub closed spec fn iteration_limit(&self) -> nat {
        self.max_iterations as nat
    }

    /// The tokens of the source text, or the first lexical failure.
    pub fn tokenize(&self) -> (r: Result<Vec<Token>, LexError>)
        ensures
            tokens_result(r) == lex(self.source()),
    {
        let mut lexer = Lexer::new(self.code);
        let mut tokens: Vec<Token> = Vec::new();
        let ghost text = self.code@;
        assert(tokens_view(tokens@) == Seq::<TokenView>::empty());
        assert(tokens_after(tokens_view(tokens@), lex_from(text, 0)) == lex_from(text, 0)) by {
            if let Ok(all) = lex_from(text, 0) {
                assert(Seq::<TokenView>::empty() + all == all);
            }
        }
        loop
            invariant
                text == self.code@,
                lexer@.input == text,
                0 <= lexer@.position <= text.len(),
                lex_from(text, 0) == tokens_after(
                    tokens_view(tokens@),
                    lex_from(text, lexer@.position),
                ),
            decreases text.len() - lexer@.position,
        {
            let ghost before = tokens_view(tokens@);
            let ghost here = lexer@.position;
            match lexer.next_token() {
                Err(e) => {
                    return Err(e);
                },
                Ok(None) => {
                    assert(before + Seq::<TokenView>::empty() == before);
                    return Ok(tokens);
                },
                Ok(Some(token)) => {
                    proof {
                        if let Ok(rest) = lex_from(text, lexer@.position) {
                            assert(before + (seq![token@] + rest) == (before + seq![token@])
                                + rest);
                        }
                    }
                    tokens.push(token);
                    assert(tokens_view(tokens@) == before + seq![token@]);
                },
            }
        }
    }

    /// The statements that `tokens` spell, or the first syntax failure.
    /// Parsing stops at the end of the tokens or at a `}` that closes no
    /// block.
    pub fn parse(&self, tokens: &[Token]) -> (r: Result<Vec<ASTNode>, ParseError>)
        ensures
            nodes_result(r) == program(tokens_view(tokens@)),
    {
        let mut parser = Parser::new(tokens);
        parser.parse()
    }

    /// Runs `ast` in a fresh environment.
    pub fn evaluate(&self, ast: &[ASTNode]) -> (r: Execution)
        ensures
            r@ == run(nodes_view(ast@), self.depth_limit(), self.iteration_limit()),
    {
        let mut context = Context::with_limits(self.max_depth, self.max_iterations);
        let result: Result<(), InterpretError> = match block_within(
            ast,
            &mut context,
            self.max_depth,
        ) {
            Ok(_) => Ok(()),
            Err(e) => Err(InterpretError::Eval(e)),
        };
        Execution { output: render_output(&context.output), result }
    }

    /// Lexes, parses and runs the source text, as [`interpretation`]
    /// describes.
    pub fn interpret(&self) -> (r: Execution)
        ensures
            r@ == interpretation(self.source(), self.depth_limit(), self.iteration_limit()),
    {
        let tokens: Vec<Token> = match self.tokenize() {
            Ok(tokens) => tokens,
            Err(e) => {
                let r = Execution { output: Vec::new(), result: Err(InterpretError::Lex(e)) };
                assert(lines_view(r.output@) == Seq::<Seq<char>>::empty());
                return r;
            },
        };
        let ast: Vec<ASTNode> = match self.parse(tokens.as_slice()) {
            Ok(ast) => ast,
            Err(e) => {
                let r = Execution { output: Vec::new(), result: Err(InterpretError::Parse(e)) };
                assert(lines_view(r.output@) == Seq::<Seq<char>>::empty());
                return r;
            },
        };
        self.evaluate(ast.as_slice())
    }
}

} // verus!
