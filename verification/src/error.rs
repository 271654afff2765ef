//! The failures that the three stages report.
use vstd::prelude::*;

verus! {

/// Why the lexer stopped.
#[derive(Debug, Clone, Copy, PartialEq, Eq, Structural)]
pub enum LexErrorKind {
    /// A character that begins no token, such as a lone `&`.
    UnexpectedCharacter,
    /// A string literal whose closing quote is missing.
    UnterminatedString,
    /// An integer literal that does not fit in 32 signed bits, or a number
    /// asked for where no digit stands.
    MalformedNumber,
}

/// A lexical failure and the index of the character at which the offending
/// token begins.
#[derive(Debug, Clone, Copy, PartialEq, Eq, Structural)]
pub struct LexError {
    pub kind: LexErrorKind,
    pub position: usize,
}

/// What the parser was looking for when it stopped.
#[derive(Debug, Clone, Copy, PartialEq, Eq, Structural)]
pub enum ParseErrorKind {
    /// A token that begins no statement, or no term of an expression.
    UnexpectedToken,
    /// `integer` or `boolean` was required.
    ExpectedType,
    /// A name was required.
    ExpectedIdentifier,
    /// `=` was required.
    ExpectedAssign,
    /// `;` was required.
    ExpectedSemicolon,
    /// `(` was required.
    ExpectedLParen,
    /// `)` was required.
    ExpectedRParen,
    /// `{` was required.
    ExpectedLBrace,
    /// The input ended inside a block: `}` was required.
    ExpectedRBrace,
}

/// A syntax failure and the index of the token at which it was found; the
/// index equals the number of tokens when the input ended too early.
#[derive(Debug, Clone, Copy, PartialEq, Eq, Structural)]
pub struct ParseError {
    pub kind: ParseErrorKind,
    pub position: usize,
}

/// Why evaluation stopped.
#[derive(Debug, PartialEq, Eq)]
pub enum EvalError {
    /// The named variable has no binding.
    UndefinedVariable(String),
    /// The named function was never declared.
    UndefinedFunction(String),
    /// An operator met an operand of a kind it does not support, or a
    /// condition was neither boolean nor integer.
    TypeMismatch,
    /// `/` or `%` with a zero right operand.
    DivisionByZero,
    /// A call with more or fewer arguments than the function has parameters.
    ArityMismatch,
    /// A node kind, or an operator name, that has no evaluation rule.
    UnsupportedConstruct,
    /// Evaluation nested deeper than the environment allows.
    RecursionLimit,
    /// A loop ran for more iterations than the environment allows.
    IterationLimit,
    /// The result of an arithmetic operator does not fit in 32 signed bits.
    Overflow,
}

/// The mathematical content of an [`EvalError`].
pub ghost enum EvalErrorView {
    UndefinedVariable(Seq<char>),
    UndefinedFunction(Seq<char>),
    TypeMismatch,
    DivisionByZero,
    ArityMismatch,
    UnsupportedConstruct,
    RecursionLimit,
    IterationLimit,
    Overflow,
}

impl View for EvalError {
    type V = EvalErrorView;

    open spec fn view(&self) -> EvalErrorView {
        match self {
            EvalError::UndefinedVariable(name) => EvalErrorView::UndefinedVariable(name@),
            EvalError::UndefinedFunction(name) => EvalErrorView::UndefinedFunction(name@),
            EvalError::TypeMismatch => EvalErrorView::TypeMismatch,
            EvalError::DivisionByZero => EvalErrorView::DivisionByZero,
            EvalError::ArityMismatch => EvalErrorView::ArityMismatch,
            EvalError::UnsupportedConstruct => EvalErrorView::UnsupportedConstruct,
            EvalError::RecursionLimit => EvalErrorView::RecursionLimit,
            EvalError::IterationLimit => EvalErrorView::IterationLimit,
            EvalError::Overflow => EvalErrorView::Overflow,
        }
    }
}

/// The first failure of a whole run, by the stage that met it.
#[derive(Debug, PartialEq, Eq)]
pub enum InterpretError {
    Lex(LexError),
    Parse(ParseError),
    Eval(EvalError),
}

/// The mathematical content of an [`InterpretError`].
pub ghost enum InterpretErrorView {
    Lex(LexError),
    Parse(ParseError),
    Eval(EvalErrorView),
}

impl View for InterpretError {
    type V = InterpretErrorView;

    open spec fn view(&self) -> InterpretErrorView {
        match self {
            InterpretError::Lex(e) => InterpretErrorView::Lex(*e),
            InterpretError::Parse(e) => InterpretErrorView::Parse(*e),
            InterpretError::Eval(e) => InterpretErrorView::Eval(e@),
        }
    }
}

} // verus!
