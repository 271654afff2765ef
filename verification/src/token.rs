//! The lexical units of the language.
use vstd::prelude::*;
use crate::text::{decimal_text, push_integer, push_text};

verus! {

/// One lexical unit.
#[derive(Debug, PartialEq, Eq)]
pub enum Token {
    // Keywords
    Variable,
    Integer,
    Boolean,
    Loop,
    Function,
    Return,
    Call,
    // Identifiers
    Identifier(String),
    // Operators
    Assign,
    Plus,
    Minus,
    Multiply,
    Divide,
    Modulo,
    Equals,
    NotEquals,
    LessThan,
    LessThanOrEqual,
    GreaterThan,
    GreaterThanOrEqual,
    And,
    Or,
    Not,
    // Delimiters
    Comma,
    Semicolon,
    LParen,
    RParen,
    LBrace,
    RBrace,
    // Literals
    IntegerLiteral(i32),
    BooleanLiteral(bool),
    StringLiteral(String),
    Print,
    If,
    Else,
    // End of input
    EOF,
    True,
    False,
    Star,
    Slash,
    Percent,
}

/// The mathematical content of a [`Token`].
pub ghost enum TokenView {
    Variable,
    Integer,
    Boolean,
    Loop,
    Function,
    Return,
    Call,
    Identifier(Seq<char>),
    Assign,
    Plus,
    Minus,
    Multiply,
    Divide,
    Modulo,
    Equals,
    NotEquals,
    LessThan,
    LessThanOrEqual,
    GreaterThan,
    GreaterThanOrEqual,
    And,
    Or,
    Not,
    Comma,
    Semicolon,
    LParen,
    RParen,
    LBrace,
    RBrace,
    IntegerLiteral(i32),
    BooleanLiteral(bool),
    StringLiteral(Seq<char>),
    Print,
    If,
    Else,
    EOF,
    True,
    False,
    Star,
    Slash,
    Percent,
}

impl TokenView {
    /// The name of the token's kind, followed in round brackets by what an
    /// identifier or a literal carries.
    pub open spec fn name(self) -> Seq<char> {
        match self {
            TokenView::Variable => "Variable"@,
            TokenView::Integer => "Integer"@,
            TokenView::Boolean => "Boolean"@,
            TokenView::Loop => "Loop"@,
            TokenView::Function => "Function"@,
            TokenView::Return => "Return"@,
            TokenView::Call => "Call"@,
            TokenView::Identifier(name) => "Identifier("@ + name + ")"@,
            TokenView::Assign => "Assign"@,
            TokenView::Plus => "Plus"@,
            TokenView::Minus => "Minus"@,
            TokenView::Multiply => "Multiply"@,
            TokenView::Divide => "Divide"@,
            TokenView::Modulo => "Modulo"@,
            TokenView::Equals => "Equals"@,
            TokenView::NotEquals => "NotEquals"@,
            TokenView::LessThan => "LessThan"@,
            TokenView::LessThanOrEqual => "LessThanOrEqual"@,
            TokenView::GreaterThan => "GreaterThan"@,
            TokenView::GreaterThanOrEqual => "GreaterThanOrEqual"@,
            TokenView::And => "And"@,
            TokenView::Or => "Or"@,
            TokenView::Not => "Not"@,
            TokenView::Comma => "Comma"@,
            TokenView::Semicolon => "Semicolon"@,
            TokenView::LParen => "LParen"@,
            TokenView::RParen => "RParen"@,
            TokenView::LBrace => "LBrace"@,
            TokenView::RBrace => "RBrace"@,
            TokenView::IntegerLiteral(value) => "IntegerLiteral("@ + decimal_text(value as int)
                + ")"@,
            TokenView::BooleanLiteral(value) => if value {
                "BooleanLiteral(true)"@
            } else {
                "BooleanLiteral(false)"@
            },
            TokenView::StringLiteral(value) => "StringLiteral("@ + value + ")"@,
            TokenView::Print => "Print"@,
            TokenView::If => "If"@,
            TokenView::Else => "Else"@,
            TokenView::EOF => "EOF"@,
            TokenView::True => "True"@,
            TokenView::False => "False"@,
            TokenView::Star => "Star"@,
            TokenView::Slash => "Slash"@,
            TokenView::Percent => "Percent"@,
        }
    }
}

impl View for Token {
    type V = TokenView;

    open spec fn view(&self) -> TokenView {
        match self {
            Token::Variable => TokenView::Variable,
            Token::Integer => TokenView::Integer,
            Token::Boolean => TokenView::Boolean,
            Token::Loop => TokenView::Loop,
            Token::Function => TokenView::Function,
            Token::Return => TokenView::Return,
            Token::Call => TokenView::Call,
            Token::Identifier(name) => TokenView::Identifier(name@),
            Token::Assign => TokenView::Assign,
            Token::Plus => TokenView::Plus,
            Token::Minus => TokenView::Minus,
            Token::Multiply => TokenView::Multiply,
            Token::Divide => TokenView::Divide,
            Token::Modulo => TokenView::Modulo,
            Token::Equals => TokenView::Equals,
            Token::NotEquals => TokenView::NotEquals,
            Token::LessThan => TokenView::LessThan,
            Token::LessThanOrEqual => TokenView::LessThanOrEqual,
            Token::GreaterThan => TokenView::GreaterThan,
            Token::GreaterThanOrEqual => TokenView::GreaterThanOrEqual,
            Token::And => TokenView::And,
            Token::Or => TokenView::Or,
            Token::Not => TokenView::Not,
            Token::Comma => TokenView::Comma,
            Token::Semicolon => TokenView::Semicolon,
            Token::LParen => TokenView::LParen,
            Token::RParen => TokenView::RParen,
            Token::LBrace => TokenView::LBrace,
            Token::RBrace => TokenView::RBrace,
            Token::IntegerLiteral(value) => TokenView::IntegerLiteral(*value),
            Token::BooleanLiteral(value) => TokenView::BooleanLiteral(*value),
            Token::StringLiteral(value) => TokenView::StringLiteral(value@),
            Token::Print => TokenView::Print,
            Token::If => TokenView::If,
            Token::Else => TokenView::Else,
            Token::EOF => TokenView::EOF,
            Token::True => TokenView::True,
            Token::False => TokenView::False,
            Token::Star => TokenView::Star,
            Token::Slash => TokenView::Slash,
            Token::Percent => TokenView::Percent,
        }
    }
}

/// The contents of a token sequence.
pub open spec fn tokens_view(tokens: Seq<Token>) -> Seq<TokenView> {
    Seq::new(tokens.len(), |i: int| tokens[i]@)
}

impl Clone for Token {
    fn clone(&self) -> (r: Self)
        ensures
            r@ == self@,
    {
        match self {
            Token::Variable => Token::Variable,
            Token::Integer => Token::Integer,
            Token::Boolean => Token::Boolean,
            Token::Loop => Token::Loop,
            Token::Function => Token::Function,
            Token::Return => Token::Return,
            Token::Call => Token::Call,
            Token::Identifier(name) => Token::Identifier(name.clone()),
            Token::Assign => Token::Assign,
            Token::Plus => Token::Plus,
            Token::Minus => Token::Minus,
            Token::Multiply => Token::Multiply,
            Token::Divide => Token::Divide,
            Token::Modulo => Token::Modulo,
            Token::Equals => Token::Equals,
            Token::NotEquals => Token::NotEquals,
            Token::LessThan => Token::LessThan,
            Token::LessThanOrEqual => Token::LessThanOrEqual,
            Token::GreaterThan => Token::GreaterThan,
            Token::GreaterThanOrEqual => Token::GreaterThanOrEqual,
            Token::And => Token::And,
            Token::Or => Token::Or,
            Token::Not => Token::Not,
            Token::Comma => Token::Comma,
            Token::Semicolon => Token::Semicolon,
            Token::LParen => Token::LParen,
            Token::RParen => Token::RParen,
            Token::LBrace => Token::LBrace,
            Token::RBrace => Token::RBrace,
            Token::IntegerLiteral(value) => Token::IntegerLiteral(*value),
            Token::BooleanLiteral(value) => Token::BooleanLiteral(*value),
            Token::StringLiteral(value) => Token::StringLiteral(value.clone()),
            Token::Print => Token::Print,
            Token::If => Token::If,
            Token::Else => Token::Else,
            Token::EOF => Token::EOF,
            Token::True => Token::True,
            Token::False => Token::False,
            Token::Star => Token::Star,
            Token::Slash => Token::Slash,
            Token::Percent => Token::Percent,
        }
    }
}

impl Token {
    /// The token's name, as the parser records it for an operator.
    pub fn to_string(&self) -> (s: String)
        ensures
            s@ == self@.name(),
    {
        let mut s: String = String::new();
        match self {
            Token::Variable => push_text(&mut s, "Variable"),
            Token::Integer => push_text(&mut s, "Integer"),
            Token::Boolean => push_text(&mut s, "Boolean"),
            Token::Loop => push_text(&mut s, "Loop"),
            Token::Function => push_text(&mut s, "Function"),
            Token::Return => push_text(&mut s, "Return"),
            Token::Call => push_text(&mut s, "Call"),
            Token::Identifier(name) => {
                push_text(&mut s, "Identifier(");
                push_text(&mut s, name.as_str());
                push_text(&mut s, ")");
            },
            Token::Assign => push_text(&mut s, "Assign"),
            Token::Plus => push_text(&mut s, "Plus"),
            Token::Minus => push_text(&mut s, "Minus"),
            Token::Multiply => push_text(&mut s, "Multiply"),
            Token::Divide => push_text(&mut s, "Divide"),
            Token::Modulo => push_text(&mut s, "Modulo"),
            Token::Equals => push_text(&mut s, "Equals"),
            Token::NotEquals => push_text(&mut s, "NotEquals"),
            Token::LessThan => push_text(&mut s, "LessThan"),
            Token::LessThanOrEqual => push_text(&mut s, "LessThanOrEqual"),
            Token::GreaterThan => push_text(&mut s, "GreaterThan"),
            Token::GreaterThanOrEqual => push_text(&mut s, "GreaterThanOrEqual"),
            Token::And => push_text(&mut s, "And"),
            Token::Or => push_text(&mut s, "Or"),
            Token::Not => push_text(&mut s, "Not"),
            Token::Comma => push_text(&mut s, "Comma"),
            Token::Semicolon => push_text(&mut s, "Semicolon"),
            Token::LParen => push_text(&mut s, "LParen"),
            Token::RParen => push_text(&mut s, "RParen"),
            Token::LBrace => push_text(&mut s, "LBrace"),
            Token::RBrace => push_text(&mut s, "RBrace"),
            Token::IntegerLiteral(value) => {
                push_text(&mut s, "IntegerLiteral(");
                push_integer(&mut s, *value);
                push_text(&mut s, ")");
            },
            Token::BooleanLiteral(value) => {
                if *value {
                    push_text(&mut s, "BooleanLiteral(true)");
                } else {
                    push_text(&mut s, "BooleanLiteral(false)");
                }
            },
            Token::StringLiteral(value) => {
                push_text(&mut s, "StringLiteral(");
                push_text(&mut s, value.as_str());
                push_text(&mut s, ")");
            },
            Token::Print => push_text(&mut s, "Print"),
            Token::If => push_text(&mut s, "If"),
            Token::Else => push_text(&mut s, "Else"),
            Token::EOF => push_text(&mut s, "EOF"),
            Token::True => push_text(&mut s, "True"),
            Token::False => push_text(&mut s, "False"),
            Token::Star => push_text(&mut s, "Star"),
            Token::Slash => push_text(&mut s, "Slash"),
            Token::Percent => push_text(&mut s, "Percent"),
        }
        s
    }
}

} // verus!
