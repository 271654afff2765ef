use minilang::error::{LexError, LexErrorKind};
use minilang::interpreter::Interpreter;
use minilang::lexer::Lexer;
use minilang::token::Token;

fn tokens_of(code: &str) -> Result<Vec<Token>, LexError> {
    Interpreter::new(code).tokenize()
}

fn identifier(name: &str) -> Token {
    Token::Identifier(name.to_string())
}

#[test]
fn empty_source_has_no_tokens() {
    assert_eq!(tokens_of(""), Ok(vec![]));
    assert_eq!(tokens_of("  \n\t "), Ok(vec![]));
}

#[test]
fn keywords_are_recognised() {
    assert_eq!(
        tokens_of("variable integer boolean loop function return if else print call"),
        Ok(vec![
            Token::Variable,
            Token::Integer,
            Token::Boolean,
            Token::Loop,
            Token::Function,
            Token::Return,
            Token::If,
            Token::Else,
            Token::Print,
            Token::Call,
        ])
    );
}

#[test]
fn true_and_false_are_boolean_literals() {
    assert_eq!(
        tokens_of("true false"),
        Ok(vec![Token::BooleanLiteral(true), Token::BooleanLiteral(false)])
    );
}

#[test]
fn words_that_contain_keywords_are_identifiers() {
    assert_eq!(
        tokens_of("variables iff printer _loop call_ x1 truely"),
        Ok(vec![
            identifier("variables"),
            identifier("iff"),
            identifier("printer"),
            identifier("_loop"),
            identifier("call_"),
            identifier("x1"),
            identifier("truely"),
        ])
    );
}

#[test]
fn keywords_are_case_sensitive() {
    assert_eq!(tokens_of("Variable IF"), Ok(vec![identifier("Variable"), identifier("IF")]));
}

#[test]
fn identifier_may_continue_with_any_alphanumeric() {
    assert_eq!(tokens_of("caf\u{e9}7 = 1"), Ok(vec![
        identifier("caf\u{e9}7"),
        Token::Assign,
        Token::IntegerLiteral(1),
    ]));
}

#[test]
fn identifier_must_begin_with_a_letter_or_underscore() {
    assert_eq!(
        tokens_of("\u{e9}t"),
        Err(LexError { kind: LexErrorKind::UnexpectedCharacter, position: 0 })
    );
}

#[test]
fn unicode_white_space_is_skipped() {
    assert_eq!(
        tokens_of("\u{2003}x\u{a0}\r\n=\u{3000}2"),
        Ok(vec![identifier("x"), Token::Assign, Token::IntegerLiteral(2)])
    );
}

#[test]
fn single_character_operators_and_delimiters() {
    assert_eq!(
        tokens_of("+ - * / % ( ) { } ; , < > ! ="),
        Ok(vec![
            Token::Plus,
            Token::Minus,
            Token::Multiply,
            Token::Divide,
            Token::Modulo,
            Token::LParen,
            Token::RParen,
            Token::LBrace,
            Token::RBrace,
            Token::Semicolon,
            Token::Comma,
            Token::LessThan,
            Token::GreaterThan,
            Token::Not,
            Token::Assign,
        ])
    );
}

#[test]
fn two_character_operators_need_lookahead() {
    assert_eq!(
        tokens_of("== != <= >= && ||"),
        Ok(vec![
            Token::Equals,
            Token::NotEquals,
            Token::LessThanOrEqual,
            Token::GreaterThanOrEqual,
            Token::And,
            Token::Or,
        ])
    );
    assert_eq!(tokens_of("==="), Ok(vec![Token::Equals, Token::Assign]));
    assert_eq!(tokens_of("<=="), Ok(vec![Token::LessThanOrEqual, Token::Assign]));
    assert_eq!(tokens_of("= ="), Ok(vec![Token::Assign, Token::Assign]));
}

#[test]
fn tokens_need_no_space_between_them() {
    assert_eq!(
        tokens_of("x=x-1;"),
        Ok(vec![
            identifier("x"),
            Token::Assign,
            identifier("x"),
            Token::Minus,
            Token::IntegerLiteral(1),
            Token::Semicolon,
        ])
    );
}

#[test]
fn lone_ampersand_is_refused() {
    assert_eq!(
        tokens_of("a & b"),
        Err(LexError { kind: LexErrorKind::UnexpectedCharacter, position: 2 })
    );
    assert_eq!(
        tokens_of("a &"),
        Err(LexError { kind: LexErrorKind::UnexpectedCharacter, position: 2 })
    );
}

#[test]
fn lone_bar_is_refused() {
    assert_eq!(
        tokens_of("|x"),
        Err(LexError { kind: LexErrorKind::UnexpectedCharacter, position: 0 })
    );
}

#[test]
fn unknown_character_is_refused() {
    assert_eq!(
        tokens_of("x = 1 # 2"),
        Err(LexError { kind: LexErrorKind::UnexpectedCharacter, position: 6 })
    );
    assert_eq!(
        tokens_of("@"),
        Err(LexError { kind: LexErrorKind::UnexpectedCharacter, position: 0 })
    );
}

#[test]
fn integer_literals_are_read_in_decimal() {
    assert_eq!(tokens_of("0"), Ok(vec![Token::IntegerLiteral(0)]));
    assert_eq!(tokens_of("007"), Ok(vec![Token::IntegerLiteral(7)]));
    assert_eq!(tokens_of("1234567890"), Ok(vec![Token::IntegerLiteral(1234567890)]));
    assert_eq!(tokens_of("2147483647"), Ok(vec![Token::IntegerLiteral(2147483647)]));
    assert_eq!(tokens_of("00000000002147483647"), Ok(vec![Token::IntegerLiteral(2147483647)]));
}

#[test]
fn integer_literal_that_does_not_fit_is_refused() {
    assert_eq!(
        tokens_of("x = 2147483648;"),
        Err(LexError { kind: LexErrorKind::MalformedNumber, position: 4 })
    );
    assert_eq!(
        tokens_of("99999999999999999999999999"),
        Err(LexError { kind: LexErrorKind::MalformedNumber, position: 0 })
    );
}

#[test]
fn number_ends_where_the_digits_end() {
    assert_eq!(tokens_of("12ab"), Ok(vec![Token::IntegerLiteral(12), identifier("ab")]));
}

#[test]
fn minus_sign_is_a_token_of_its_own() {
    assert_eq!(tokens_of("-5"), Ok(vec![Token::Minus, Token::IntegerLiteral(5)]));
}

#[test]
fn string_literal_is_taken_verbatim() {
    assert_eq!(
        tokens_of("\"hello world\""),
        Ok(vec![Token::StringLiteral("hello world".to_string())])
    );
    assert_eq!(tokens_of("\"\""), Ok(vec![Token::StringLiteral(String::new())]));
    assert_eq!(
        tokens_of("\"a\\n\" x"),
        Ok(vec![Token::StringLiteral("a\\n".to_string()), identifier("x")])
    );
}

#[test]
fn string_literal_ends_at_the_first_quote() {
    assert_eq!(
        tokens_of("\"a\\\"b"),
        Ok(vec![Token::StringLiteral("a\\".to_string()), identifier("b")])
    );
}

#[test]
fn unterminated_string_is_refused() {
    assert_eq!(
        tokens_of("print \"abc"),
        Err(LexError { kind: LexErrorKind::UnterminatedString, position: 6 })
    );
    assert_eq!(
        tokens_of("\""),
        Err(LexError { kind: LexErrorKind::UnterminatedString, position: 0 })
    );
}

#[test]
fn lexer_stops_at_the_first_failure() {
    assert_eq!(
        tokens_of("x = 1; & \"open"),
        Err(LexError { kind: LexErrorKind::UnexpectedCharacter, position: 7 })
    );
}

#[test]
fn next_token_moves_the_cursor_past_the_token() {
    let mut lexer = Lexer::new("  foo  42");
    assert_eq!(lexer.position(), 0);
    assert_eq!(lexer.next_token(), Ok(Some(identifier("foo"))));
    assert_eq!(lexer.position(), 5);
    assert_eq!(lexer.next_token(), Ok(Some(Token::IntegerLiteral(42))));
    assert_eq!(lexer.position(), 9);
    assert_eq!(lexer.next_token(), Ok(None));
    assert_eq!(lexer.next_token(), Ok(None));
    assert_eq!(lexer.position(), 9);
}

#[test]
fn next_token_leaves_the_cursor_at_the_offending_character() {
    let mut lexer = Lexer::new("  99999999999 x");
    assert_eq!(
        lexer.next_token(),
        Err(LexError { kind: LexErrorKind::MalformedNumber, position: 2 })
    );
    assert_eq!(lexer.position(), 2);
    let mut lexer = Lexer::new(" \"abc");
    assert_eq!(
        lexer.next_token(),
        Err(LexError { kind: LexErrorKind::UnterminatedString, position: 1 })
    );
    assert_eq!(lexer.position(), 1);
}

#[test]
fn advance_and_peek_walk_the_characters() {
    let mut lexer = Lexer::new("ab");
    assert_eq!(lexer.peek(), Some('a'));
    assert_eq!(lexer.advance(), Some('a'));
    assert_eq!(lexer.peek(), Some('b'));
    assert_eq!(lexer.advance(), Some('b'));
    assert_eq!(lexer.peek(), None);
    assert_eq!(lexer.advance(), None);
    assert_eq!(lexer.position(), 2);
}

#[test]
fn skip_whitespace_stops_at_the_first_other_character() {
    let mut lexer = Lexer::new(" \t\n x y");
    lexer.skip_whitespace();
    assert_eq!(lexer.position(), 4);
    lexer.skip_whitespace();
    assert_eq!(lexer.position(), 4);
}

#[test]
fn read_identifier_takes_the_longest_run() {
    let mut lexer = Lexer::new("abc_12+d");
    assert_eq!(lexer.read_identifier(), "abc_12");
    assert_eq!(lexer.position(), 6);
    assert_eq!(lexer.read_identifier(), "");
    assert_eq!(lexer.position(), 6);
}

#[test]
fn read_number_takes_the_longest_run_of_digits() {
    let mut lexer = Lexer::new("120+3");
    assert_eq!(lexer.read_number(), Ok(120));
    assert_eq!(lexer.position(), 3);
    assert_eq!(
        lexer.read_number(),
        Err(LexError { kind: LexErrorKind::MalformedNumber, position: 3 })
    );
    assert_eq!(lexer.position(), 3);
}

#[test]
fn read_string_consumes_both_quotes() {
    let mut lexer = Lexer::new("\"ab c\"d");
    assert_eq!(lexer.read_string(), Ok("ab c".to_string()));
    assert_eq!(lexer.position(), 6);
    assert_eq!(
        lexer.read_string(),
        Err(LexError { kind: LexErrorKind::UnterminatedString, position: 6 })
    );
    assert_eq!(lexer.position(), 6);
}

#[test]
fn token_names() {
    assert_eq!(Token::Variable.to_string(), "Variable");
    assert_eq!(Token::Plus.to_string(), "Plus");
    assert_eq!(Token::GreaterThanOrEqual.to_string(), "GreaterThanOrEqual");
    assert_eq!(Token::EOF.to_string(), "EOF");
    assert_eq!(Token::Percent.to_string(), "Percent");
    assert_eq!(identifier("x_1").to_string(), "Identifier(x_1)");
    assert_eq!(Token::IntegerLiteral(42).to_string(), "IntegerLiteral(42)");
    assert_eq!(Token::IntegerLiteral(0).to_string(), "IntegerLiteral(0)");
    assert_eq!(Token::IntegerLiteral(-2147483648).to_string(), "IntegerLiteral(-2147483648)");
    assert_eq!(Token::BooleanLiteral(true).to_string(), "BooleanLiteral(true)");
    assert_eq!(Token::BooleanLiteral(false).to_string(), "BooleanLiteral(false)");
    assert_eq!(Token::StringLiteral("a b".to_string()).to_string(), "StringLiteral(a b)");
}

#[test]
fn token_clone_is_equal() {
    let tokens = vec![identifier("x"), Token::StringLiteral("s".to_string()), Token::IntegerLiteral(3), Token::Else];
    for token in &tokens {
        assert_eq!(&token.clone(), token);
    }
}
