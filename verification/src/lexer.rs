//! Lexical analysis: from characters to tokens.
use vstd::prelude::*;
use crate::error::{LexError, LexErrorKind};
use crate::text::{
    chars_of, decimal_value, is_digit, is_digit_char, is_identifier_part,
    is_identifier_part_char, is_identifier_start, is_identifier_start_char, parse_decimal, spells,
    text_of, unicode_whitespace,
};
use crate::token::{Token, TokenView};

verus! {

/// The kinds of character runs that the lexer reads in one go.
#[derive(Debug, Clone, Copy, PartialEq, Eq, Structural)]
pub enum CharClass {
    /// Unicode white space.
    Whitespace,
    /// Alphanumerics and the underscore.
    IdentifierPart,
    /// Decimal digits.
    Digit,
    /// Anything but a double quote.
    StringBody,
}

/// Whether `c` belongs to `class`.
pub open spec fn in_class(class: CharClass, c: char) -> bool {
    match class {
        CharClass::Whitespace => unicode_whitespace(c),
        CharClass::IdentifierPart => is_identifier_part(c),
        CharClass::Digit => is_digit(c),
        CharClass::StringBody => c != '"',
    }
}

/// The end of the longest run of `class` characters that begins at `pos`:
/// the index of the first character at or after `pos` that is not in
/// `class`, or the length of `s` if there is none.
pub open spec fn run_end(s: Seq<char>, pos: int, class: CharClass) -> int
    decreases s.len() - pos,
{
    if 0 <= pos < s.len() && in_class(class, s[pos]) {
        run_end(s, pos + 1, class)
    } else {
        pos
    }
}

/// Whether the character after `pos` is `c`.
pub open spec fn followed_by(s: Seq<char>, pos: int, c: char) -> bool {
    pos + 1 < s.len() && s[pos + 1] == c
}

/// The token that a single character stands for by itself, if any.
pub open spec fn single_char_token(c: char) -> Option<TokenView> {
    if c == '+' {
        Some(TokenView::Plus)
    } else if c == '-' {
        Some(TokenView::Minus)
    } else if c == '*' {
        Some(TokenView::Multiply)
    } else if c == '/' {
        Some(TokenView::Divide)
    } else if c == '%' {
        Some(TokenView::Modulo)
    } else if c == '(' {
        Some(TokenView::LParen)
    } else if c == ')' {
        Some(TokenView::RParen)
    } else if c == '{' {
        Some(TokenView::LBrace)
    } else if c == '}' {
        Some(TokenView::RBrace)
    } else if c == ';' {
        Some(TokenView::Semicolon)
    } else if c == ',' {
        Some(TokenView::Comma)
    } else {
        None
    }
}

/// The token that a word stands for: a keyword, a boolean literal, or else
/// an identifier of that name.
pub open spec fn word_token(word: Seq<char>) -> TokenView {
    if word == "variable"@ {
        TokenView::Variable
    } else if word == "integer"@ {
        TokenView::Integer
    } else if word == "boolean"@ {
        TokenView::Boolean
    } else if word == "loop"@ {
        TokenView::Loop
    } else if word == "function"@ {
        TokenView::Function
    } else if word == "return"@ {
        TokenView::Return
    } else if word == "true"@ {
        TokenView::BooleanLiteral(true)
    } else if word == "false"@ {
        TokenView::BooleanLiteral(false)
    } else if word == "if"@ {
        TokenView::If
    } else if word == "else"@ {
        TokenView::Else
    } else if word == "print"@ {
        TokenView::Print
    } else if word == "call"@ {
        TokenView::Call
    } else {
        TokenView::Identifier(word)
    }
}

/// What one step of the lexer yields: a token, the end of the input
/// (`Ok(None)`) or a failure; and where the cursor stands afterwards.
pub ghost struct LexStep {
    pub result: Result<Option<TokenView>, LexError>,
    pub next: int,
}

/// A step that yields `token` and leaves the cursor at `next`.
pub open spec fn yields(token: TokenView, next: int) -> LexStep {
    LexStep { result: Ok(Some(token)), next }
}

/// A step that fails at `pos` and leaves the cursor there.
pub open spec fn fails(kind: LexErrorKind, pos: int) -> LexStep {
    LexStep { result: Err(LexError { kind, position: pos as usize }), next: pos }
}

/// The number that begins at `pos`: the longest run of digits there,
/// read in decimal. It fails where no digit stands or the number does not
/// fit in 32 signed bits; the cursor then stays at `pos`.
pub open spec fn number_step(s: Seq<char>, pos: int) -> (Result<i32, LexError>, int) {
    let end = run_end(s, pos, CharClass::Digit);
    let value = decimal_value(s.subrange(pos, end));
    if pos < end && value <= i32::MAX {
        (Ok(value as i32), end)
    } else {
        (Err(LexError { kind: LexErrorKind::MalformedNumber, position: pos as usize }), pos)
    }
}

/// The string literal whose opening quote stands at `pos`: the characters
/// after that quote up to the next double quote, which is consumed too. It
/// fails where no closing quote follows; the cursor then stays at `pos`.
pub open spec fn string_step(s: Seq<char>, pos: int) -> (Result<Seq<char>, LexError>, int) {
    let end = run_end(s, pos + 1, CharClass::StringBody);
    if pos < s.len() && end < s.len() {
        (Ok(s.subrange(pos + 1, end)), end + 1)
    } else {
        (Err(LexError { kind: LexErrorKind::UnterminatedString, position: pos as usize }), pos)
    }
}

/// One step of the lexer on `s` with the cursor at `pos`.
///
/// White space is skipped first. Then the character under the cursor
/// decides: an operator or delimiter (with one character of lookahead for
/// `==`, `!=`, `<=`, `>=`, `&&` and `||`), a number, a word, or a string
/// literal. A lone `&` or `|`, and any other character, is a failure.
pub open spec fn lex_step(s: Seq<char>, pos: int) -> LexStep {
    let p = run_end(s, pos, CharClass::Whitespace);
    if !(0 <= p < s.len()) {
        LexStep { result: Ok(None), next: p }
    } else {
        let c = s[p];
        if c == '=' {
            if followed_by(s, p, '=') {
                yields(TokenView::Equals, p + 2)
            } else {
                yields(TokenView::Assign, p + 1)
            }
        } else if c == '!' {
            if followed_by(s, p, '=') {
                yields(TokenView::NotEquals, p + 2)
            } else {
                yields(TokenView::Not, p + 1)
            }
        } else if c == '<' {
            if followed_by(s, p, '=') {
                yields(TokenView::LessThanOrEqual, p + 2)
            } else {
                yields(TokenView::LessThan, p + 1)
            }
        } else if c == '>' {
            if followed_by(s, p, '=') {
                yields(TokenView::GreaterThanOrEqual, p + 2)
            } else {
                yields(TokenView::GreaterThan, p + 1)
            }
        } else if c == '&' {
            if followed_by(s, p, '&') {
                yields(TokenView::And, p + 2)
            } else {
                fails(LexErrorKind::UnexpectedCharacter, p)
            }
        } else if c == '|' {
            if followed_by(s, p, '|') {
                yields(TokenView::Or, p + 2)
            } else {
                fails(LexErrorKind::UnexpectedCharacter, p)
            }
        } else if single_char_token(c) is Some {
            yields(single_char_token(c)->0, p + 1)
        } else if is_digit(c) {
            match number_step(s, p) {
                (Ok(value), next) => yields(TokenView::IntegerLiteral(value), next),
                (Err(e), next) => LexStep { result: Err(e), next },
            }
        } else if is_identifier_start(c) {
            let end = run_end(s, p + 1, CharClass::IdentifierPart);
            yields(word_token(s.subrange(p, end)), end)
        } else if c == '"' {
            match string_step(s, p) {
                (Ok(text), next) => yields(TokenView::StringLiteral(text), next),
                (Err(e), next) => LexStep { result: Err(e), next },
            }
        } else {
            fails(LexErrorKind::UnexpectedCharacter, p)
        }
    }
}

/// All the tokens of `s` from `pos` on, or the first failure.
pub open spec fn lex_from(s: Seq<char>, pos: int) -> Result<Seq<TokenView>, LexError>
    decreases s.len() - pos,
{
    let step = lex_step(s, pos);
    match step.result {
        Err(e) => Err(e),
        Ok(None) => Ok(Seq::empty()),
        Ok(Some(token)) => {
            proof {
                lemma_lex_step_advances(s, pos);
            }
            match lex_from(s, step.next) {
                Err(e) => Err(e),
                Ok(rest) => Ok(seq![token] + rest),
            }
        },
    }
}

/// All the tokens of `s`, or the first failure.
pub open spec fn lex(s: Seq<char>) -> Result<Seq<TokenView>, LexError> {
    lex_from(s, 0)
}

/// A run ends at or after its start and inside the text; every character
/// of it is in the class, and the character at its end is not.
pub proof fn lemma_run_end(s: Seq<char>, pos: int, class: CharClass)
    requires
        0 <= pos <= s.len(),
    ensures
        pos <= run_end(s, pos, class) <= s.len(),
        forall|i: int| pos <= i < run_end(s, pos, class) ==> in_class(class, #[trigger] s[i]),
        run_end(s, pos, class) < s.len() ==> !in_class(class, s[run_end(s, pos, class)]),
    decreases s.len() - pos,
{
    if pos < s.len() && in_class(class, s[pos]) {
        lemma_run_end(s, pos + 1, class);
    }
}

/// A run that is entered in its middle ends where the whole run ends.
pub proof fn lemma_run_end_resume(s: Seq<char>, pos: int, mid: int, class: CharClass)
    requires
        0 <= pos <= mid <= s.len(),
        forall|i: int| pos <= i < mid ==> in_class(class, #[trigger] s[i]),
    ensures
        run_end(s, pos, class) == run_end(s, mid, class),
    decreases mid - pos,
{
    if pos < mid {
        lemma_run_end_resume(s, pos + 1, mid, class);
    }
}

/// A step that yields a token moves the cursor forward, and no step moves
/// it past the end of the text.
pub proof fn lemma_lex_step_advances(s: Seq<char>, pos: int)
    ensures
        lex_step(s, pos).result matches Ok(Some(_)) ==> pos < lex_step(s, pos).next <= s.len(),
        0 <= pos <= s.len() ==> pos <= lex_step(s, pos).next <= s.len(),
{
    if 0 <= pos <= s.len() {
        lemma_run_end(s, pos, CharClass::Whitespace);
        let p = run_end(s, pos, CharClass::Whitespace);
        if p < s.len() {
            lemma_run_end(s, p, CharClass::Digit);
            lemma_run_end(s, p + 1, CharClass::IdentifierPart);
            lemma_run_end(s, p + 1, CharClass::StringBody);
        }
    }
}

/// A cursor over the characters of a source text.
pub struct Lexer {
    input: Vec<char>,
    position: usize,
}

/// The mathematical content of a [`Lexer`]: the text and the cursor.
pub ghost struct LexerView {
    pub input: Seq<char>,
    pub position: int,
}

impl View for Lexer {
    type V = LexerView;

    closed spec fn view(&self) -> LexerView {
        LexerView { input: self.input@, position: self.position as int }
    }
}

/// The contents of what a step of the lexer returned.
pub open spec fn lexed_view(r: Result<Option<Token>, LexError>) -> Result<
    Option<TokenView>,
    LexError,
> {
    match r {
        Ok(Some(token)) => Ok(Some(token@)),
        Ok(None) => Ok(None),
        Err(e) => Err(e),
    }
}

/// The contents of a text that the lexer returned.
pub open spec fn text_view(r: Result<String, LexError>) -> Result<Seq<char>, LexError> {
    match r {
        Ok(text) => Ok(text@),
        Err(e) => Err(e),
    }
}

fn in_class_char(class: CharClass, c: char) -> (r: bool)
    ensures
        r == in_class(class, c),
{
    match class {
        CharClass::Whitespace => c.is_whitespace(),
        CharClass::IdentifierPart => is_identifier_part_char(c),
        CharClass::Digit => is_digit_char(c),
        CharClass::StringBody => c != '"',
    }
}

impl Lexer {
    #[verifier::type_invariant]
    spec fn cursor_in_text(self) -> bool {
        self.position <= self.input.len()
    }

    /// A lexer at the beginning of `input`.
    pub fn new(input: &str) -> (r: Self)
        ensures
            r@.input == input@,
            r@.position == 0,
    {
        Lexer { input: chars_of(input), position: 0 }
    }

    /// The index of the character under the cursor.
    pub fn position(&self) -> (p: usize)
        ensures
            p == self@.position,
            p <= self@.input.len(),
    {
        proof {
            use_type_invariant(self);
        }
        self.position
    }

    /// The character under the cursor, which then moves past it; `None` at
    /// the end of the text, where the cursor stays.
    pub fn advance(&mut self) -> (r: Option<char>)
        ensures
            final(self)@.input == old(self)@.input,
            old(self)@.position < old(self)@.input.len() ==> r == Some(
                old(self)@.input[old(self)@.position],
            ) && final(self)@.position == old(self)@.position + 1,
            old(self)@.position >= old(self)@.input.len() ==> r is None && final(self)@ == old(self)@,
    {
        proof {
            use_type_invariant(&*self);
        }
        if self.position < self.input.len() {
            let c: char = self.input[self.position];
            self.position = self.position + 1;
            Some(c)
        } else {
            None
        }
    }

    /// The character under the cursor; `None` at the end of the text.
    pub fn peek(&self) -> (r: Option<char>)
        ensures
            r == (if self@.position < self@.input.len() {
                Some(self@.input[self@.position])
            } else {
                None::<char>
            }),
    {
        if self.position < self.input.len() {
            Some(self.input[self.position])
        } else {
            None
        }
    }

    /// Moves the cursor to the end of the run of `class` characters that
    /// begins under it.
    fn skip_run(&mut self, class: CharClass)
        ensures
            final(self)@.input == old(self)@.input,
            final(self)@.position == run_end(old(self)@.input, old(self)@.position, class),
            old(self)@.position <= final(self)@.position <= old(self)@.input.len(),
    {
        proof {
            use_type_invariant(&*self);
        }
        let ghost start = self.position as int;
        while self.position < self.input.len() && in_class_char(class, self.input[self.position])
            invariant
                self.input@ == old(self).input@,
                start == old(self).position,
                start <= self.position <= self.input.len(),
                forall|i: int| start <= i < self.position ==> in_class(class, #[trigger] self.input@[i]),
            decreases self.input.len() - self.position,
        {
            self.position = self.position + 1;
        }
        proof {
            lemma_run_end_resume(self.input@, start, self.position as int, class);
        }
    }

    /// Moves the cursor past the white space under it.
    pub fn skip_whitespace(&mut self)
        ensures
            final(self)@.input == old(self)@.input,
            final(self)@.position == run_end(
                old(self)@.input,
                old(self)@.position,
                CharClass::Whitespace,
            ),
    {
        self.skip_run(CharClass::Whitespace);
    }

    /// Reads the longest run of alphanumerics and underscores under the
    /// cursor, which moves to its end. The run may be empty.
    pub fn read_identifier(&mut self) -> (r: String)
        ensures
            final(self)@.input == old(self)@.input,
            final(self)@.position == run_end(
                old(self)@.input,
                old(self)@.position,
                CharClass::IdentifierPart,
            ),
            r@ == old(self)@.input.subrange(old(self)@.position, final(self)@.position),
    {
        let start: usize = self.position;
        self.skip_run(CharClass::IdentifierPart);
        text_of(&self.input, start, self.position)
    }

    /// Reads the number under the cursor, as [`number_step`] describes.
    pub fn read_number(&mut self) -> (r: Result<i32, LexError>)
        ensures
            final(self)@.input == old(self)@.input,
            (r, final(self)@.position) == number_step(old(self)@.input, old(self)@.position),
    {
        let start: usize = self.position;
        self.skip_run(CharClass::Digit);
        proof {
            use_type_invariant(&*self);
            lemma_run_end(self.input@, start as int, CharClass::Digit);
        }
        if start < self.position {
            match parse_decimal(&self.input, start, self.position) {
                Some(value) => {
                    return Ok(value);
                },
                None => {},
            }
        }
        self.position = start;
        Err(LexError { kind: LexErrorKind::MalformedNumber, position: start })
    }

    /// Reads the string literal under the cursor, as [`string_step`]
    /// describes.
    pub fn read_string(&mut self) -> (r: Result<String, LexError>)
        ensures
            final(self)@.input == old(self)@.input,
            (text_view(r), final(self)@.position) == string_step(
                old(self)@.input,
                old(self)@.position,
            ),
    {
        proof {
            use_type_invariant(&*self);
        }
        let start: usize = self.position;
        if start < self.input.len() {
            self.position = start + 1;
            self.skip_run(CharClass::StringBody);
            proof {
                use_type_invariant(&*self);
            }
            if self.position < self.input.len() {
                let text: String = text_of(&self.input, start + 1, self.position);
                self.position = self.position + 1;
                return Ok(text);
            }
            self.position = start;
        }
        Err(LexError { kind: LexErrorKind::UnterminatedString, position: start })
    }

    /// Whether the character after the cursor is `c`.
    fn next_is(&self, c: char) -> (r: bool)
        ensures
            r == followed_by(self@.input, self@.position, c),
    {
        proof {
            use_type_invariant(self);
        }
        self.position < self.input.len() && self.position + 1 < self.input.len()
            && self.input[self.position + 1] == c
    }

    /// Moves the cursor `n` characters forward and returns `token`.
    fn take(&mut self, n: usize, token: Token) -> (r: Result<Option<Token>, LexError>)
        requires
            1 <= n <= 2,
            old(self)@.position + n <= old(self)@.input.len(),
        ensures
            final(self)@.input == old(self)@.input,
            final(self)@.position == old(self)@.position + n,
            r == Ok::<Option<Token>, LexError>(Some(token)),
    {
        proof {
            use_type_invariant(&*self);
        }
        self.position = self.position + n;
        Ok(Some(token))
    }

    /// Either the two-character operator `long`, when `second` follows the
    /// cursor, or else what a single character gives.
    fn take_pair(&mut self, second: char, long: Token, short: Option<Token>) -> (r: Result<
        Option<Token>,
        LexError,
    >)
        requires
            old(self)@.position < old(self)@.input.len(),
        ensures
            final(self)@.input == old(self)@.input,
            followed_by(old(self)@.input, old(self)@.position, second) ==> r == Ok::<
                Option<Token>,
                LexError,
            >(Some(long)) && final(self)@.position == old(self)@.position + 2,
            !followed_by(old(self)@.input, old(self)@.position, second) ==> match short {
                Some(token) => r == Ok::<Option<Token>, LexError>(Some(token)) && final(self)@.position == old(self)@.position + 1,
                None => r == Err::<Option<Token>, LexError>(
                    LexError {
                        kind: LexErrorKind::UnexpectedCharacter,
                        position: old(self)@.position as usize,
                    },
                ) && final(self)@.position == old(self)@.position,
            },
    {
        if self.next_is(second) {
            self.take(2, long)
        } else {
            match short {
                Some(token) => self.take(1, token),
                None => Err(
                    LexError { kind: LexErrorKind::UnexpectedCharacter, position: self.position },
                ),
            }
        }
    }

    /// The word that begins under the cursor, as a token.
    fn read_word(&mut self) -> (r: Token)
        requires
            old(self)@.position < old(self)@.input.len(),
        ensures
            final(self)@.input == old(self)@.input,
            final(self)@.position == run_end(
                old(self)@.input,
                old(self)@.position + 1,
                CharClass::IdentifierPart,
            ),
            r@ == word_token(
                old(self)@.input.subrange(old(self)@.position, final(self)@.position),
            ),
    {
        proof {
            use_type_invariant(&*self);
        }
        let start: usize = self.position;
        self.position = start + 1;
        self.skip_run(CharClass::IdentifierPart);
        proof {
            use_type_invariant(&*self);
        }
        let end: usize = self.position;
        if spells(&self.input, start, end, "variable") {
            Token::Variable
        } else if spells(&self.input, start, end, "integer") {
            Token::Integer
        } else if spells(&self.input, start, end, "boolean") {
            Token::Boolean
        } else if spells(&self.input, start, end, "loop") {
            Token::Loop
        } else if spells(&self.input, start, end, "function") {
            Token::Function
        } else if spells(&self.input, start, end, "return") {
            Token::Return
        } else if spells(&self.input, start, end, "true") {
            Token::BooleanLiteral(true)
        } else if spells(&self.input, start, end, "false") {
            Token::BooleanLiteral(false)
        } else if spells(&self.input, start, end, "if") {
            Token::If
        } else if spells(&self.input, start, end, "else") {
            Token::Else
        } else if spells(&self.input, start, end, "print") {
            Token::Print
        } else if spells(&self.input, start, end, "call") {
            Token::Call
        } else {
            Token::Identifier(text_of(&self.input, start, end))
        }
    }

    /// The next token, `Ok(None)` at the end of the text, or the failure
    /// that stands in the way, as [`lex_step`] describes. The cursor moves
    /// past the token; on a failure it stays at the offending character.
    pub fn next_token(&mut self) -> (r: Result<Option<Token>, LexError>)
        ensures
            final(self)@.input == old(self)@.input,
            lex_step(old(self)@.input, old(self)@.position) == (LexStep {
                result: lexed_view(r),
                next: final(self)@.position,
            }),
            r matches Ok(Some(_)) ==> old(self)@.position < final(self)@.position,
            final(self)@.position <= final(self)@.input.len(),
    {
        proof {
            use_type_invariant(&*self);
            lemma_lex_step_advances(self@.input, self@.position);
        }
        self.skip_run(CharClass::Whitespace);
        proof {
            use_type_invariant(&*self);
        }
        if self.position >= self.input.len() {
            return Ok(None);
        }
        let c: char = self.input[self.position];
        if c == '=' {
            self.take_pair('=', Token::Equals, Some(Token::Assign))
        } else if c == '!' {
            self.take_pair('=', Token::NotEquals, Some(Token::Not))
        } else if c == '<' {
            self.take_pair('=', Token::LessThanOrEqual, Some(Token::LessThan))
        } else if c == '>' {
            self.take_pair('=', Token::GreaterThanOrEqual, Some(Token::GreaterThan))
        } else if c == '&' {
            self.take_pair('&', Token::And, None)
        } else if c == '|' {
            self.take_pair('|', Token::Or, None)
        } else if c == '+' {
            self.take(1, Token::Plus)
        } else if c == '-' {
            self.take(1, Token::Minus)
        } else if c == '*' {
            self.take(1, Token::Multiply)
        } else if c == '/' {
            self.take(1, Token::Divide)
        } else if c == '%' {
            self.take(1, Token::Modulo)
        } else if c == '(' {
            self.take(1, Token::LParen)
        } else if c == ')' {
            self.take(1, Token::RParen)
        } else if c == '{' {
            self.take(1, Token::LBrace)
        } else if c == '}' {
            self.take(1, Token::RBrace)
        } else if c == ';' {
            self.take(1, Token::Semicolon)
        } else if c == ',' {
            self.take(1, Token::Comma)
        } else if is_digit_char(c) {
            match self.read_number() {
                Ok(value) => Ok(Some(Token::IntegerLiteral(value))),
                Err(e) => Err(e),
            }
        } else if is_identifier_start_char(c) {
            Ok(Some(self.read_word()))
        } else if c == '"' {
            match self.read_string() {
                Ok(text) => Ok(Some(Token::StringLiteral(text))),
                Err(e) => Err(e),
            }
        } else {
            Err(LexError { kind: LexErrorKind::UnexpectedCharacter, position: self.position })
        }
    }
}

} // verus!
