//! Tokens: what the scanner hands to the compiler stage. A token carries
//! a line number, a type tag, and a lexeme — a copy of the slice of the
//! source it was scanned from, or a static message for error tokens.

use vstd::prelude::*;
use vstd::string::StrSliceExecFns;

use crate::common::Line;
use crate::scanner::Scanner;

verus! {

/// A [`Token`], mathematically.
pub ghost struct TokenModel {
    pub token_type: TokenType,
    pub lexeme: Seq<char>,
    pub line: int,
}

pub struct Token {
    line: Line,
    token_type: TokenType,
    lexeme: String,
}

impl View for Token {
    type V = TokenModel;

    closed spec fn view(&self) -> TokenModel {
        TokenModel {
            token_type: self.token_type,
            lexeme: self.lexeme@,
            line: self.line as int,
        }
    }
}

impl Token {
    /// The token of the scanner's pending lexeme — the source text from
    /// the scanner's `start` cursor up to its `current` cursor — on the
    /// scanner's current line.
    pub fn new(token_type: TokenType, scanner: &Scanner) -> (t: Token)
        requires
            scanner.wf(),
        ensures
            t@ == (TokenModel {
                token_type: token_type,
                lexeme: scanner@.source.subrange(scanner@.start, scanner@.current),
                line: scanner@.line,
            }),
    {
        Token {
            line: scanner.line(),
            token_type,
            lexeme: scanner.source().substring_char(scanner.start(), scanner.current()).to_owned(),
        }
    }

    /// An error token: its lexeme is the static message, not source text.
    pub fn error(message: &'static str, scanner: &Scanner) -> (t: Token)
        ensures
            t@ == (TokenModel {
                token_type: TokenType::Error,
                lexeme: message@,
                line: scanner@.line,
            }),
    {
        Token { token_type: TokenType::Error, lexeme: message.to_owned(), line: scanner.line() }
    }

    /// The source line the token was scanned on.
    pub fn line(&self) -> (line: Line)
        ensures
            line == self@.line,
    {
        self.line
    }

    /// The token's type tag.
    pub fn token_type(&self) -> (token_type: &TokenType)
        ensures
            *token_type == self@.token_type,
    {
        &self.token_type
    }

    /// A copy of the token's lexeme.
    pub fn lexeme(&self) -> (lexeme: String)
        ensures
            lexeme@ == self@.lexeme,
    {
        self.lexeme.clone()
    }
}

#[derive(Clone, Copy, Debug, PartialEq, Eq, Structural)]
pub enum TokenType {
    Arithmetic(Arithmetic),
    Bitwise(Bitwise),
    Comparison(Comparison),
    Literal(Literal),
    Keyword(Keyword),
    Identifier,
    LeftParen,
    RightParen,
    LeftBrace,
    RightBrace,
    Comma,
    Dot,
    Semicolon,
    Error,
    Eof,
}

#[derive(Clone, Copy, Debug, PartialEq, Eq, Structural)]
pub enum Arithmetic {
    Minus,
    Plus,
    Slash,
    Times,
    Modulo,
}

#[derive(Clone, Copy, Debug, PartialEq, Eq, Structural)]
pub enum Bitwise {
    BAnd,
    BOr,
    BXor,
    LeftShift,
    RightShift,
    URightShift,
}

#[derive(Clone, Copy, Debug, PartialEq, Eq, Structural)]
pub enum Comparison {
    NotEqual,
    Equal,
    EqualEqual,
    Greater,
    GreaterEqual,
    Less,
    LessEqual,
}

#[derive(Clone, Copy, Debug, PartialEq, Eq, Structural)]
pub enum Literal {
    Str,
    Number,
}

#[derive(Clone, Copy, Debug, PartialEq, Eq, Structural)]
pub enum Keyword {
    And,
    Not,
    Or,
    Class,
    Else,
    False,
    Def,
    For,
    If,
    NoneKw,
    Return,
    Self_,
    True,
    Let,
    While,
    Lambda,
    Import,
}

} // verus!
