//! Tokens: the unit of input the parser consumes. A token pairs a kind with
//! the literal text it was scanned from.

use vstd::prelude::*;

verus! {

use crate::ast::Precedence;
use crate::text::str_eq;

/// The closed set of token kinds the lexer can produce.
#[derive(Debug, Clone, Copy, PartialEq, Eq, Structural)]
pub enum TokenKind {
    Illegal,
    Eof,
    Ident,
    Int,
    Assign,
    Plus,
    Minus,
    Slash,
    Aster,
    Bang,
    Semicolon,
    Rparen,
    Lparen,
    Rbrace,
    Lbrace,
    Comma,
    Let,
    Function,
    True,
    False,
    If,
    Else,
    Return,
    GreaterThan,
    LessThan,
    Equal,
    NotEqual,
}

/// A scanned token: its kind and the literal text it came from.
#[derive(Debug, PartialEq)]
pub struct Token {
    pub kind: TokenKind,
    pub literal: String,
}

/// Specification-level mirror of a [`Token`]: the literal as a `Seq<char>`.
pub struct TokenV {
    pub kind: TokenKind,
    pub literal: Seq<char>,
}

impl DeepView for Token {
    type V = TokenV;

    open spec fn deep_view(&self) -> TokenV {
        TokenV { kind: self.kind, literal: self.literal@ }
    }
}

impl Clone for Token {
    fn clone(&self) -> (r: Self)
        ensures
            r.deep_view() == self.deep_view(),
    {
        Token { kind: self.kind, literal: self.literal.clone() }
    }
}

/// The token kind a scanned word denotes: a keyword's kind, or `Ident`.
pub open spec fn keyword_kind(word: Seq<char>) -> TokenKind {
    if word == "let"@ {
        TokenKind::Let
    } else if word == "fn"@ {
        TokenKind::Function
    } else if word == "if"@ {
        TokenKind::If
    } else if word == "else"@ {
        TokenKind::Else
    } else if word == "return"@ {
        TokenKind::Return
    } else if word == "false"@ {
        TokenKind::False
    } else if word == "true"@ {
        TokenKind::True
    } else {
        TokenKind::Ident
    }
}

/// Classifies a scanned word as a keyword or a plain identifier.
#[allow(non_snake_case)]
pub fn look_up_Ident(ident: &str) -> (kind: TokenKind)
    ensures
        kind == keyword_kind(ident@),
{
    if str_eq(ident, "let") {
        TokenKind::Let
    } else if str_eq(ident, "fn") {
        TokenKind::Function
    } else if str_eq(ident, "if") {
        TokenKind::If
    } else if str_eq(ident, "else") {
        TokenKind::Else
    } else if str_eq(ident, "return") {
        TokenKind::Return
    } else if str_eq(ident, "false") {
        TokenKind::False
    } else if str_eq(ident, "true") {
        TokenKind::True
    } else {
        TokenKind::Ident
    }
}

/// The infix binding power of a token kind; kinds that begin no infix
/// expression bind lowest.
pub open spec fn precedence_of(kind: TokenKind) -> Precedence {
    match kind {
        TokenKind::Equal => Precedence::Equals,
        TokenKind::NotEqual => Precedence::Equals,
        TokenKind::LessThan => Precedence::Lessgreater,
        TokenKind::GreaterThan => Precedence::Lessgreater,
        TokenKind::Plus => Precedence::Sum,
        TokenKind::Minus => Precedence::Sum,
        TokenKind::Slash => Precedence::Product,
        TokenKind::Aster => Precedence::Product,
        TokenKind::Lparen => Precedence::Call,
        _ => Precedence::Lowest,
    }
}

impl Token {
    /// The binding power this token has when it appears in infix position.
    pub fn get_precedence(&self) -> (p: Precedence)
        ensures
            p == precedence_of(self.kind),
    {
        match self.kind {
            TokenKind::Equal => Precedence::Equals,
            TokenKind::NotEqual => Precedence::Equals,
            TokenKind::LessThan => Precedence::Lessgreater,
            TokenKind::GreaterThan => Precedence::Lessgreater,
            TokenKind::Plus => Precedence::Sum,
            TokenKind::Minus => Precedence::Sum,
            TokenKind::Slash => Precedence::Product,
            TokenKind::Aster => Precedence::Product,
            TokenKind::Lparen => Precedence::Call,
            _ => Precedence::Lowest,
        }
    }
}

} // verus!
