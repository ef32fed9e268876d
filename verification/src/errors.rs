//! Parse errors. A single bad token aborts the whole parse; there is no
//! recovery or continuation past the first failure.

use vstd::prelude::*;

verus! {

use crate::token::{Token, TokenKind, TokenV};

/// Why a parse failed.
#[derive(Debug)]
pub enum MonkeyError {
    /// A structural token (identifier, `=`, `)`, `{`, ...) was required and
    /// something else was found.
    UnexpectedToken(TokenKind, Token),
    /// The token at hand can begin no expression.
    InvalidToken(Token),
    /// An integer literal does not fit in an `i64`.
    InvalidInteger(Token),
    /// Nesting exceeded the parser's step budget; stands in for the call-stack
    /// exhaustion that unbounded nesting would otherwise cause.
    RecursionLimit,
}

/// Specification-level mirror of a [`MonkeyError`].
pub enum ErrV {
    UnexpectedToken(TokenKind, TokenV),
    InvalidToken(TokenV),
    InvalidInteger(TokenV),
    RecursionLimit,
}

impl DeepView for MonkeyError {
    type V = ErrV;

    open spec fn deep_view(&self) -> ErrV {
        match self {
            MonkeyError::UnexpectedToken(kind, token) => ErrV::UnexpectedToken(
                *kind,
                token.deep_view(),
            ),
            MonkeyError::InvalidToken(token) => ErrV::InvalidToken(token.deep_view()),
            MonkeyError::InvalidInteger(token) => ErrV::InvalidInteger(token.deep_view()),
            MonkeyError::RecursionLimit => ErrV::RecursionLimit,
        }
    }
}

} // verus!
