//! What reading one token yields, before byte positions are attached.

use crate::error::SyntaxError;
use crate::token::{Token, TokenView};
use vstd::prelude::*;

verus! {

/// The mathematical value of a [`LexemeAt`].
pub enum Lexeme {
    /// A finished token.
    Tok(TokenView),
    /// A regular expression whose body stops at `body_end`, just before the
    /// closing slash.
    Regex { body_end: int },
    /// A malformed piece of text.
    Bad(SyntaxError),
}

/// The mathematical value of a [`ScanAt`].
pub struct Scan {
    /// The index after the last character read.
    pub end: int,
    pub lexeme: Lexeme,
}

/// What was read, before byte positions are attached.
pub enum LexemeAt {
    Tok(Token),
    Regex { body_end: usize },
    Bad(SyntaxError),
}

/// What was read and where reading stopped.
pub struct ScanAt {
    pub end: usize,
    pub lexeme: LexemeAt,
}

impl View for LexemeAt {
    type V = Lexeme;

    open spec fn view(&self) -> Lexeme {
        match *self {
            LexemeAt::Tok(t) => Lexeme::Tok(t@),
            LexemeAt::Regex { body_end } => Lexeme::Regex { body_end: body_end as int },
            LexemeAt::Bad(e) => Lexeme::Bad(e),
        }
    }
}

impl View for ScanAt {
    type V = Scan;

    open spec fn view(&self) -> Scan {
        Scan { end: self.end as int, lexeme: self.lexeme@ }
    }
}

} // verus!
