//! Syntax errors, as values.

use crate::span::Span;
use vstd::prelude::*;

verus! {

/// What is wrong with a piece of source text.
#[derive(Clone, Copy, Debug, PartialEq, Eq, Structural, Hash)]
pub enum SyntaxError {
    /// A legacy octal literal or escape where strict rules hold.
    LegacyOctal,
    /// A decimal literal with a leading zero where strict rules hold.
    LegacyDecimal,
    /// An HTML-style comment in a module.
    LegacyCommentInModule,
    /// A reserved word as a shorthand property or a shorthand binding.
    ReservedWordInObjShorthandOrPat,
    /// A token that the grammar does not allow at its place.
    Unexpected,
    /// The input ended inside a construct.
    Eof,
    /// A character that starts no token.
    UnexpectedChar { c: char },
    /// A block comment without its end.
    UnterminatedBlockComment,
    /// A string literal without its closing quote.
    UnterminatedStrLit,
    /// A regular expression without its closing slash.
    UnterminatedRegxp,
    /// A template without its closing backtick.
    UnterminatedTpl,
    /// A digit of the given radix was expected.
    ExpectedDigit { radix: u32 },
    /// An exponent mark without digits after it.
    NumLitTerminatedWithExp,
    /// An identifier directly after a numeric literal.
    IdentAfterNum,
    /// An escape whose hexadecimal digits are missing or incomplete.
    ExpectedHexChars { count: u32 },
    /// A brace escape without its closing brace.
    UnterminatedUnicodeEscape,
    /// An escape that names no Unicode scalar value.
    InvalidCodePoint,
    /// A backslash in an identifier that starts no unicode escape.
    ExpectedUnicodeEscape,
    /// An escaped character that may not stand at its place in an identifier.
    InvalidIdentChar,
    /// A keyword spelled with an escape.
    EscapeInReservedWord,
}

/// A syntax error with the place it was found at.
#[derive(Clone, Copy, Debug, PartialEq, Eq, Structural, Hash)]
pub struct Error {
    pub span: Span,
    pub error: SyntaxError,
}

} // verus!
