//! Numeric literals.

use crate::chars::{digit_value, is_ident_start, spec_digit_value, spec_is_decimal_digit,
    spec_is_ident_start};
use crate::error::SyntaxError;
use crate::lexer::cursor::{at, is_at, peek};
use crate::lexer::scan::{Lexeme, LexemeAt, Scan, ScanAt};
use crate::text::string_of;
use crate::token::{Number, NumberKind, NumberView, Token, TokenView};
use vstd::prelude::*;

verus! {

/// The first index from `i` on that holds no digit of the given radix.
pub open spec fn digits_end(src: Seq<char>, i: int, radix: u32) -> int
    decreases src.len() - i,
{
    if i < 0 || i >= src.len() {
        i
    } else if spec_digit_value(src[i], radix) is Some {
        digits_end(src, i + 1, radix)
    } else {
        i
    }
}

/// A run of digits stops within the text; all before its end are digits,
/// and the character at its end is none.
pub proof fn lemma_digits_end(src: Seq<char>, i: int, radix: u32)
    requires
        0 <= i <= src.len(),
    ensures
        i <= digits_end(src, i, radix) <= src.len(),
        forall|j: int|
            i <= j < digits_end(src, i, radix) ==> spec_digit_value(#[trigger] src[j], radix)
                is Some,
        digits_end(src, i, radix) < src.len() ==> spec_digit_value(
            src[digits_end(src, i, radix)],
            radix,
        ) is None,
    decreases src.len() - i,
{
    if i < src.len() && spec_digit_value(src[i], radix) is Some {
        lemma_digits_end(src, i + 1, radix);
    }
}

/// Finds the end of the run of digits that starts at `i`.
pub fn find_digits_end(src: &Vec<char>, i: usize, radix: u32) -> (e: usize)
    requires
        i <= src.len(),
    ensures
        e == digits_end(src@, i as int, radix),
        i <= e <= src.len(),
{
    let mut j: usize = i;
    while j < src.len() && digit_value(src[j], radix).is_some()
        invariant
            i <= j <= src.len(),
            digits_end(src@, i as int, radix) == digits_end(src@, j as int, radix),
        decreases src.len() - j,
    {
        j += 1;
    }
    j
}

/// The literal of the given kind that covers `[i, e)`, unless an
/// identifier follows it directly.
pub open spec fn number_lexeme(src: Seq<char>, i: int, e: int, kind: NumberKind) -> Scan {
    if 0 <= e < src.len() && (spec_is_ident_start(src[e]) || src[e] == '\\') {
        Scan { end: e, lexeme: Lexeme::Bad(SyntaxError::IdentAfterNum) }
    } else {
        Scan {
            end: e,
            lexeme: Lexeme::Tok(TokenView::Num(NumberView { kind, raw: src.subrange(i, e) })),
        }
    }
}

/// The radix that the letter after a leading zero announces.
pub open spec fn radix_mark(c: char) -> Option<(u32, NumberKind)> {
    if c == 'x' || c == 'X' {
        Some((16u32, NumberKind::Hex))
    } else if c == 'o' || c == 'O' {
        Some((8u32, NumberKind::Octal))
    } else if c == 'b' || c == 'B' {
        Some((2u32, NumberKind::Binary))
    } else {
        None
    }
}

/// Where the decimal literal that starts at `i` stops, or the index at
/// which an exponent lacks its digits: an optional integer part, an
/// optional fraction, an optional exponent.
pub open spec fn decimal_end(src: Seq<char>, i: int) -> Result<int, int> {
    let e1 = digits_end(src, i, 10);
    let e2 = if is_at(src, e1, '.') {
        digits_end(src, e1 + 1, 10)
    } else {
        e1
    };
    if is_at(src, e2, 'e') || is_at(src, e2, 'E') {
        let s = if is_at(src, e2 + 1, '+') || is_at(src, e2 + 1, '-') {
            e2 + 2
        } else {
            e2 + 1
        };
        let e3 = digits_end(src, s, 10);
        if e3 == s {
            Err(s)
        } else {
            Ok(e3)
        }
    } else {
        Ok(e2)
    }
}

/// The numeric literal that starts at `i`, which holds a digit, or a dot
/// before a digit.
///
/// A zero before `x`, `o` or `b` starts a literal of that radix. A zero
/// before more digits starts a legacy literal: octal if all its digits are
/// octal, else decimal; either is an error under strict rules, and covers
/// the whole literal. Anything else is a decimal literal.
pub open spec fn number(src: Seq<char>, i: int, strict: bool) -> Scan {
    let mark = if is_at(src, i, '0') && 0 <= i + 1 < src.len() {
        radix_mark(src[i + 1])
    } else {
        None
    };
    let legacy = is_at(src, i, '0') && 0 <= i + 1 < src.len() && spec_is_decimal_digit(
        src[i + 1],
    );
    match mark {
        Some((radix, kind)) => {
            let e = digits_end(src, i + 2, radix);
            if e == i + 2 {
                Scan { end: e, lexeme: Lexeme::Bad(SyntaxError::ExpectedDigit { radix }) }
            } else {
                number_lexeme(src, i, e, kind)
            }
        },
        None => if legacy && digits_end(src, i, 8) == digits_end(src, i, 10) {
            let e = digits_end(src, i, 10);
            if strict {
                Scan { end: e, lexeme: Lexeme::Bad(SyntaxError::LegacyOctal) }
            } else {
                number_lexeme(src, i, e, NumberKind::LegacyOctal)
            }
        } else {
            match decimal_end(src, i) {
                Ok(e) => if legacy && strict {
                    Scan { end: e, lexeme: Lexeme::Bad(SyntaxError::LegacyDecimal) }
                } else {
                    number_lexeme(src, i, e, NumberKind::Decimal)
                },
                Err(e) => Scan {
                    end: e,
                    lexeme: Lexeme::Bad(SyntaxError::NumLitTerminatedWithExp),
                },
            }
        },
    }
}

/// Whether a numeric literal starts at `i`.
pub open spec fn number_at(src: Seq<char>, i: int) -> bool {
    0 <= i < src.len() && (spec_is_decimal_digit(src[i]) || (src[i] == '.' && 0 <= i + 1
        < src.len() && spec_is_decimal_digit(src[i + 1])))
}

/// A numeric literal stops within the text, after its first character.
pub proof fn lemma_number(src: Seq<char>, i: int, strict: bool)
    requires
        number_at(src, i),
    ensures
        i < number(src, i, strict).end <= src.len(),
{
    lemma_digits_end(src, i, 10);
    lemma_digits_end(src, i, 8);
    if i + 2 <= src.len() {
        lemma_digits_end(src, i + 2, 16);
        lemma_digits_end(src, i + 2, 8);
        lemma_digits_end(src, i + 2, 2);
    }
    let e1 = digits_end(src, i, 10);
    if spec_is_decimal_digit(src[i]) {
        assert(digits_end(src, i, 10) == digits_end(src, i + 1, 10));
        lemma_digits_end(src, i + 1, 10);
    }
    if is_at(src, e1, '.') {
        lemma_digits_end(src, e1 + 1, 10);
        if e1 == i {
            assert(digits_end(src, i + 1, 10) == digits_end(src, i + 2, 10));
            lemma_digits_end(src, i + 2, 10);
        }
    }
    let e2 = if is_at(src, e1, '.') {
        digits_end(src, e1 + 1, 10)
    } else {
        e1
    };
    if is_at(src, e2, 'e') || is_at(src, e2, 'E') {
        if is_at(src, e2 + 1, '+') || is_at(src, e2 + 1, '-') {
            lemma_digits_end(src, e2 + 2, 10);
        } else {
            lemma_digits_end(src, e2 + 1, 10);
        }
    }
}

/// Builds the token of the given kind for `[i, e)`, unless an identifier
/// follows it directly.
fn finish_number(src: &Vec<char>, i: usize, e: usize, kind: NumberKind) -> (r: ScanAt)
    requires
        i <= e <= src.len(),
    ensures
        r@ == number_lexeme(src@, i as int, e as int, kind),
        r.end == e,
{
    let follows = match peek(src, e, 0) {
        Some(c) => is_ident_start(c) || c == '\\',
        None => false,
    };
    if follows {
        ScanAt { end: e, lexeme: LexemeAt::Bad(SyntaxError::IdentAfterNum) }
    } else {
        ScanAt {
            end: e,
            lexeme: LexemeAt::Tok(Token::Num(Number { kind, raw: string_of(src, i, e) })),
        }
    }
}

/// The radix that the letter after a leading zero announces.
fn read_radix_mark(c: char) -> (r: Option<(u32, NumberKind)>)
    ensures
        r == radix_mark(c),
{
    if c == 'x' || c == 'X' {
        Some((16u32, NumberKind::Hex))
    } else if c == 'o' || c == 'O' {
        Some((8u32, NumberKind::Octal))
    } else if c == 'b' || c == 'B' {
        Some((2u32, NumberKind::Binary))
    } else {
        None
    }
}

/// Finds where the decimal literal that starts at `i` stops.
fn find_decimal_end(src: &Vec<char>, i: usize) -> (r: Result<usize, usize>)
    requires
        i <= src.len(),
    ensures
        match r {
            Ok(e) => decimal_end(src@, i as int) == Ok::<int, int>(e as int) && i <= e
                <= src.len(),
            Err(e) => decimal_end(src@, i as int) == Err::<int, int>(e as int) && i <= e
                <= src.len(),
        },
{
    let e1 = find_digits_end(src, i, 10);
    let e2 = if at(src, e1, 0, '.') {
        find_digits_end(src, e1 + 1, 10)
    } else {
        e1
    };
    if at(src, e2, 0, 'e') || at(src, e2, 0, 'E') {
        let s = if at(src, e2, 1, '+') || at(src, e2, 1, '-') {
            e2 + 2
        } else {
            e2 + 1
        };
        let e3 = find_digits_end(src, s, 10);
        if e3 == s {
            Err(s)
        } else {
            Ok(e3)
        }
    } else {
        Ok(e2)
    }
}

/// Reads the numeric literal that starts at `i`.
pub fn read_number(src: &Vec<char>, i: usize, strict: bool) -> (r: ScanAt)
    requires
        number_at(src@, i as int),
    ensures
        r@ == number(src@, i as int, strict),
        i < r.end <= src.len(),
{
    proof {
        lemma_number(src@, i as int, strict);
    }
    let zero = src[i] == '0';
    let next = peek(src, i, 1);
    let mark = match next {
        Some(c) => if zero {
            read_radix_mark(c)
        } else {
            None
        },
        None => None,
    };
    let legacy = match next {
        Some(c) => zero && digit_value(c, 10).is_some(),
        None => false,
    };
    match mark {
        Some((radix, kind)) => {
            let e = find_digits_end(src, i + 2, radix);
            if e == i + 2 {
                ScanAt { end: e, lexeme: LexemeAt::Bad(SyntaxError::ExpectedDigit { radix }) }
            } else {
                finish_number(src, i, e, kind)
            }
        },
        None => {
            let e = find_digits_end(src, i, 10);
            if legacy && find_digits_end(src, i, 8) == e {
                if strict {
                    ScanAt { end: e, lexeme: LexemeAt::Bad(SyntaxError::LegacyOctal) }
                } else {
                    finish_number(src, i, e, NumberKind::LegacyOctal)
                }
            } else {
                match find_decimal_end(src, i) {
                    Ok(e) => if legacy && strict {
                        ScanAt { end: e, lexeme: LexemeAt::Bad(SyntaxError::LegacyDecimal) }
                    } else {
                        finish_number(src, i, e, NumberKind::Decimal)
                    },
                    Err(e) => ScanAt {
                        end: e,
                        lexeme: LexemeAt::Bad(SyntaxError::NumLitTerminatedWithExp),
                    },
                }
            }
        },
    }
}

} // verus!
