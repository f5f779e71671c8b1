//! String literals and the escapes inside them.

use crate::chars::{digit_value, is_decimal_digit, is_line_break, spec_digit_value,
    spec_is_decimal_digit, spec_is_line_break};
use crate::error::SyntaxError;
use crate::lexer::cursor::{at, is_at, peek};
use crate::lexer::escape::{hex_digits, lemma_hex_run, read_hex_digits, read_unicode_escape,
    scalar_char, unicode_escape, Escape, EscapeAt, Escaped};
use crate::lexer::scan::{Lexeme, LexemeAt, Scan, ScanAt};
use crate::text::string_from_chars;
use crate::token::{Token, TokenView};
use vstd::prelude::*;

verus! {

/// The value of the character with index `i` as an octal digit, if it is one.
pub open spec fn octal_at(src: Seq<char>, i: int) -> Option<u32> {
    if 0 <= i < src.len() {
        spec_digit_value(src[i], 8)
    } else {
        None
    }
}

/// The legacy octal escape whose first digit stands at `i`: up to three
/// octal digits that amount to at most 255. A lone `0` that no decimal digit
/// follows is the null character everywhere; any other form is an error
/// under strict rules.
pub open spec fn octal_escape(src: Seq<char>, i: int, strict: bool) -> Escape {
    let d1 = octal_at(src, i);
    let d2 = octal_at(src, i + 1);
    let d3 = octal_at(src, i + 2);
    let (n, value): (int, int) = match (d1, d2, d3) {
        (Some(a), Some(b), Some(c)) => if a <= 3 {
            (3, a * 64 + b * 8 + c)
        } else {
            (2, a * 8 + b)
        },
        (Some(a), Some(b), None) => (2, a * 8 + b),
        (Some(a), None, _) => (1, a as int),
        (None, _, _) => (1, 0),
    };
    if n == 1 && value == 0 && !(0 <= i + 1 < src.len() && spec_is_decimal_digit(src[i + 1])) {
        Escape { end: i + 1, value: Escaped::Char('\0') }
    } else if strict {
        Escape { end: i + n, value: Escaped::Bad(SyntaxError::LegacyOctal) }
    } else {
        Escape { end: i + n, value: scalar_char(value) }
    }
}

/// The escape whose backslash stands at `i`.
///
/// `\n`, `\r`, `\t`, `\b`, `\v` and `\f` name control characters; a
/// backslash before a line terminator joins two lines; `\x` takes two
/// hexadecimal digits; `\u` starts a unicode escape; an octal digit starts a
/// legacy octal escape; any other character stands for itself.
pub open spec fn char_escape(src: Seq<char>, i: int, strict: bool) -> Escape {
    if !(0 <= i + 1 < src.len()) {
        Escape { end: i + 1, value: Escaped::Bad(SyntaxError::Eof) }
    } else {
        let c = src[i + 1];
        if c == 'n' {
            Escape { end: i + 2, value: Escaped::Char('\n') }
        } else if c == 'r' {
            Escape { end: i + 2, value: Escaped::Char('\r') }
        } else if c == 't' {
            Escape { end: i + 2, value: Escaped::Char('\t') }
        } else if c == 'b' {
            Escape { end: i + 2, value: Escaped::Char('\u{8}') }
        } else if c == 'v' {
            Escape { end: i + 2, value: Escaped::Char('\u{B}') }
        } else if c == 'f' {
            Escape { end: i + 2, value: Escaped::Char('\u{C}') }
        } else if c == '\r' && is_at(src, i + 2, '\n') {
            Escape { end: i + 3, value: Escaped::Nothing }
        } else if spec_is_line_break(c) {
            Escape { end: i + 2, value: Escaped::Nothing }
        } else if c == 'x' {
            match hex_digits(src, i + 2, 2) {
                Some(v) => Escape { end: i + 4, value: scalar_char(v) },
                None => Escape {
                    end: i + 2,
                    value: Escaped::Bad(SyntaxError::ExpectedHexChars { count: 2 }),
                },
            }
        } else if c == 'u' {
            unicode_escape(src, i + 2)
        } else if spec_digit_value(c, 8) is Some {
            octal_escape(src, i + 1, strict)
        } else {
            Escape { end: i + 2, value: Escaped::Char(c) }
        }
    }
}

/// The value of the character `k` places after `i` as an octal digit.
fn read_octal_at(src: &Vec<char>, i: usize, k: usize) -> (d: Option<u32>)
    requires
        i <= src.len(),
    ensures
        d == octal_at(src@, i + k),
        d is Some ==> d->0 < 8 && i + k < src.len(),
{
    match peek(src, i, k) {
        Some(c) => digit_value(c, 8),
        None => None,
    }
}

/// Reads the legacy octal escape whose first digit stands at `i`.
fn read_octal_escape(src: &Vec<char>, i: usize, strict: bool) -> (r: EscapeAt)
    requires
        i < src.len(),
        spec_digit_value(src@[i as int], 8) is Some,
    ensures
        r@ == octal_escape(src@, i as int, strict),
        i < r.end <= src.len(),
{
    let d1 = read_octal_at(src, i, 0);
    let d2 = read_octal_at(src, i, 1);
    let d3 = read_octal_at(src, i, 2);
    let (n, value): (usize, u32) = match (d1, d2, d3) {
        (Some(a), Some(b), Some(c)) => if a <= 3 {
            (3, a * 64 + b * 8 + c)
        } else {
            (2, a * 8 + b)
        },
        (Some(a), Some(b), None) => (2, a * 8 + b),
        (Some(a), None, _) => (1, a),
        (None, _, _) => (1, 0),
    };
    let digit_follows = match peek(src, i, 1) {
        Some(c) => is_decimal_digit(c),
        None => false,
    };
    if n == 1 && value == 0 && !digit_follows {
        EscapeAt { end: i + 1, value: Escaped::Char('\0') }
    } else if strict {
        EscapeAt { end: i + n, value: Escaped::Bad(SyntaxError::LegacyOctal) }
    } else {
        match char::from_u32(value) {
            Some(c) => EscapeAt { end: i + n, value: Escaped::Char(c) },
            None => EscapeAt { end: i + n, value: Escaped::Bad(SyntaxError::InvalidCodePoint) },
        }
    }
}

/// Reads the escape whose backslash stands at `i`.
pub fn read_char_escape(src: &Vec<char>, i: usize, strict: bool) -> (r: EscapeAt)
    requires
        i < src.len(),
    ensures
        r@ == char_escape(src@, i as int, strict),
        i < r.end <= src.len(),
{
    match peek(src, i, 1) {
        None => EscapeAt { end: i + 1, value: Escaped::Bad(SyntaxError::Eof) },
        Some(c) => {
            if c == 'n' {
                EscapeAt { end: i + 2, value: Escaped::Char('\n') }
            } else if c == 'r' {
                EscapeAt { end: i + 2, value: Escaped::Char('\r') }
            } else if c == 't' {
                EscapeAt { end: i + 2, value: Escaped::Char('\t') }
            } else if c == 'b' {
                EscapeAt { end: i + 2, value: Escaped::Char('\u{8}') }
            } else if c == 'v' {
                EscapeAt { end: i + 2, value: Escaped::Char('\u{B}') }
            } else if c == 'f' {
                EscapeAt { end: i + 2, value: Escaped::Char('\u{C}') }
            } else if c == '\r' && at(src, i, 2, '\n') {
                EscapeAt { end: i + 3, value: Escaped::Nothing }
            } else if is_line_break(c) {
                EscapeAt { end: i + 2, value: Escaped::Nothing }
            } else if c == 'x' {
                match read_hex_digits(src, i + 2, 2) {
                    Some(v) => match char::from_u32(v) {
                        Some(ch) => EscapeAt { end: i + 4, value: Escaped::Char(ch) },
                        None => EscapeAt {
                            end: i + 4,
                            value: Escaped::Bad(SyntaxError::InvalidCodePoint),
                        },
                    },
                    None => EscapeAt {
                        end: i + 2,
                        value: Escaped::Bad(SyntaxError::ExpectedHexChars { count: 2 }),
                    },
                }
            } else if c == 'u' {
                read_unicode_escape(src, i + 2)
            } else if digit_value(c, 8).is_some() {
                read_octal_escape(src, i + 1, strict)
            } else {
                EscapeAt { end: i + 2, value: Escaped::Char(c) }
            }
        },
    }
}

/// An escape stops within the text, after its backslash.
pub proof fn lemma_char_escape(src: Seq<char>, i: int, strict: bool)
    requires
        0 <= i < src.len(),
    ensures
        i < char_escape(src, i, strict).end <= src.len(),
{
    if 0 <= i + 1 < src.len() {
        let c = src[i + 1];
        if c == 'x' {
            lemma_hex_digits_some(src, i + 2, 2);
        }
        if c == 'u' {
            if is_at(src, i + 2, '{') {
                lemma_hex_run(src, i + 3, 0);
            }
            lemma_hex_digits_some(src, i + 2, 4);
        }
    }
}

/// Digits that are there lie within the text.
pub proof fn lemma_hex_digits_some(src: Seq<char>, i: int, n: nat)
    requires
        0 <= i,
    ensures
        hex_digits(src, i, n) is Some ==> i + n <= src.len() || n == 0,
    decreases n,
{
    if n > 0 {
        lemma_hex_digits_some(src, i, (n - 1) as nat);
    }
}

/// Reads the inside of a string literal from `i` on, up to the closing
/// `quote`, after characters that decode to `acc`; `esc` tells whether an
/// escape was among them.
///
/// The literal ends in an error at an unescaped line feed or carriage
/// return, at the end of the text, and at a malformed escape.
pub open spec fn str_scan(
    src: Seq<char>,
    i: int,
    quote: char,
    strict: bool,
    acc: Seq<char>,
    esc: bool,
) -> Scan
    decreases src.len() - i,
    via str_scan_decreases
{
    if i < 0 || i >= src.len() {
        Scan { end: i, lexeme: Lexeme::Bad(SyntaxError::UnterminatedStrLit) }
    } else if src[i] == quote {
        Scan { end: i + 1, lexeme: Lexeme::Tok(TokenView::Str { value: acc, has_escape: esc }) }
    } else if src[i] == '\\' {
        let e = char_escape(src, i, strict);
        match e.value {
            Escaped::Char(c) => str_scan(src, e.end, quote, strict, acc.push(c), true),
            Escaped::Nothing => str_scan(src, e.end, quote, strict, acc, true),
            Escaped::Bad(err) => Scan { end: e.end, lexeme: Lexeme::Bad(err) },
        }
    } else if src[i] == '\n' || src[i] == '\r' {
        Scan { end: i, lexeme: Lexeme::Bad(SyntaxError::UnterminatedStrLit) }
    } else {
        str_scan(src, i + 1, quote, strict, acc.push(src[i]), esc)
    }
}

#[via_fn]
proof fn str_scan_decreases(
    src: Seq<char>,
    i: int,
    quote: char,
    strict: bool,
    acc: Seq<char>,
    esc: bool,
) {
    if 0 <= i < src.len() {
        lemma_char_escape(src, i, strict);
    }
}

/// The string literal whose opening quote stands at `i`.
pub open spec fn str_lit(src: Seq<char>, i: int, strict: bool) -> Scan {
    str_scan(src, i + 1, src[i], strict, Seq::empty(), false)
}

/// A string literal stops within the text, after its opening quote.
pub proof fn lemma_str_scan(
    src: Seq<char>,
    i: int,
    quote: char,
    strict: bool,
    acc: Seq<char>,
    esc: bool,
)
    requires
        0 <= i <= src.len(),
    ensures
        i <= str_scan(src, i, quote, strict, acc, esc).end <= src.len(),
        !(str_scan(src, i, quote, strict, acc, esc).lexeme is Regex),
    decreases src.len() - i,
{
    if i < src.len() && src[i] != quote {
        if src[i] == '\\' {
            lemma_char_escape(src, i, strict);
            let e = char_escape(src, i, strict);
            match e.value {
                Escaped::Char(c) => lemma_str_scan(src, e.end, quote, strict, acc.push(c), true),
                Escaped::Nothing => lemma_str_scan(src, e.end, quote, strict, acc, true),
                Escaped::Bad(err) => {},
            }
        } else if src[i] == '\n' || src[i] == '\r' {
        } else {
            lemma_str_scan(src, i + 1, quote, strict, acc.push(src[i]), esc);
        }
    }
}

/// Reads the string literal whose opening quote stands at `i`.
pub fn read_str(src: &Vec<char>, i: usize, strict: bool) -> (r: ScanAt)
    requires
        i < src.len(),
    ensures
        r@ == str_lit(src@, i as int, strict),
        i < r.end <= src.len(),
{
    let quote = src[i];
    let mut j: usize = i + 1;
    let mut acc: Vec<char> = Vec::new();
    let mut esc: bool = false;
    while j < src.len()
        invariant
            i < j <= src.len(),
            str_lit(src@, i as int, strict) == str_scan(
                src@,
                j as int,
                quote,
                strict,
                acc@,
                esc,
            ),
        decreases src.len() - j,
    {
        let c = src[j];
        if c == quote {
            let value = string_from_chars(&acc);
            return ScanAt {
                end: j + 1,
                lexeme: LexemeAt::Tok(Token::Str { value, has_escape: esc }),
            };
        } else if c == '\\' {
            let e = read_char_escape(src, j, strict);
            match e.value {
                Escaped::Char(ch) => {
                    acc.push(ch);
                },
                Escaped::Nothing => {},
                Escaped::Bad(err) => {
                    return ScanAt { end: e.end, lexeme: LexemeAt::Bad(err) };
                },
            }
            esc = true;
            j = e.end;
        } else if c == '\n' || c == '\r' {
            return ScanAt { end: j, lexeme: LexemeAt::Bad(SyntaxError::UnterminatedStrLit) };
        } else {
            acc.push(c);
            j += 1;
        }
    }
    ScanAt { end: j, lexeme: LexemeAt::Bad(SyntaxError::UnterminatedStrLit) }
}

} // verus!
