//! Escape sequences in strings, templates and identifiers.

use crate::chars::{digit_value, spec_digit_value};
use crate::error::SyntaxError;
use crate::lexer::cursor::{at, is_at, peek};
use vstd::prelude::*;
use vstd::utf8::is_scalar;

verus! {

/// One more than the largest code point.
pub const CODE_SPACE: u32 = 0x11_0000;

/// A run of hexadecimal digits: where it stops and what it amounts to.
pub struct HexRun {
    pub end: int,
    /// The value of the digits, or `CODE_SPACE` if it is that or more.
    pub value: int,
}

/// Reads hexadecimal digits from `i` on, after digits that amount to `acc`.
pub open spec fn hex_run(src: Seq<char>, i: int, acc: int) -> HexRun
    decreases src.len() - i,
{
    if i < 0 || i >= src.len() {
        HexRun { end: i, value: acc }
    } else {
        match spec_digit_value(src[i], 16) {
            Some(d) => hex_run(
                src,
                i + 1,
                if acc * 16 + d >= CODE_SPACE {
                    CODE_SPACE as int
                } else {
                    acc * 16 + d
                },
            ),
            None => HexRun { end: i, value: acc },
        }
    }
}

/// A run of hexadecimal digits stops within the text, at or after its start.
pub proof fn lemma_hex_run(src: Seq<char>, i: int, acc: int)
    requires
        0 <= i <= src.len(),
        0 <= acc <= CODE_SPACE,
    ensures
        i <= hex_run(src, i, acc).end <= src.len(),
        0 <= hex_run(src, i, acc).value <= CODE_SPACE,
    decreases src.len() - i,
{
    if i < src.len() {
        match spec_digit_value(src[i], 16) {
            Some(d) => {
                lemma_hex_run(
                    src,
                    i + 1,
                    if acc * 16 + d >= CODE_SPACE {
                        CODE_SPACE as int
                    } else {
                        acc * 16 + d
                    },
                );
            },
            None => {},
        }
    }
}

/// Reads hexadecimal digits from `i` on: where they stop, and their value
/// capped at `CODE_SPACE`.
pub fn read_hex_run(src: &Vec<char>, i: usize) -> (r: (usize, u32))
    requires
        i <= src.len(),
    ensures
        r.0 == hex_run(src@, i as int, 0).end,
        r.1 == hex_run(src@, i as int, 0).value,
        i <= r.0 <= src.len(),
        r.1 <= CODE_SPACE,
{
    let mut j: usize = i;
    let mut acc: u32 = 0;
    while j < src.len()
        invariant
            i <= j <= src.len(),
            acc <= CODE_SPACE,
            hex_run(src@, i as int, 0) == hex_run(src@, j as int, acc as int),
        decreases src.len() - j,
    {
        match digit_value(src[j], 16) {
            Some(d) => {
                let next: u32 = acc * 16 + d;
                acc = if next >= CODE_SPACE {
                    CODE_SPACE
                } else {
                    next
                };
                j += 1;
            },
            None => {
                return (j, acc);
            },
        }
    }
    (j, acc)
}

/// What an escape decodes to.
pub enum Escaped {
    /// One character.
    Char(char),
    /// Nothing: the escape joins two lines.
    Nothing,
    /// The escape is malformed.
    Bad(SyntaxError),
}

/// An escape: where it stops and what it decodes to.
pub struct Escape {
    pub end: int,
    pub value: Escaped,
}

/// The character with scalar value `v`, or the error for a value that is none.
pub open spec fn scalar_char(v: int) -> Escaped {
    if 0 <= v <= u32::MAX && is_scalar(v as u32) {
        Escaped::Char(v as u32 as char)
    } else {
        Escaped::Bad(SyntaxError::InvalidCodePoint)
    }
}

/// The value of exactly `n` hexadecimal digits at `i`, if they are there.
pub open spec fn hex_digits(src: Seq<char>, i: int, n: nat) -> Option<int>
    decreases n,
{
    if n == 0 {
        Some(0)
    } else {
        match hex_digits(src, i, (n - 1) as nat) {
            Some(v) => if 0 <= i + n - 1 < src.len() {
                match spec_digit_value(src[i + n - 1], 16) {
                    Some(d) => Some(v * 16 + d),
                    None => None,
                }
            } else {
                None
            },
            None => None,
        }
    }
}

/// The unicode escape whose `u` stands just before `i`: either four
/// hexadecimal digits, or any number of them in braces. It decodes to the
/// character with that scalar value.
pub open spec fn unicode_escape(src: Seq<char>, i: int) -> Escape {
    if is_at(src, i, '{') {
        let run = hex_run(src, i + 1, 0);
        if run.end == i + 1 {
            Escape {
                end: i + 1,
                value: Escaped::Bad(SyntaxError::ExpectedHexChars { count: 1 }),
            }
        } else if !is_at(src, run.end, '}') {
            Escape { end: run.end, value: Escaped::Bad(SyntaxError::UnterminatedUnicodeEscape) }
        } else {
            Escape { end: run.end + 1, value: scalar_char(run.value) }
        }
    } else {
        match hex_digits(src, i, 4) {
            Some(v) => Escape { end: i + 4, value: scalar_char(v) },
            None => Escape {
                end: i,
                value: Escaped::Bad(SyntaxError::ExpectedHexChars { count: 4 }),
            },
        }
    }
}

/// An escape with machine indices.
pub struct EscapeAt {
    pub end: usize,
    pub value: Escaped,
}

impl View for EscapeAt {
    type V = Escape;

    open spec fn view(&self) -> Escape {
        Escape { end: self.end as int, value: self.value }
    }
}

/// The character with scalar value `v`, or the error for a value that is none.
fn to_scalar_char(v: u32) -> (e: Escaped)
    ensures
        e == scalar_char(v as int),
{
    match char::from_u32(v) {
        Some(c) => Escaped::Char(c),
        None => Escaped::Bad(SyntaxError::InvalidCodePoint),
    }
}

/// Reads exactly `n` hexadecimal digits at `i`.
pub fn read_hex_digits(src: &Vec<char>, i: usize, n: usize) -> (r: Option<u32>)
    requires
        i <= src.len(),
        n <= 4,
    ensures
        match r {
            Some(v) => hex_digits(src@, i as int, n as nat) == Some(v as int) && i + n
                <= src.len(),
            None => hex_digits(src@, i as int, n as nat) is None,
        },
{
    let mut k: usize = 0;
    let mut acc: u32 = 0;
    while k < n
        invariant
            k <= n <= 4,
            i <= src.len(),
            i + k <= src.len(),
            hex_digits(src@, i as int, k as nat) == Some(acc as int),
            acc < pow16(k as nat),
        decreases n - k,
    {
        let d = match peek(src, i, k) {
            Some(c) => digit_value(c, 16),
            None => None,
        };
        match d {
            Some(d) => {
                proof {
                    lemma_pow16(k as nat);
                }
                acc = acc * 16 + d;
                k += 1;
            },
            None => {
                proof {
                    lemma_hex_digits_none(src@, i as int, (k + 1) as nat, n as nat);
                }
                return None;
            },
        }
    }
    Some(acc)
}

/// Sixteen to the power `k`.
pub open spec fn pow16(k: nat) -> nat
    decreases k,
{
    if k == 0 {
        1
    } else {
        16 * pow16((k - 1) as nat)
    }
}

proof fn lemma_pow16(k: nat)
    requires
        k <= 4,
    ensures
        pow16(k) == (if k == 0 {
            1nat
        } else if k == 1 {
            16
        } else if k == 2 {
            256
        } else if k == 3 {
            4096
        } else {
            65536
        }),
        pow16(k + 1) == 16 * pow16(k),
    decreases k,
{
    if k > 0 {
        lemma_pow16((k - 1) as nat);
    }
}

/// Once some of the digits are missing, so are all the longer runs.
proof fn lemma_hex_digits_none(src: Seq<char>, i: int, k: nat, n: nat)
    requires
        k <= n,
        hex_digits(src, i, k) is None,
    ensures
        hex_digits(src, i, n) is None,
    decreases n,
{
    if k < n {
        lemma_hex_digits_none(src, i, k, (n - 1) as nat);
    }
}

/// Reads the unicode escape whose `u` stands just before `i`.
pub fn read_unicode_escape(src: &Vec<char>, i: usize) -> (r: EscapeAt)
    requires
        i <= src.len(),
    ensures
        r@ == unicode_escape(src@, i as int),
        i <= r.end <= src.len(),
        r.value is Char ==> i + 3 <= r.end,
{
    if at(src, i, 0, '{') {
        let (end, value) = read_hex_run(src, i + 1);
        if end == i + 1 {
            EscapeAt {
                end: i + 1,
                value: Escaped::Bad(SyntaxError::ExpectedHexChars { count: 1 }),
            }
        } else if !at(src, end, 0, '}') {
            EscapeAt { end, value: Escaped::Bad(SyntaxError::UnterminatedUnicodeEscape) }
        } else {
            EscapeAt { end: end + 1, value: to_scalar_char(value) }
        }
    } else {
        match read_hex_digits(src, i, 4) {
            Some(v) => EscapeAt { end: i + 4, value: to_scalar_char(v) },
            None => EscapeAt {
                end: i,
                value: Escaped::Bad(SyntaxError::ExpectedHexChars { count: 4 }),
            },
        }
    }
}

} // verus!
