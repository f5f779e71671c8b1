//! Regular expression literals.

use crate::chars::{is_ident_part, is_line_break, spec_is_ident_part, spec_is_line_break};
use crate::error::SyntaxError;
use crate::lexer::scan::{Lexeme, LexemeAt, Scan, ScanAt};
use vstd::prelude::*;

verus! {

/// Where the body of a regular expression stops.
pub struct BodyEnd {
    /// The index of the closing slash, or of the place where the line or
    /// the text ends before one is found.
    pub end: int,
    /// Whether the closing slash was found.
    pub closed: bool,
}

/// Scans the body of a regular expression from `i` on; `in_class` tells
/// whether `i` stands inside a character class.
///
/// The body ends at the first slash that is neither escaped nor inside a
/// character class, and may not run over a line terminator.
pub open spec fn regex_body(src: Seq<char>, i: int, in_class: bool) -> BodyEnd
    decreases src.len() - i,
{
    if i < 0 || i >= src.len() {
        BodyEnd { end: i, closed: false }
    } else if spec_is_line_break(src[i]) {
        BodyEnd { end: i, closed: false }
    } else if src[i] == '\\' {
        if i + 1 < src.len() && !spec_is_line_break(src[i + 1]) {
            regex_body(src, i + 2, in_class)
        } else {
            BodyEnd { end: i + 1, closed: false }
        }
    } else if src[i] == '[' {
        regex_body(src, i + 1, true)
    } else if src[i] == ']' {
        regex_body(src, i + 1, false)
    } else if src[i] == '/' && !in_class {
        BodyEnd { end: i, closed: true }
    } else {
        regex_body(src, i + 1, in_class)
    }
}

/// The first index from `i` on that holds no identifier character.
pub open spec fn flags_end(src: Seq<char>, i: int) -> int
    decreases src.len() - i,
{
    if i < 0 || i >= src.len() {
        i
    } else if spec_is_ident_part(src[i]) {
        flags_end(src, i + 1)
    } else {
        i
    }
}

/// The regular expression whose opening slash stands at `i`: its body up
/// to the closing slash, then a run of identifier characters as flags.
pub open spec fn regex(src: Seq<char>, i: int) -> Scan {
    let b = regex_body(src, i + 1, false);
    if b.closed {
        Scan { end: flags_end(src, b.end + 1), lexeme: Lexeme::Regex { body_end: b.end } }
    } else {
        Scan { end: b.end, lexeme: Lexeme::Bad(SyntaxError::UnterminatedRegxp) }
    }
}

/// The body of a regular expression stops within the text; a closing
/// slash, if found, stands there.
pub proof fn lemma_regex_body(src: Seq<char>, i: int, in_class: bool)
    requires
        0 <= i <= src.len(),
    ensures
        i <= regex_body(src, i, in_class).end <= src.len(),
        regex_body(src, i, in_class).closed ==> regex_body(src, i, in_class).end < src.len(),
    decreases src.len() - i,
{
    if i < src.len() && !spec_is_line_break(src[i]) {
        if src[i] == '\\' {
            if i + 1 < src.len() && !spec_is_line_break(src[i + 1]) {
                lemma_regex_body(src, i + 2, in_class);
            }
        } else if src[i] == '[' {
            lemma_regex_body(src, i + 1, true);
        } else if src[i] == ']' {
            lemma_regex_body(src, i + 1, false);
        } else if src[i] == '/' && !in_class {
        } else {
            lemma_regex_body(src, i + 1, in_class);
        }
    }
}

/// A run of flags stops within the text, at or after its start.
pub proof fn lemma_flags_end(src: Seq<char>, i: int)
    requires
        0 <= i <= src.len(),
    ensures
        i <= flags_end(src, i) <= src.len(),
    decreases src.len() - i,
{
    if i < src.len() && spec_is_ident_part(src[i]) {
        lemma_flags_end(src, i + 1);
    }
}

/// A regular expression stops within the text, after its opening slash,
/// and its body lies between the two slashes.
pub proof fn lemma_regex(src: Seq<char>, i: int)
    requires
        0 <= i < src.len(),
    ensures
        i < regex(src, i).end <= src.len(),
        match regex(src, i).lexeme {
            Lexeme::Regex { body_end } => i + 1 <= body_end < regex(src, i).end,
            _ => true,
        },
{
    lemma_regex_body(src, i + 1, false);
    let b = regex_body(src, i + 1, false);
    if b.closed {
        lemma_flags_end(src, b.end + 1);
    }
}

/// Reads the regular expression whose opening slash stands at `i`.
pub fn read_regex(src: &Vec<char>, i: usize) -> (r: ScanAt)
    requires
        i < src.len(),
    ensures
        r@ == regex(src@, i as int),
        i < r.end <= src.len(),
        match r.lexeme {
            LexemeAt::Regex { body_end } => i + 1 <= body_end < r.end,
            _ => true,
        },
{
    proof {
        lemma_regex(src@, i as int);
    }
    let mut j: usize = i + 1;
    let mut in_class: bool = false;
    while j < src.len()
        invariant
            i < j <= src.len(),
            regex_body(src@, i + 1, false) == regex_body(src@, j as int, in_class),
        decreases src.len() - j,
    {
        let c = src[j];
        if is_line_break(c) {
            return ScanAt { end: j, lexeme: LexemeAt::Bad(SyntaxError::UnterminatedRegxp) };
        } else if c == '\\' {
            if j + 1 < src.len() && !is_line_break(src[j + 1]) {
                j += 2;
            } else {
                return ScanAt {
                    end: j + 1,
                    lexeme: LexemeAt::Bad(SyntaxError::UnterminatedRegxp),
                };
            }
        } else if c == '[' {
            in_class = true;
            j += 1;
        } else if c == ']' {
            in_class = false;
            j += 1;
        } else if c == '/' && !in_class {
            let body_end = j;
            let mut k: usize = j + 1;
            while k < src.len() && is_ident_part(src[k])
                invariant
                    body_end < k <= src.len(),
                    flags_end(src@, body_end + 1) == flags_end(src@, k as int),
                decreases src.len() - k,
            {
                k += 1;
            }
            return ScanAt { end: k, lexeme: LexemeAt::Regex { body_end } };
        } else {
            j += 1;
        }
    }
    ScanAt { end: j, lexeme: LexemeAt::Bad(SyntaxError::UnterminatedRegxp) }
}

} // verus!
