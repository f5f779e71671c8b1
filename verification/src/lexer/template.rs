//! Chunks of literal text inside templates.

use crate::error::SyntaxError;
use crate::lexer::cursor::{at, is_at};
use crate::lexer::escape::Escaped;
use crate::lexer::scan::{Lexeme, LexemeAt, Scan, ScanAt};
use crate::lexer::string::{char_escape, lemma_char_escape, read_char_escape};
use crate::text::string_from_chars;
use crate::token::{Token, TokenView};
use vstd::prelude::*;

verus! {

/// Whether a chunk of literal text ends at `i`: at a backtick or at `${`.
pub open spec fn chunk_ends_at(src: Seq<char>, i: int) -> bool {
    is_at(src, i, '`') || (is_at(src, i, '$') && is_at(src, i + 1, '{'))
}

/// Reads a chunk of literal text from `i` on, after characters that decode
/// to `acc`.
///
/// The chunk runs up to the next backtick or `${`, which it leaves in
/// place. Escapes decode as in a string under strict rules; a carriage
/// return, alone or before a line feed, counts as one line feed. A template
/// that the text ends in is an error.
pub open spec fn chunk_scan(src: Seq<char>, i: int, acc: Seq<char>) -> Scan
    decreases src.len() - i,
    via chunk_scan_decreases
{
    if i < 0 || i >= src.len() {
        Scan { end: i, lexeme: Lexeme::Bad(SyntaxError::UnterminatedTpl) }
    } else if chunk_ends_at(src, i) {
        Scan { end: i, lexeme: Lexeme::Tok(TokenView::Template(acc)) }
    } else if src[i] == '\\' {
        let e = char_escape(src, i, true);
        match e.value {
            Escaped::Char(c) => chunk_scan(src, e.end, acc.push(c)),
            Escaped::Nothing => chunk_scan(src, e.end, acc),
            Escaped::Bad(err) => Scan { end: e.end, lexeme: Lexeme::Bad(err) },
        }
    } else if src[i] == '\r' {
        if is_at(src, i + 1, '\n') {
            chunk_scan(src, i + 2, acc.push('\n'))
        } else {
            chunk_scan(src, i + 1, acc.push('\n'))
        }
    } else {
        chunk_scan(src, i + 1, acc.push(src[i]))
    }
}

#[via_fn]
proof fn chunk_scan_decreases(src: Seq<char>, i: int, acc: Seq<char>) {
    if 0 <= i < src.len() {
        lemma_char_escape(src, i, true);
    }
}

/// The chunk of literal text that starts at `i`.
pub open spec fn chunk(src: Seq<char>, i: int) -> Scan {
    chunk_scan(src, i, Seq::empty())
}

/// A chunk stops within the text, at or after where reading went on; a
/// chunk that is no error stops where a backtick or `${` stands.
pub proof fn lemma_chunk_scan(src: Seq<char>, i: int, acc: Seq<char>)
    requires
        0 <= i <= src.len(),
    ensures
        i <= chunk_scan(src, i, acc).end <= src.len(),
        chunk_scan(src, i, acc).lexeme is Tok ==> chunk_ends_at(
            src,
            chunk_scan(src, i, acc).end,
        ),
        !(chunk_scan(src, i, acc).lexeme is Regex),
        chunk_scan(src, i, acc).lexeme is Tok ==> chunk_scan(src, i, acc).lexeme->Tok_0
            is Template,
    decreases src.len() - i,
{
    if i < src.len() && !chunk_ends_at(src, i) {
        if src[i] == '\\' {
            lemma_char_escape(src, i, true);
            let e = char_escape(src, i, true);
            match e.value {
                Escaped::Char(c) => lemma_chunk_scan(src, e.end, acc.push(c)),
                Escaped::Nothing => lemma_chunk_scan(src, e.end, acc),
                Escaped::Bad(err) => {},
            }
        } else if src[i] == '\r' {
            if is_at(src, i + 1, '\n') {
                lemma_chunk_scan(src, i + 2, acc.push('\n'));
            } else {
                lemma_chunk_scan(src, i + 1, acc.push('\n'));
            }
        } else {
            lemma_chunk_scan(src, i + 1, acc.push(src[i]));
        }
    }
}

/// Reads the chunk of literal text that starts at `i`.
pub fn read_chunk(src: &Vec<char>, i: usize) -> (r: ScanAt)
    requires
        i <= src.len(),
    ensures
        r@ == chunk(src@, i as int),
        i <= r.end <= src.len(),
{
    let mut j: usize = i;
    let mut acc: Vec<char> = Vec::new();
    while j < src.len()
        invariant
            i <= j <= src.len(),
            chunk(src@, i as int) == chunk_scan(src@, j as int, acc@),
        decreases src.len() - j,
    {
        let c = src[j];
        if c == '`' || (c == '$' && at(src, j, 1, '{')) {
            let value = string_from_chars(&acc);
            return ScanAt { end: j, lexeme: LexemeAt::Tok(Token::Template(value)) };
        } else if c == '\\' {
            let e = read_char_escape(src, j, true);
            match e.value {
                Escaped::Char(ch) => {
                    acc.push(ch);
                },
                Escaped::Nothing => {},
                Escaped::Bad(err) => {
                    return ScanAt { end: e.end, lexeme: LexemeAt::Bad(err) };
                },
            }
            j = e.end;
        } else if c == '\r' {
            acc.push('\n');
            if at(src, j, 1, '\n') {
                j += 2;
            } else {
                j += 1;
            }
        } else {
            acc.push(c);
            j += 1;
        }
    }
    ScanAt { end: j, lexeme: LexemeAt::Bad(SyntaxError::UnterminatedTpl) }
}

} // verus!
