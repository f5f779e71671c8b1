//! Identifier names, with unicode escapes folded in.

use crate::chars::{is_ident_part, is_ident_start, spec_is_ident_part, spec_is_ident_start};
use crate::error::SyntaxError;
use crate::lexer::cursor::{at, is_at};
use crate::lexer::escape::{lemma_hex_run, read_unicode_escape, unicode_escape, Escaped};
use crate::lexer::scan::{Lexeme, LexemeAt, Scan, ScanAt};
use crate::lexer::string::lemma_hex_digits_some;
use crate::token::{Token, TokenView, Word};
use crate::words::{spec_word_of, word_of};
use vstd::prelude::*;

verus! {

/// Whether `c` may stand in an identifier after the characters `acc`.
pub open spec fn fits_ident(acc: Seq<char>, c: char) -> bool {
    if acc.len() == 0 {
        spec_is_ident_start(c)
    } else {
        spec_is_ident_part(c)
    }
}

/// The token for a finished word: a word spelled with an escape must not
/// be a keyword or one of `null`, `true`, `false`.
pub open spec fn word_lexeme(text: Seq<char>, esc: bool) -> Lexeme {
    let w = spec_word_of(text);
    if esc && !(w is Ident) {
        Lexeme::Bad(SyntaxError::EscapeInReservedWord)
    } else {
        Lexeme::Tok(TokenView::Word(w))
    }
}

/// Reads an identifier name from `i` on, after characters that decode to
/// `acc`; `esc` tells whether an escape was among them.
///
/// Each character is an identifier character or a unicode escape that
/// decodes to one; the name is the decoded text.
pub open spec fn word_scan(src: Seq<char>, i: int, acc: Seq<char>, esc: bool) -> Scan
    decreases src.len() - i,
    via word_scan_decreases
{
    if i < 0 || i >= src.len() {
        Scan { end: i, lexeme: word_lexeme(acc, esc) }
    } else if src[i] == '\\' {
        if !is_at(src, i + 1, 'u') {
            Scan { end: i + 1, lexeme: Lexeme::Bad(SyntaxError::ExpectedUnicodeEscape) }
        } else {
            let e = unicode_escape(src, i + 2);
            match e.value {
                Escaped::Char(c) => if fits_ident(acc, c) {
                    word_scan(src, e.end, acc.push(c), true)
                } else {
                    Scan { end: e.end, lexeme: Lexeme::Bad(SyntaxError::InvalidIdentChar) }
                },
                Escaped::Nothing => Scan {
                    end: e.end,
                    lexeme: Lexeme::Bad(SyntaxError::InvalidIdentChar),
                },
                Escaped::Bad(err) => Scan { end: e.end, lexeme: Lexeme::Bad(err) },
            }
        }
    } else if fits_ident(acc, src[i]) {
        word_scan(src, i + 1, acc.push(src[i]), esc)
    } else {
        Scan { end: i, lexeme: word_lexeme(acc, esc) }
    }
}

/// A unicode escape stops within the text, at or after its start.
pub proof fn lemma_unicode_escape(src: Seq<char>, i: int)
    requires
        0 <= i <= src.len(),
    ensures
        i <= unicode_escape(src, i).end <= src.len(),
{
    if is_at(src, i, '{') {
        lemma_hex_run(src, i + 1, 0);
    }
    lemma_hex_digits_some(src, i, 4);
}

#[via_fn]
proof fn word_scan_decreases(src: Seq<char>, i: int, acc: Seq<char>, esc: bool) {
    if 0 <= i < src.len() && is_at(src, i + 1, 'u') {
        lemma_unicode_escape(src, i + 2);
    }
}

/// The word that starts at `i`.
pub open spec fn word(src: Seq<char>, i: int) -> Scan {
    word_scan(src, i, Seq::empty(), false)
}

/// A word stops within the text, at or after where reading went on.
pub proof fn lemma_word_scan(src: Seq<char>, i: int, acc: Seq<char>, esc: bool)
    requires
        0 <= i <= src.len(),
    ensures
        i <= word_scan(src, i, acc, esc).end <= src.len(),
        !(word_scan(src, i, acc, esc).lexeme is Regex),
    decreases src.len() - i,
{
    if i < src.len() {
        if src[i] == '\\' {
            if is_at(src, i + 1, 'u') {
                lemma_unicode_escape(src, i + 2);
                let e = unicode_escape(src, i + 2);
                match e.value {
                    Escaped::Char(c) => if fits_ident(acc, c) {
                        lemma_word_scan(src, e.end, acc.push(c), true);
                    },
                    _ => {},
                }
            }
        } else if fits_ident(acc, src[i]) {
            lemma_word_scan(src, i + 1, acc.push(src[i]), esc);
        }
    }
}

/// A word that starts with an identifier character or a backslash takes at
/// least one character.
pub proof fn lemma_word(src: Seq<char>, i: int)
    requires
        0 <= i < src.len(),
        spec_is_ident_start(src[i]) || src[i] == '\\',
    ensures
        i < word(src, i).end <= src.len(),
        !(word(src, i).lexeme is Regex),
{
    let acc = Seq::<char>::empty();
    lemma_word_scan(src, i, acc, false);
    if src[i] == '\\' {
        if is_at(src, i + 1, 'u') {
            lemma_unicode_escape(src, i + 2);
            let e = unicode_escape(src, i + 2);
            match e.value {
                Escaped::Char(c) => if fits_ident(acc, c) {
                    lemma_word_scan(src, e.end, acc.push(c), true);
                },
                _ => {},
            }
        }
    } else {
        lemma_word_scan(src, i + 1, acc.push(src[i]), false);
    }
}

/// Builds the token for a finished word.
fn finish_word(text: &Vec<char>, esc: bool) -> (l: LexemeAt)
    ensures
        l@ == word_lexeme(text@, esc),
{
    let w = word_of(text);
    let is_ident = match &w {
        Word::Ident(_) => true,
        _ => false,
    };
    if esc && !is_ident {
        LexemeAt::Bad(SyntaxError::EscapeInReservedWord)
    } else {
        LexemeAt::Tok(Token::Word(w))
    }
}

/// Reads the word that starts at `i`.
pub fn read_word(src: &Vec<char>, i: usize) -> (r: ScanAt)
    requires
        i < src.len(),
        spec_is_ident_start(src@[i as int]) || src@[i as int] == '\\',
    ensures
        r@ == word(src@, i as int),
        i < r.end <= src.len(),
{
    proof {
        lemma_word(src@, i as int);
    }
    let mut j: usize = i;
    let mut acc: Vec<char> = Vec::new();
    let mut esc: bool = false;
    while j < src.len()
        invariant
            i <= j <= src.len(),
            i < word(src@, i as int).end,
            word(src@, i as int) == word_scan(src@, j as int, acc@, esc),
        decreases src.len() - j,
    {
        let c = src[j];
        if c == '\\' {
            if !at(src, j, 1, 'u') {
                return ScanAt {
                    end: j + 1,
                    lexeme: LexemeAt::Bad(SyntaxError::ExpectedUnicodeEscape),
                };
            }
            let e = read_unicode_escape(src, j + 2);
            match e.value {
                Escaped::Char(ch) => {
                    let fits = if acc.len() == 0 {
                        is_ident_start(ch)
                    } else {
                        is_ident_part(ch)
                    };
                    if !fits {
                        return ScanAt {
                            end: e.end,
                            lexeme: LexemeAt::Bad(SyntaxError::InvalidIdentChar),
                        };
                    }
                    acc.push(ch);
                    esc = true;
                    j = e.end;
                },
                Escaped::Nothing => {
                    return ScanAt {
                        end: e.end,
                        lexeme: LexemeAt::Bad(SyntaxError::InvalidIdentChar),
                    };
                },
                Escaped::Bad(err) => {
                    return ScanAt { end: e.end, lexeme: LexemeAt::Bad(err) };
                },
            }
        } else {
            let fits = if acc.len() == 0 {
                is_ident_start(c)
            } else {
                is_ident_part(c)
            };
            if !fits {
                return ScanAt { end: j, lexeme: finish_word(&acc, esc) };
            }
            acc.push(c);
            j += 1;
        }
    }
    ScanAt { end: j, lexeme: finish_word(&acc, esc) }
}

} // verus!
