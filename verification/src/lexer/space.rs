//! White space and comments between tokens.

use crate::chars::{is_line_break, is_whitespace, spec_is_line_break, spec_is_whitespace};
use crate::error::SyntaxError;
use crate::lexer::cursor::{at, is_at};
use vstd::prelude::*;

verus! {

/// The first index from `i` on that holds a line terminator, or the length
/// of the text if none follows.
pub open spec fn line_end(src: Seq<char>, i: int) -> int
    decreases src.len() - i,
{
    if i < 0 || i >= src.len() {
        i
    } else if spec_is_line_break(src[i]) {
        i
    } else {
        line_end(src, i + 1)
    }
}

/// The line that starts at `i` ends at or after `i`, within the text, and
/// holds no line terminator.
pub proof fn lemma_line_end(src: Seq<char>, i: int)
    requires
        0 <= i <= src.len(),
    ensures
        i <= line_end(src, i) <= src.len(),
        forall|j: int| i <= j < line_end(src, i) ==> !spec_is_line_break(#[trigger] src[j]),
        line_end(src, i) < src.len() ==> spec_is_line_break(src[line_end(src, i)]),
    decreases src.len() - i,
{
    if i < src.len() && !spec_is_line_break(src[i]) {
        lemma_line_end(src, i + 1);
    }
}

/// Finds the end of the line that `i` stands in.
pub fn find_line_end(src: &Vec<char>, i: usize) -> (e: usize)
    requires
        i <= src.len(),
    ensures
        e == line_end(src@, i as int),
        i <= e <= src.len(),
{
    let mut j: usize = i;
    while j < src.len() && !is_line_break(src[j])
        invariant
            i <= j <= src.len(),
            line_end(src@, i as int) == line_end(src@, j as int),
        decreases src.len() - j,
    {
        j += 1;
    }
    j
}

/// Where a block comment stops, and whether a line ended inside it.
pub struct BlockEnd {
    /// The index after the closing `*/`, or `None` if the comment never closes.
    pub end: Option<int>,
    /// Whether a line terminator was passed, or `lb` was already set.
    pub lb: bool,
}

/// Scans the inside of a block comment from `i` on.
pub open spec fn block_comment(src: Seq<char>, i: int, lb: bool) -> BlockEnd
    decreases src.len() - i,
{
    if i < 0 || i >= src.len() {
        BlockEnd { end: None, lb }
    } else if src[i] == '*' && is_at(src, i + 1, '/') {
        BlockEnd { end: Some(i + 2), lb }
    } else {
        block_comment(src, i + 1, lb || spec_is_line_break(src[i]))
    }
}

/// A closed block comment ends within the text, after where its inside
/// starts, and reports a line break exactly if one lies inside it.
pub proof fn lemma_block_comment(src: Seq<char>, i: int, lb: bool)
    requires
        0 <= i <= src.len(),
    ensures
        match block_comment(src, i, lb).end {
            Some(e) => i + 2 <= e <= src.len() && (block_comment(src, i, lb).lb <==> (lb
                || exists|j: int| i <= j < e && spec_is_line_break(#[trigger] src[j]))),
            None => true,
        },
    decreases src.len() - i,
{
    if i >= src.len() {
    } else if src[i] == '*' && is_at(src, i + 1, '/') {
        assert(!spec_is_line_break(src[i]));
        assert(!spec_is_line_break(src[i + 1]));
        assert forall|j: int| i <= j < i + 2 implies !spec_is_line_break(#[trigger] src[j]) by {
            if j == i {
            } else {
                assert(j == i + 1);
            }
        }
    } else {
        let lb2 = lb || spec_is_line_break(src[i]);
        lemma_block_comment(src, i + 1, lb2);
        match block_comment(src, i + 1, lb2).end {
            Some(e) => {
                let r = block_comment(src, i, lb).lb;
                if r {
                    if !lb && !spec_is_line_break(src[i]) {
                        let j = choose|j: int|
                            i + 1 <= j < e && spec_is_line_break(#[trigger] src[j]);
                        assert(i <= j < e && spec_is_line_break(src[j]));
                    } else if !lb {
                        assert(i <= i < e && spec_is_line_break(src[i]));
                    }
                } else {
                    assert forall|j: int| i <= j < e implies !spec_is_line_break(
                        #[trigger] src[j],
                    ) by {
                        if j > i {
                            assert(i + 1 <= j < e);
                        }
                    }
                }
            },
            None => {},
        }
    }
}

/// Scans the inside of a block comment from `i` on: the index after its
/// closing `*/`, if it closes, and whether a line ended on the way.
pub fn scan_block_comment(src: &Vec<char>, i: usize, lb: bool) -> (r: (Option<usize>, bool))
    requires
        i <= src.len(),
    ensures
        r.1 == block_comment(src@, i as int, lb).lb,
        match r.0 {
            Some(e) => block_comment(src@, i as int, lb).end == Some(e as int) && i + 2 <= e
                <= src.len(),
            None => block_comment(src@, i as int, lb).end is None,
        },
{
    let mut j: usize = i;
    let mut seen: bool = lb;
    while j < src.len()
        invariant
            i <= j <= src.len(),
            block_comment(src@, i as int, lb) == block_comment(src@, j as int, seen),
        decreases src.len() - j,
    {
        if src[j] == '*' && at(src, j, 1, '/') {
            return (Some(j + 2), seen);
        }
        seen = seen || is_line_break(src[j]);
        j += 1;
    }
    (None, seen)
}

/// What skipping white space and comments finds.
pub struct Skipped {
    /// Where the next token, or the faulty comment, starts.
    pub end: int,
    /// Whether a line terminator was passed before `end`, or `lb` was set.
    pub lb: bool,
    /// A faulty comment that starts at `end`: what is wrong, and where it stops.
    pub err: Option<(SyntaxError, int)>,
}

/// Whether an HTML-style comment starts at `i`, given whether a line
/// terminator precedes `i` since the last token: `<!--` anywhere, `-->` only
/// at the start of a line.
pub open spec fn html_comment_at(src: Seq<char>, i: int, lb: bool) -> bool {
    ||| is_at(src, i, '<') && is_at(src, i + 1, '!') && is_at(src, i + 2, '-') && is_at(
        src,
        i + 3,
        '-',
    )
    ||| lb && is_at(src, i, '-') && is_at(src, i + 1, '-') && is_at(src, i + 2, '>')
}

/// Skips white space, line terminators and comments from `i` on.
///
/// A block comment that never closes is an error that runs to the end of
/// the text. An HTML-style comment runs to the end of its line; in a module
/// it is an error, elsewhere it is skipped.
pub open spec fn skip_space(src: Seq<char>, i: int, lb: bool, module: bool) -> Skipped
    decreases src.len() - i,
    via skip_space_decreases
{
    if i < 0 || i >= src.len() {
        Skipped { end: i, lb, err: None }
    } else if spec_is_line_break(src[i]) {
        skip_space(src, i + 1, true, module)
    } else if spec_is_whitespace(src[i]) {
        skip_space(src, i + 1, lb, module)
    } else if src[i] == '/' && is_at(src, i + 1, '/') {
        skip_space(src, line_end(src, i + 2), lb, module)
    } else if src[i] == '/' && is_at(src, i + 1, '*') {
        let b = block_comment(src, i + 2, lb);
        match b.end {
            Some(e) => skip_space(src, e, b.lb, module),
            None => Skipped {
                end: i,
                lb,
                err: Some((SyntaxError::UnterminatedBlockComment, src.len() as int)),
            },
        }
    } else if html_comment_at(src, i, lb) {
        if module {
            Skipped {
                end: i,
                lb,
                err: Some((SyntaxError::LegacyCommentInModule, line_end(src, i + 3))),
            }
        } else {
            skip_space(src, line_end(src, i + 3), lb, module)
        }
    } else {
        Skipped { end: i, lb, err: None }
    }
}

#[via_fn]
proof fn skip_space_decreases(src: Seq<char>, i: int, lb: bool, module: bool) {
    if 0 <= i < src.len() {
        if src[i] == '/' && is_at(src, i + 1, '/') {
            lemma_line_end(src, i + 2);
        }
        if src[i] == '/' && is_at(src, i + 1, '*') {
            lemma_block_comment(src, i + 2, lb);
        }
        if html_comment_at(src, i, lb) {
            lemma_line_end(src, i + 3);
        }
    }
}

/// What skipping white space and comments finds, with machine indices.
pub struct SkippedAt {
    pub end: usize,
    pub lb: bool,
    pub err: Option<(SyntaxError, usize)>,
}

impl View for SkippedAt {
    type V = Skipped;

    open spec fn view(&self) -> Skipped {
        Skipped {
            end: self.end as int,
            lb: self.lb,
            err: match self.err {
                Some((e, k)) => Some((e, k as int)),
                None => None,
            },
        }
    }
}

/// Whether an HTML-style comment starts at `i`.
fn is_html_comment(src: &Vec<char>, i: usize, lb: bool) -> (b: bool)
    requires
        i <= src.len(),
    ensures
        b == html_comment_at(src@, i as int, lb),
{
    (at(src, i, 0, '<') && at(src, i, 1, '!') && at(src, i, 2, '-') && at(src, i, 3, '-')) || (lb
        && at(src, i, 0, '-') && at(src, i, 1, '-') && at(src, i, 2, '>'))
}

/// Skips white space, line terminators and comments from `i` on.
pub fn skip(src: &Vec<char>, i: usize, lb: bool, module: bool) -> (r: SkippedAt)
    requires
        i <= src.len(),
    ensures
        r@ == skip_space(src@, i as int, lb, module),
        i <= r.end <= src.len(),
        match r.err {
            Some((_, e)) => r.end < e <= src.len(),
            None => true,
        },
{
    let mut j: usize = i;
    let mut seen: bool = lb;
    while j < src.len()
        invariant
            i <= j <= src.len(),
            skip_space(src@, i as int, lb, module) == skip_space(src@, j as int, seen, module),
        decreases src.len() - j,
    {
        let c = src[j];
        if is_line_break(c) {
            seen = true;
            j += 1;
        } else if is_whitespace(c) {
            j += 1;
        } else if c == '/' && at(src, j, 1, '/') {
            j = find_line_end(src, j + 2);
        } else if c == '/' && at(src, j, 1, '*') {
            let (end, lb2) = scan_block_comment(src, j + 2, seen);
            match end {
                Some(e) => {
                    j = e;
                    seen = lb2;
                },
                None => {
                    return SkippedAt {
                        end: j,
                        lb: seen,
                        err: Some((SyntaxError::UnterminatedBlockComment, src.len())),
                    };
                },
            }
        } else if is_html_comment(src, j, seen) {
            let e = find_line_end(src, j + 3);
            if module {
                return SkippedAt {
                    end: j,
                    lb: seen,
                    err: Some((SyntaxError::LegacyCommentInModule, e)),
                };
            }
            j = e;
        } else {
            return SkippedAt { end: j, lb: seen, err: None };
        }
    }
    SkippedAt { end: j, lb: seen, err: None }
}

} // verus!

verus! {

/// Skipping stops within the text, at or after its start; a faulty comment
/// takes at least one character; and a line break is reported exactly if
/// `lb` was set or a line terminator lies between the start and the stop.
pub proof fn lemma_skip_space(src: Seq<char>, i: int, lb: bool, module: bool)
    requires
        0 <= i <= src.len(),
    ensures
        i <= skip_space(src, i, lb, module).end <= src.len(),
        match skip_space(src, i, lb, module).err {
            Some((_, e)) => skip_space(src, i, lb, module).end < e <= src.len(),
            None => true,
        },
        skip_space(src, i, lb, module).lb <==> (lb || exists|j: int|
            i <= j < skip_space(src, i, lb, module).end && spec_is_line_break(#[trigger] src[j])),
    decreases src.len() - i,
{
    let r = skip_space(src, i, lb, module);
    if i >= src.len() {
    } else if spec_is_line_break(src[i]) {
        lemma_skip_space(src, i + 1, true, module);
        assert(i <= i < r.end && spec_is_line_break(src[i]));
    } else if spec_is_whitespace(src[i]) {
        lemma_skip_space(src, i + 1, lb, module);
        lemma_extend_gap(src, i, i + 1, r.end, lb, lb, r.lb);
    } else if src[i] == '/' && is_at(src, i + 1, '/') {
        let e = line_end(src, i + 2);
        lemma_line_end(src, i + 2);
        lemma_skip_space(src, e, lb, module);
        assert(!spec_is_line_break(src[i + 1]));
        assert forall|j: int| i <= j < e implies !spec_is_line_break(#[trigger] src[j]) by {
            if j == i {
            } else if j == i + 1 {
            } else {
            }
        }
        lemma_extend_gap(src, i, e, r.end, lb, lb, r.lb);
    } else if src[i] == '/' && is_at(src, i + 1, '*') {
        let b = block_comment(src, i + 2, lb);
        lemma_block_comment(src, i + 2, lb);
        match b.end {
            Some(e) => {
                lemma_skip_space(src, e, b.lb, module);
                assert(!spec_is_line_break(src[i + 1]));
                if b.lb && !lb {
                    let j = choose|j: int| i + 2 <= j < e && spec_is_line_break(#[trigger] src[j]);
                    assert(i <= j < e && spec_is_line_break(src[j]));
                }
                if !b.lb {
                    assert forall|j: int| i <= j < e implies !spec_is_line_break(
                        #[trigger] src[j],
                    ) by {
                        if j == i {
                        } else if j == i + 1 {
                        } else {
                            assert(i + 2 <= j < e);
                        }
                    }
                }
                lemma_extend_gap(src, i, e, r.end, lb, b.lb, r.lb);
            },
            None => {},
        }
    } else if html_comment_at(src, i, lb) {
        let e = line_end(src, i + 3);
        lemma_line_end(src, i + 3);
        if !module {
            lemma_skip_space(src, e, lb, module);
            assert forall|j: int| i <= j < e implies !spec_is_line_break(#[trigger] src[j]) by {
                if j == i {
                } else if j == i + 1 {
                } else if j == i + 2 {
                } else {
                }
            }
            lemma_extend_gap(src, i, e, r.end, lb, lb, r.lb);
        }
    } else {
    }
}

/// Joins what is known of two adjoining stretches of text: whether a line
/// terminator lies in `[a, b)` and whether one lies in `[b, c)`.
proof fn lemma_extend_gap(src: Seq<char>, a: int, b: int, c: int, lb0: bool, lb1: bool, lb2: bool)
    requires
        a <= b <= c,
        lb1 <==> (lb0 || exists|j: int| a <= j < b && spec_is_line_break(#[trigger] src[j])),
        lb2 <==> (lb1 || exists|j: int| b <= j < c && spec_is_line_break(#[trigger] src[j])),
    ensures
        lb2 <==> (lb0 || exists|j: int| a <= j < c && spec_is_line_break(#[trigger] src[j])),
{
    if lb2 && !lb0 {
        if lb1 {
            let j = choose|j: int| a <= j < b && spec_is_line_break(#[trigger] src[j]);
            assert(a <= j < c && spec_is_line_break(src[j]));
        } else {
            let j = choose|j: int| b <= j < c && spec_is_line_break(#[trigger] src[j]);
            assert(a <= j < c && spec_is_line_break(src[j]));
        }
    }
    if !lb2 {
        assert forall|j: int| a <= j < c implies !spec_is_line_break(#[trigger] src[j]) by {
            if j < b {
                assert(a <= j < b);
            } else {
                assert(b <= j < c);
            }
        }
    }
}

} // verus!
