//! What holds of every run of tokens.

use crate::chars::{byte_len, byte_offset, lemma_byte_offset_end, lemma_byte_offset_mono,
    spec_is_ident_part, spec_is_ident_start, spec_is_line_break};
use crate::lexer::number::{number, number_at};
use crate::lexer::scan::{Lexeme, Scan};
use crate::lexer::space::lemma_skip_space;
use crate::lexer::state::{current, Scope};
use crate::lexer::string::{str_lit, str_scan};
use crate::lexer::word::{fits_ident, word, word_lexeme, word_scan};
use crate::lexer::{distance, gap, initial_state, lemma_next_token, next_token, tokens_from,
    tokens_of, Context, StateView};
use crate::token::{tokens_view, TokenAndSpan, TokenAndSpanView, TokenView};
use vstd::prelude::*;

verus! {

/// Whether a line terminator starts at a byte offset from `a` up to, but
/// without, `b`.
pub open spec fn line_break_between(src: Seq<char>, a: int, b: int) -> bool {
    exists|j: int|
        0 <= j < src.len() && a <= byte_offset(src, j) < b && spec_is_line_break(#[trigger] src[j])
}

/// A line terminator lies between two character indices exactly if one
/// lies between their byte offsets.
proof fn lemma_gap_in_bytes(src: Seq<char>, a: int, b: int)
    requires
        0 <= a <= b <= src.len(),
    ensures
        (exists|j: int| a <= j < b && spec_is_line_break(#[trigger] src[j])) <==> line_break_between(
            src,
            byte_offset(src, a) as int,
            byte_offset(src, b) as int,
        ),
{
    if exists|j: int| a <= j < b && spec_is_line_break(#[trigger] src[j]) {
        let j = choose|j: int| a <= j < b && spec_is_line_break(#[trigger] src[j]);
        lemma_byte_offset_mono(src, a, j);
        lemma_byte_offset_mono(src, j, b);
        assert(0 <= j < src.len() && byte_offset(src, a) <= byte_offset(src, j) < byte_offset(
            src,
            b,
        ) && spec_is_line_break(src[j]));
    }
    if line_break_between(src, byte_offset(src, a) as int, byte_offset(src, b) as int) {
        let j = choose|j: int|
            0 <= j < src.len() && byte_offset(src, a) <= byte_offset(src, j) < byte_offset(src, b)
                && spec_is_line_break(#[trigger] src[j]);
        if j < a {
            lemma_byte_offset_mono(src, j, a);
        }
        if j >= b {
            lemma_byte_offset_mono(src, b, j);
        }
        assert(a <= j < b && spec_is_line_break(src[j]));
    }
}

/// What holds of the tokens from a state on: each lies within the text,
/// at or after the state's place; they follow one another; and each
/// token's flag tells whether a line terminator lies between it and the
/// token before it, or, for the first of them, the state's place.
pub open spec fn run_is_sound(src: Seq<char>, st: StateView, ts: Seq<TokenAndSpanView>) -> bool {
    &&& forall|k: int|
        0 <= k < ts.len() ==> byte_offset(src, st.pos) <= (#[trigger] ts[k]).span.lo.0
            <= ts[k].span.hi.0 <= byte_len(src)
    &&& forall|k: int| 0 < k < ts.len() ==> ts[k - 1].span.hi.0 <= (#[trigger] ts[k]).span.lo.0
    &&& ts.len() > 0 ==> (ts[0].had_line_break <==> (st.is_first || line_break_between(
        src,
        byte_offset(src, st.pos) as int,
        ts[0].span.lo.0 as int,
    )))
    &&& forall|k: int|
        0 < k < ts.len() ==> ((#[trigger] ts[k]).had_line_break <==> line_break_between(
            src,
            ts[k - 1].span.hi.0 as int,
            ts[k].span.lo.0 as int,
        ))
}

/// The tokens from any state on are sound in the sense of [`run_is_sound`].
pub proof fn lemma_tokens_from(src: Seq<char>, ctx: Context, st: StateView)
    requires
        0 <= st.pos <= src.len(),
        byte_len(src) <= u32::MAX,
    ensures
        run_is_sound(src, st, tokens_from(src, ctx, st)),
    decreases distance(src, st),
{
    let ts = tokens_from(src, ctx, st);
    lemma_next_token(src, ctx, st);
    match next_token(src, ctx, st) {
        Some((t, st2)) => {
            let rest = tokens_from(src, ctx, st2);
            lemma_tokens_from(src, ctx, st2);
            let g = gap(src, ctx, st);
            lemma_byte_offset_mono(src, st.pos, g.end);
            lemma_byte_offset_mono(src, g.end, st2.pos);
            lemma_byte_offset_mono(src, st2.pos, src.len() as int);
            lemma_byte_offset_end(src);
            assert(t.span.lo.0 == byte_offset(src, g.end));
            assert(t.span.hi.0 == byte_offset(src, st2.pos));
            if current(st.scopes) != Some(Scope::Tpl) {
                lemma_skip_space(src, st.pos, st.is_first, ctx.module);
            }
            lemma_gap_in_bytes(src, st.pos, g.end);
            assert(ts == seq![t] + rest);
            assert(ts[0] == t);
            assert forall|k: int| 0 < k < ts.len() implies ts[k] == rest[k - 1] by {}
            assert forall|k: int| 0 <= k < ts.len() implies byte_offset(src, st.pos) <= (
            #[trigger] ts[k]).span.lo.0 <= ts[k].span.hi.0 <= byte_len(src) by {
                if k > 0 {
                    assert(ts[k] == rest[k - 1]);
                }
            }
            assert forall|k: int| 0 < k < ts.len() implies ts[k - 1].span.hi.0 <= (
            #[trigger] ts[k]).span.lo.0 by {
                assert(ts[k] == rest[k - 1]);
                if k > 1 {
                    assert(ts[k - 1] == rest[k - 2]);
                }
            }
            assert forall|k: int| 0 < k < ts.len() implies ((#[trigger] ts[k]).had_line_break
                <==> line_break_between(
                src,
                ts[k - 1].span.hi.0 as int,
                ts[k].span.lo.0 as int,
            )) by {
                assert(ts[k] == rest[k - 1]);
                if k > 1 {
                    assert(ts[k - 1] == rest[k - 2]);
                }
            }
        },
        None => {},
    }
}

/// Every token lies within the text, and starts at or after the place
/// where the token before it stops.
pub proof fn lemma_spans_in_order(src: Seq<char>, ctx: Context, k: int)
    requires
        byte_len(src) <= u32::MAX,
        0 <= k < tokens_of(src, ctx).len(),
    ensures
        tokens_of(src, ctx)[k].span.lo.0 <= tokens_of(src, ctx)[k].span.hi.0 <= byte_len(src),
        k > 0 ==> tokens_of(src, ctx)[k - 1].span.hi.0 <= tokens_of(src, ctx)[k].span.lo.0,
{
    lemma_tokens_from(src, ctx, initial_state());
}

/// The first token is flagged. Every other token is flagged exactly if at
/// least one line terminator lies between the end of the token before it
/// and its own start, whatever else stands there.
pub proof fn lemma_line_break_flag(src: Seq<char>, ctx: Context, k: int)
    requires
        byte_len(src) <= u32::MAX,
        0 <= k < tokens_of(src, ctx).len(),
    ensures
        k == 0 ==> tokens_of(src, ctx)[0].had_line_break,
        k > 0 ==> (tokens_of(src, ctx)[k].had_line_break <==> line_break_between(
            src,
            tokens_of(src, ctx)[k - 1].span.hi.0 as int,
            tokens_of(src, ctx)[k].span.lo.0 as int,
        )),
{
    lemma_tokens_from(src, ctx, initial_state());
}

/// Reading the same text under the same rules gives the same tokens, run
/// after run.
pub proof fn lemma_lex_is_deterministic(
    s1: Seq<char>,
    s2: Seq<char>,
    ctx: Context,
    a: Seq<TokenAndSpan>,
    b: Seq<TokenAndSpan>,
)
    requires
        s1 == s2,
        tokens_view(a) == tokens_of(s1, ctx),
        tokens_view(b) == tokens_of(s2, ctx),
    ensures
        tokens_view(a) == tokens_view(b),
        a.len() == b.len(),
        forall|k: int| 0 <= k < a.len() ==> (#[trigger] a[k])@ == b[k]@,
{
    assert(tokens_view(a).len() == a.len());
    assert(tokens_view(b).len() == b.len());
    assert forall|k: int| 0 <= k < a.len() implies (#[trigger] a[k])@ == b[k]@ by {
        assert(tokens_view(a)[k] == a[k]@);
        assert(tokens_view(b)[k] == b[k]@);
    }
}

/// The tokens from a state on are the next token, followed by the tokens
/// from the state after it: reading on from where a token stopped never
/// changes what was read.
pub proof fn lemma_tokens_resume(src: Seq<char>, ctx: Context, st: StateView)
    requires
        0 <= st.pos <= src.len(),
    ensures
        match next_token(src, ctx, st) {
            Some((t, st2)) => tokens_from(src, ctx, st) == seq![t] + tokens_from(src, ctx, st2),
            None => tokens_from(src, ctx, st) == Seq::<TokenAndSpanView>::empty(),
        },
{
}

/// A text without characters has no tokens.
pub proof fn lemma_empty_text(ctx: Context)
    ensures
        tokens_of(Seq::<char>::empty(), ctx) == Seq::<TokenAndSpanView>::empty(),
{
    let src = Seq::<char>::empty();
    assert(next_token(src, ctx, initial_state()) is None);
}

/// A word spelled without escapes is the run of identifier characters
/// that it covers: it starts with one that may start an identifier, goes
/// on while identifier characters follow, and its text is the text as
/// written.
pub proof fn lemma_plain_word(src: Seq<char>, i: int, j: int)
    requires
        0 <= i < j <= src.len(),
        spec_is_ident_start(src[i]),
        forall|k: int| i < k < j ==> spec_is_ident_part(#[trigger] src[k]),
        j < src.len() ==> !spec_is_ident_part(src[j]) && src[j] != '\\',
    ensures
        word(src, i) == (Scan { end: j, lexeme: word_lexeme(src.subrange(i, j), false) }),
{
    lemma_plain_word_from(src, i, j, i);
    assert(src.subrange(i, i) == Seq::<char>::empty());
}

/// The step of [`lemma_plain_word`]: reading on from `k` inside the run.
proof fn lemma_plain_word_from(src: Seq<char>, i: int, j: int, k: int)
    requires
        0 <= i <= k <= j <= src.len(),
        i < j,
        spec_is_ident_start(src[i]),
        forall|k: int| i < k < j ==> spec_is_ident_part(#[trigger] src[k]),
        j < src.len() ==> !spec_is_ident_part(src[j]) && src[j] != '\\',
    ensures
        word_scan(src, k, src.subrange(i, k), false) == (Scan {
            end: j,
            lexeme: word_lexeme(src.subrange(i, j), false),
        }),
    decreases j - k,
{
    if k < j {
        assert(src[k] != '\\') by {
            if k > i {
                assert(spec_is_ident_part(src[k]));
            }
        }
        assert(fits_ident(src.subrange(i, k), src[k])) by {
            if k > i {
                assert(spec_is_ident_part(src[k]));
            }
        }
        assert(src.subrange(i, k).push(src[k]) == src.subrange(i, k + 1));
        lemma_plain_word_from(src, i, j, k + 1);
    } else {
        assert(src.subrange(i, j).len() > 0);
    }
}

/// A string literal without backslashes is the text between its quotes:
/// it runs to the next quote of the same kind, and its value is the text
/// as written.
pub proof fn lemma_plain_string(src: Seq<char>, i: int, j: int, strict: bool)
    requires
        0 <= i < j < src.len(),
        src[j] == src[i],
        forall|k: int|
            i < k < j ==> (#[trigger] src[k]) != src[i] && src[k] != '\\' && src[k] != '\n'
                && src[k] != '\r',
    ensures
        str_lit(src, i, strict) == (Scan {
            end: j + 1,
            lexeme: Lexeme::Tok(
                TokenView::Str { value: src.subrange(i + 1, j), has_escape: false },
            ),
        }),
{
    lemma_plain_string_from(src, i, j, strict, i + 1);
    assert(src.subrange(i + 1, i + 1) == Seq::<char>::empty());
}

/// The step of [`lemma_plain_string`]: reading on from `k` inside the
/// literal.
proof fn lemma_plain_string_from(src: Seq<char>, i: int, j: int, strict: bool, k: int)
    requires
        0 <= i < k <= j < src.len(),
        src[j] == src[i],
        forall|k: int|
            i < k < j ==> (#[trigger] src[k]) != src[i] && src[k] != '\\' && src[k] != '\n'
                && src[k] != '\r',
    ensures
        str_scan(src, k, src[i], strict, src.subrange(i + 1, k), false) == (Scan {
            end: j + 1,
            lexeme: Lexeme::Tok(
                TokenView::Str { value: src.subrange(i + 1, j), has_escape: false },
            ),
        }),
    decreases j - k,
{
    if k < j {
        assert(src[k] != src[i] && src[k] != '\\' && src[k] != '\n' && src[k] != '\r');
        assert(src.subrange(i + 1, k).push(src[k]) == src.subrange(i + 1, k + 1));
        lemma_plain_string_from(src, i, j, strict, k + 1);
    }
}

/// A numeric literal keeps its text: the token's text is the text that
/// the literal covers.
pub proof fn lemma_number_keeps_text(src: Seq<char>, i: int, strict: bool)
    requires
        number_at(src, i),
    ensures
        match number(src, i, strict).lexeme {
            Lexeme::Tok(TokenView::Num(n)) => n.raw == src.subrange(
                i,
                number(src, i, strict).end,
            ),
            Lexeme::Tok(_) => false,
            Lexeme::Regex { .. } => false,
            Lexeme::Bad(_) => true,
        },
{
}

} // verus!
