//! The context-sensitive tokenizer.
//!
//! [`next_token`] says, as a function of the text and of what the
//! tokenizer remembers, which token comes next; [`tokens_from`] is the run
//! of all tokens from a state on. [`Lexer::next`] computes the first and
//! [`lex`] the second.

pub mod cursor;
pub mod escape;
pub mod laws;
pub mod number;
pub mod punct;
pub mod regex;
pub mod scan;
pub mod space;
pub mod state;
pub mod string;
pub mod template;
pub mod word;

use crate::chars::{byte_len, byte_offset, is_decimal_digit, is_ident_start,
    lemma_byte_len_is_encoded_len, lemma_byte_offset_end, lemma_byte_offset_mono,
    lemma_byte_offset_step, spec_is_ident_start, utf8_len};
use crate::error::{Error, SyntaxError};
use crate::lexer::cursor::{at, is_at, peek};
use crate::lexer::number::{lemma_number, number, number_at, read_number};
use crate::lexer::punct::{lemma_punct, punct, read_punct};
use crate::lexer::regex::{lemma_regex, read_regex, regex};
use crate::lexer::scan::{Lexeme, LexemeAt, Scan, ScanAt};
use crate::lexer::space::{lemma_skip_space, skip, skip_space, Skipped, SkippedAt};
use crate::lexer::state::{advance, current, next_state, top, Scope};
use crate::lexer::escape::Escaped;
use crate::lexer::string::{char_escape, lemma_char_escape, lemma_str_scan, read_str, str_lit};
use crate::lexer::template::{chunk, chunk_ends_at, lemma_chunk_scan, read_chunk};
use crate::lexer::word::{lemma_word, read_word, word};
use crate::span::{BytePos, Span, SyntaxContext};
use crate::text::{str_chars, string_of};
use crate::token::{tokens_view, Str, StrView, Token, TokenAndSpan, TokenAndSpanView, TokenKind,
    TokenView};
use vstd::prelude::*;
use vstd::utf8::encode_utf8;

verus! {

/// The rules that the text is read under.
#[derive(Clone, Copy, Debug, PartialEq, Eq, Structural, Hash)]
pub struct Context {
    /// Whether strict rules hold.
    pub strict: bool,
    /// Whether the text is a module.
    pub module: bool,
}

/// What the tokenizer remembers between tokens.
pub struct State {
    /// The index of the next character to read.
    pub pos: usize,
    /// The byte offset of that character.
    pub byte_pos: u32,
    /// Whether an expression may start at the next token.
    pub is_expr_allowed: bool,
    /// Whether no token has been read yet.
    pub is_first: bool,
    /// The constructs that the tokenizer stands in, innermost last.
    pub scopes: Vec<Scope>,
    /// The kind of the last token.
    pub prev: Option<TokenKind>,
}

/// The mathematical value of a [`State`].
pub struct StateView {
    pub pos: int,
    pub is_expr_allowed: bool,
    pub is_first: bool,
    pub scopes: Seq<Scope>,
    pub prev: Option<TokenKind>,
}

impl View for State {
    type V = StateView;

    open spec fn view(&self) -> StateView {
        StateView {
            pos: self.pos as int,
            is_expr_allowed: self.is_expr_allowed,
            is_first: self.is_first,
            scopes: self.scopes@,
            prev: self.prev,
        }
    }
}

/// The state before the first token: at the start of the text, inside a
/// block, where an expression may start.
pub open spec fn initial_state() -> StateView {
    StateView {
        pos: 0,
        is_expr_allowed: true,
        is_first: true,
        scopes: seq![Scope::BraceStmt],
        prev: None,
    }
}

/// The span of the characters `[a, b)`, in bytes.
pub open spec fn span_of(src: Seq<char>, a: int, b: int) -> Span {
    Span {
        lo: BytePos(byte_offset(src, a) as u32),
        hi: BytePos(byte_offset(src, b) as u32),
        ctxt: SyntaxContext(0),
    }
}

/// The token that starts at `p` outside a template.
///
/// An identifier character or a backslash starts a word; a digit, or a dot
/// before a digit, a number; a quote a string. A slash starts a regular
/// expression where an expression may start, and is an operator elsewhere.
/// A character that starts nothing is an error of its own.
pub open spec fn token_at(src: Seq<char>, p: int, ctx: Context, is_expr_allowed: bool) -> Scan {
    let c = src[p];
    if spec_is_ident_start(c) || c == '\\' {
        word(src, p)
    } else if number_at(src, p) {
        number(src, p, ctx.strict)
    } else if c == '\'' || c == '"' {
        str_lit(src, p, ctx.strict)
    } else if c == '/' && is_expr_allowed {
        regex(src, p)
    } else {
        match punct(src, p) {
            Some((n, t)) => Scan { end: p + n, lexeme: Lexeme::Tok(t) },
            None => Scan { end: p + 1, lexeme: Lexeme::Bad(SyntaxError::UnexpectedChar { c }) },
        }
    }
}

/// The token that starts at `p` inside a template: after a chunk of
/// literal text, the backtick or `${` that ended it; else a chunk, which
/// may be empty.
pub open spec fn tpl_token_at(src: Seq<char>, p: int, prev: Option<TokenKind>) -> Scan {
    if prev == Some(TokenKind::Template) {
        if src[p] == '`' {
            Scan { end: p + 1, lexeme: Lexeme::Tok(TokenView::BackQuote) }
        } else if src[p] == '$' && is_at(src, p + 1, '{') {
            Scan { end: p + 2, lexeme: Lexeme::Tok(TokenView::DollarLBrace) }
        } else {
            Scan { end: p + 1, lexeme: Lexeme::Bad(SyntaxError::UnexpectedChar { c: src[p] }) }
        }
    } else {
        chunk(src, p)
    }
}

/// The token for what was read from `p` on, with byte positions attached.
pub open spec fn token_of(src: Seq<char>, p: int, scan: Scan) -> TokenView {
    match scan.lexeme {
        Lexeme::Tok(t) => t,
        Lexeme::Regex { body_end } => TokenView::Regex(
            StrView {
                span: span_of(src, p + 1, body_end),
                value: src.subrange(p + 1, body_end),
                has_escape: false,
            },
            if scan.end > body_end + 1 {
                Some(
                    StrView {
                        span: span_of(src, body_end + 1, scan.end),
                        value: src.subrange(body_end + 1, scan.end),
                        has_escape: false,
                    },
                )
            } else {
                None
            },
        ),
        Lexeme::Bad(e) => TokenView::Error(Error { span: span_of(src, p, scan.end), error: e }),
    }
}

/// What stands between the last token and the next: nothing inside a
/// template, else white space and comments.
pub open spec fn gap(src: Seq<char>, ctx: Context, st: StateView) -> Skipped {
    if current(st.scopes) == Some(Scope::Tpl) {
        Skipped { end: st.pos, lb: st.is_first, err: None }
    } else {
        skip_space(src, st.pos, st.is_first, ctx.module)
    }
}

/// What is read after the gap, if anything: a faulty comment; at the end
/// of the text nothing, or once the error of a template left open; else a
/// token.
pub open spec fn scan_after_gap(src: Seq<char>, ctx: Context, st: StateView) -> Option<Scan> {
    let sk = gap(src, ctx, st);
    let in_tpl = current(st.scopes) == Some(Scope::Tpl);
    match sk.err {
        Some((e, end)) => Some(Scan { end, lexeme: Lexeme::Bad(e) }),
        None => if sk.end >= src.len() {
            if in_tpl && st.prev != Some(TokenKind::Template) && st.prev != Some(
                TokenKind::Error,
            ) {
                Some(Scan { end: sk.end, lexeme: Lexeme::Bad(SyntaxError::UnterminatedTpl) })
            } else {
                None
            }
        } else if in_tpl {
            Some(tpl_token_at(src, sk.end, st.prev))
        } else {
            Some(token_at(src, sk.end, ctx, st.is_expr_allowed))
        },
    }
}

/// The next token of `src` in state `st`, and the state after it; `None`
/// at the end of the text.
///
/// The token's flag is set if it is the first token, or if a line
/// terminator was skipped before it.
pub open spec fn next_token(src: Seq<char>, ctx: Context, st: StateView) -> Option<
    (TokenAndSpanView, StateView),
> {
    let sk = gap(src, ctx, st);
    match scan_after_gap(src, ctx, st) {
        None => None,
        Some(scan) => {
            let tok = token_of(src, sk.end, scan);
            let (scopes, allowed) = next_state(
                st.scopes,
                st.prev,
                tok.kind(),
                sk.lb,
                st.is_expr_allowed,
            );
            Some(
                (
                    TokenAndSpanView {
                        token: tok,
                        had_line_break: sk.lb,
                        span: span_of(src, sk.end, scan.end),
                    },
                    StateView {
                        pos: scan.end,
                        is_expr_allowed: allowed,
                        is_first: false,
                        scopes,
                        prev: Some(tok.kind()),
                    },
                ),
            )
        },
    }
}

/// How far the tokenizer is from the end: it falls with every token.
pub open spec fn distance(src: Seq<char>, st: StateView) -> int {
    3 * (src.len() - st.pos) + (if st.prev == Some(TokenKind::Template) {
        0int
    } else if st.prev == Some(TokenKind::Error) {
        1
    } else {
        2
    })
}

/// Every token starts at or after the place where the last one stopped,
/// stops within the text, and brings the tokenizer nearer to the end.
pub proof fn lemma_next_token(src: Seq<char>, ctx: Context, st: StateView)
    requires
        0 <= st.pos <= src.len(),
    ensures
        st.pos <= gap(src, ctx, st).end <= src.len(),
        match next_token(src, ctx, st) {
            Some((t, st2)) => gap(src, ctx, st).end <= st2.pos <= src.len() && distance(src, st2)
                < distance(src, st) && !st2.is_first && t.span == span_of(
                src,
                gap(src, ctx, st).end,
                st2.pos,
            ) && t.had_line_break == gap(src, ctx, st).lb && st2.prev == Some(t.token.kind()),
            None => true,
        },
        match scan_after_gap(src, ctx, st) {
            Some(scan) => match scan.lexeme {
                Lexeme::Regex { body_end } => gap(src, ctx, st).end + 1 <= body_end < scan.end,
                _ => true,
            },
            None => true,
        },
{
    let sk = gap(src, ctx, st);
    let in_tpl = current(st.scopes) == Some(Scope::Tpl);
    if !in_tpl {
        lemma_skip_space(src, st.pos, st.is_first, ctx.module);
    }
    let p = sk.end;
    if sk.err is None && p < src.len() {
        if in_tpl {
            lemma_chunk_scan(src, p, Seq::empty());
            if !chunk_ends_at(src, p) {
                lemma_chunk_progress(src, p);
            }
        } else {
            let c = src[p];
            if spec_is_ident_start(c) || c == '\\' {
                lemma_word(src, p);
            } else if number_at(src, p) {
                lemma_number(src, p, ctx.strict);
            } else if c == '\'' || c == '"' {
                lemma_str_scan(src, p + 1, src[p], ctx.strict, Seq::empty(), false);
            } else if c == '/' && st.is_expr_allowed {
                lemma_regex(src, p);
            } else {
                lemma_punct(src, p);
            }
        }
    }
}

/// A chunk that does not end where it starts takes at least one character.
proof fn lemma_chunk_progress(src: Seq<char>, p: int)
    requires
        0 <= p < src.len(),
        !chunk_ends_at(src, p),
    ensures
        p < chunk(src, p).end,
{
    let acc = Seq::<char>::empty();
    if src[p] == '\\' {
        lemma_char_escape(src, p, true);
        let e = char_escape(src, p, true);
        match e.value {
            Escaped::Char(c) => lemma_chunk_scan(src, e.end, acc.push(c)),
            Escaped::Nothing => lemma_chunk_scan(src, e.end, acc),
            Escaped::Bad(err) => {},
        }
    } else if src[p] == '\r' {
        if is_at(src, p + 1, '\n') {
            lemma_chunk_scan(src, p + 2, acc.push('\n'));
        } else {
            lemma_chunk_scan(src, p + 1, acc.push('\n'));
        }
    } else {
        lemma_chunk_scan(src, p + 1, acc.push(src[p]));
    }
}

/// All the tokens of `src` from state `st` on, in order.
pub open spec fn tokens_from(src: Seq<char>, ctx: Context, st: StateView) -> Seq<TokenAndSpanView>
    decreases distance(src, st),
    via tokens_from_decreases
{
    if 0 <= st.pos <= src.len() {
        match next_token(src, ctx, st) {
            Some((t, st2)) => seq![t] + tokens_from(src, ctx, st2),
            None => Seq::empty(),
        }
    } else {
        Seq::empty()
    }
}

#[via_fn]
proof fn tokens_from_decreases(src: Seq<char>, ctx: Context, st: StateView) {
    if 0 <= st.pos <= src.len() {
        lemma_next_token(src, ctx, st);
    }
}

/// All the tokens of `src`, in order.
pub open spec fn tokens_of(src: Seq<char>, ctx: Context) -> Seq<TokenAndSpanView> {
    tokens_from(src, ctx, initial_state())
}

} // verus!

verus! {

/// The tokenizer: a text, the rules it is read under, and what is
/// remembered between tokens.
pub struct Lexer {
    /// The characters of the text.
    pub src: Vec<char>,
    /// The rules that the text is read under.
    pub ctx: Context,
    pub state: State,
}

/// The byte offset of the character with index `to`, given that of the
/// character with index `from`.
fn byte_pos_at(src: &Vec<char>, from: usize, from_byte: u32, to: usize) -> (b: u32)
    requires
        from <= to <= src.len(),
        from_byte == byte_offset(src@, from as int),
        byte_len(src@) <= u32::MAX,
    ensures
        b == byte_offset(src@, to as int),
{
    let mut j: usize = from;
    let mut b: u32 = from_byte;
    while j < to
        invariant
            from <= j <= to <= src.len(),
            b == byte_offset(src@, j as int),
            byte_len(src@) <= u32::MAX,
        decreases to - j,
    {
        proof {
            lemma_byte_offset_step(src@, j as int);
            lemma_byte_offset_mono(src@, j + 1, src.len() as int);
            lemma_byte_offset_end(src@);
        }
        b = b + utf8_len(src[j]);
        j += 1;
    }
    b
}

/// Reads the token that starts at `p` outside a template.
fn read_token(src: &Vec<char>, p: usize, ctx: Context, is_expr_allowed: bool) -> (r: ScanAt)
    requires
        p < src.len(),
    ensures
        r@ == token_at(src@, p as int, ctx, is_expr_allowed),
        p < r.end <= src.len(),
        match r.lexeme {
            LexemeAt::Regex { body_end } => p + 1 <= body_end < r.end,
            _ => true,
        },
{
    let c = src[p];
    let starts_number = is_decimal_digit(c) || (c == '.' && match peek(src, p, 1) {
        Some(d) => is_decimal_digit(d),
        None => false,
    });
    if is_ident_start(c) || c == '\\' {
        proof {
            lemma_word(src@, p as int);
        }
        read_word(src, p)
    } else if starts_number {
        read_number(src, p, ctx.strict)
    } else if c == '\'' || c == '"' {
        proof {
            lemma_str_scan(src@, p + 1, c, ctx.strict, Seq::empty(), false);
        }
        read_str(src, p, ctx.strict)
    } else if c == '/' && is_expr_allowed {
        read_regex(src, p)
    } else {
        match read_punct(src, p) {
            Some((n, t)) => ScanAt { end: p + n, lexeme: LexemeAt::Tok(t) },
            None => ScanAt {
                end: p + 1,
                lexeme: LexemeAt::Bad(SyntaxError::UnexpectedChar { c }),
            },
        }
    }
}

/// Reads the token that starts at `p` inside a template.
fn read_tpl_token(src: &Vec<char>, p: usize, prev: Option<TokenKind>) -> (r: ScanAt)
    requires
        p < src.len(),
    ensures
        r@ == tpl_token_at(src@, p as int, prev),
        p <= r.end <= src.len(),
        !(r.lexeme is Regex),
{
    let after_chunk = match prev {
        Some(TokenKind::Template) => true,
        _ => false,
    };
    if after_chunk {
        let c = src[p];
        if c == '`' {
            ScanAt { end: p + 1, lexeme: LexemeAt::Tok(Token::BackQuote) }
        } else if c == '$' && at(src, p, 1, '{') {
            ScanAt { end: p + 2, lexeme: LexemeAt::Tok(Token::DollarLBrace) }
        } else {
            ScanAt { end: p + 1, lexeme: LexemeAt::Bad(SyntaxError::UnexpectedChar { c }) }
        }
    } else {
        proof {
            lemma_chunk_scan(src@, p as int, Seq::empty());
        }
        read_chunk(src, p)
    }
}

/// Builds the span between two byte offsets.
fn make_span(lo: u32, hi: u32) -> (s: Span)
    ensures
        s == (Span { lo: BytePos(lo), hi: BytePos(hi), ctxt: SyntaxContext(0) }),
{
    Span { lo: BytePos(lo), hi: BytePos(hi), ctxt: SyntaxContext(0) }
}

/// Attaches byte positions to what was read from `p` on.
fn make_token(src: &Vec<char>, p: usize, lo: u32, scan: ScanAt, hi: u32) -> (t: Token)
    requires
        p <= scan.end <= src.len(),
        lo == byte_offset(src@, p as int),
        hi == byte_offset(src@, scan.end as int),
        byte_len(src@) <= u32::MAX,
        match scan.lexeme {
            LexemeAt::Regex { body_end } => p + 1 <= body_end < scan.end,
            _ => true,
        },
    ensures
        t@ == token_of(src@, p as int, scan@),
{
    let end = scan.end;
    match scan.lexeme {
        LexemeAt::Tok(t) => t,
        LexemeAt::Regex { body_end } => {
            let body_lo = byte_pos_at(src, p, lo, p + 1);
            let body_hi = byte_pos_at(src, p + 1, body_lo, body_end);
            let body = Str {
                span: make_span(body_lo, body_hi),
                value: string_of(src, p + 1, body_end),
                has_escape: false,
            };
            let flags = if end > body_end + 1 {
                let flags_lo = byte_pos_at(src, body_end, body_hi, body_end + 1);
                Some(
                    Str {
                        span: make_span(flags_lo, hi),
                        value: string_of(src, body_end + 1, end),
                        has_escape: false,
                    },
                )
            } else {
                None
            };
            Token::Regex(body, flags)
        },
        LexemeAt::Bad(e) => Token::Error(Error { span: make_span(lo, hi), error: e }),
    }
}

impl Lexer {
    /// The tokenizer is well formed when it stands within its text, knows
    /// the byte offset of the place it stands at, and every byte offset of
    /// the text fits in 32 bits.
    pub open spec fn wf(&self) -> bool {
        &&& self.state.pos <= self.src.len()
        &&& self.state.byte_pos == byte_offset(self.src@, self.state.pos as int)
        &&& byte_len(self.src@) <= u32::MAX
    }

    /// A tokenizer at the start of `s`, under sloppy rules and outside a
    /// module.
    pub fn new(s: &str) -> (l: Lexer)
        requires
            encode_utf8(s@).len() <= u32::MAX,
        ensures
            l.wf(),
            l.src@ == s@,
            l.ctx == (Context { strict: false, module: false }),
            l.state@ == initial_state(),
    {
        let src = str_chars(s);
        let mut scopes: Vec<Scope> = Vec::new();
        scopes.push(Scope::BraceStmt);
        proof {
            lemma_byte_len_is_encoded_len(src@);
            lemma_byte_offset_end(src@);
            assert(scopes@ == seq![Scope::BraceStmt]);
        }
        Lexer {
            src,
            ctx: Context { strict: false, module: false },
            state: State {
                pos: 0,
                byte_pos: 0,
                is_expr_allowed: true,
                is_first: true,
                scopes,
                prev: None,
            },
        }
    }

    /// Reads the next token, or returns `None` at the end of the text.
    pub fn next(&mut self) -> (r: Option<TokenAndSpan>)
        requires
            old(self).wf(),
        ensures
            final(self).wf(),
            final(self).src == old(self).src,
            final(self).ctx == old(self).ctx,
            match next_token(old(self).src@, old(self).ctx, old(self).state@) {
                Some((t, st)) => r is Some && r->0@ == t && final(self).state@ == st,
                None => r is None && final(self).state == old(self).state,
            },
    {
        let in_tpl = match top(&self.state.scopes) {
            Some(Scope::Tpl) => true,
            _ => false,
        };
        let sk = if in_tpl {
            SkippedAt { end: self.state.pos, lb: self.state.is_first, err: None }
        } else {
            skip(&self.src, self.state.pos, self.state.is_first, self.ctx.module)
        };
        let p = sk.end;
        proof {
            lemma_next_token(self.src@, self.ctx, self.state@);
        }
        let scan = match sk.err {
            Some((e, end)) => ScanAt { end, lexeme: LexemeAt::Bad(e) },
            None => {
                if p >= self.src.len() {
                    let after_chunk_or_error = match self.state.prev {
                        Some(TokenKind::Template) | Some(TokenKind::Error) => true,
                        _ => false,
                    };
                    if in_tpl && !after_chunk_or_error {
                        ScanAt { end: p, lexeme: LexemeAt::Bad(SyntaxError::UnterminatedTpl) }
                    } else {
                        return None;
                    }
                } else if in_tpl {
                    read_tpl_token(&self.src, p, self.state.prev)
                } else {
                    read_token(&self.src, p, self.ctx, self.state.is_expr_allowed)
                }
            },
        };
        let lo = byte_pos_at(&self.src, self.state.pos, self.state.byte_pos, p);
        let hi = byte_pos_at(&self.src, p, lo, scan.end);
        let end = scan.end;
        let token = make_token(&self.src, p, lo, scan, hi);
        let kind = token.kind();
        let allowed = advance(
            &mut self.state.scopes,
            self.state.prev,
            kind,
            sk.lb,
            self.state.is_expr_allowed,
        );
        self.state.pos = end;
        self.state.byte_pos = hi;
        self.state.is_expr_allowed = allowed;
        self.state.is_first = false;
        self.state.prev = Some(kind);
        Some(TokenAndSpan { token, had_line_break: sk.lb, span: make_span(lo, hi) })
    }

    /// Reads all the tokens that are left.
    pub fn collect(self) -> (v: Vec<TokenAndSpan>)
        requires
            self.wf(),
        ensures
            tokens_view(v@) == tokens_from(self.src@, self.ctx, self.state@),
    {
        let mut lexer = self;
        let mut v: Vec<TokenAndSpan> = Vec::new();
        assert(tokens_view(v@) == Seq::<TokenAndSpanView>::empty());
        loop
            invariant
                lexer.wf(),
                lexer.src == self.src,
                lexer.ctx == self.ctx,
                tokens_from(self.src@, self.ctx, self.state@) == tokens_view(v@) + tokens_from(
                    lexer.src@,
                    lexer.ctx,
                    lexer.state@,
                ),
            ensures
                tokens_view(v@) == tokens_from(self.src@, self.ctx, self.state@),
            decreases distance(lexer.src@, lexer.state@),
        {
            proof {
                lemma_next_token(lexer.src@, lexer.ctx, lexer.state@);
            }
            let ghost before = tokens_view(v@);
            match lexer.next() {
                Some(t) => {
                    v.push(t);
                    assert(tokens_view(v@) == before.push(t@));
                    assert(before + (seq![t@] + tokens_from(lexer.src@, lexer.ctx, lexer.state@))
                        == before.push(t@) + tokens_from(lexer.src@, lexer.ctx, lexer.state@));
                },
                None => {
                    assert(before + Seq::<TokenAndSpanView>::empty() == before);
                    break ;
                },
            }
        }
        v
    }
}

/// All the tokens of `s`, read under sloppy rules and outside a module.
pub fn lex(s: &str) -> (v: Vec<TokenAndSpan>)
    requires
        encode_utf8(s@).len() <= u32::MAX,
    ensures
        tokens_view(v@) == tokens_of(s@, Context { strict: false, module: false }),
{
    Lexer::new(s).collect()
}

/// All the tokens of `s`, read as a module under strict rules.
pub fn lex_module(s: &str) -> (v: Vec<TokenAndSpan>)
    requires
        encode_utf8(s@).len() <= u32::MAX,
    ensures
        tokens_view(v@) == tokens_of(s@, Context { strict: true, module: true }),
{
    let mut l = Lexer::new(s);
    l.ctx.strict = true;
    l.ctx.module = true;
    l.collect()
}

/// The tokens of a run, without their places.
pub open spec fn bare_tokens(v: Seq<TokenAndSpanView>) -> Seq<TokenView> {
    v.map_values(|t: TokenAndSpanView| t.token)
}

/// The values of a run of bare tokens, one for one.
pub open spec fn bare_view(v: Seq<Token>) -> Seq<TokenView> {
    v.map_values(|t: Token| t@)
}

/// All the tokens of `s` without their places, read under sloppy rules
/// and outside a module.
pub fn lex_tokens(s: &str) -> (v: Vec<Token>)
    requires
        encode_utf8(s@).len() <= u32::MAX,
    ensures
        bare_view(v@) == bare_tokens(tokens_of(s@, Context { strict: false, module: false })),
{
    let mut lexer = Lexer::new(s);
    let ghost start = lexer;
    let mut v: Vec<Token> = Vec::new();
    assert(bare_view(v@) == Seq::<TokenView>::empty());
    loop
        invariant
            lexer.wf(),
            lexer.src == start.src,
            lexer.ctx == start.ctx,
            bare_tokens(tokens_from(start.src@, start.ctx, start.state@)) == bare_view(v@)
                + bare_tokens(tokens_from(lexer.src@, lexer.ctx, lexer.state@)),
        ensures
            bare_view(v@) == bare_tokens(tokens_from(start.src@, start.ctx, start.state@)),
        decreases distance(lexer.src@, lexer.state@),
    {
        proof {
            lemma_next_token(lexer.src@, lexer.ctx, lexer.state@);
        }
        let ghost before = bare_view(v@);
        match lexer.next() {
            Some(t) => {
                let ghost rest = tokens_from(lexer.src@, lexer.ctx, lexer.state@);
                v.push(t.token);
                assert(bare_view(v@) == before.push(t.token@));
                assert(bare_tokens(seq![t@] + rest) == seq![t.token@] + bare_tokens(rest));
                assert(before + (seq![t.token@] + bare_tokens(rest)) == before.push(t.token@)
                    + bare_tokens(rest));
            },
            None => {
                assert(bare_tokens(Seq::<TokenAndSpanView>::empty()) == Seq::<TokenView>::empty());
                assert(before + Seq::<TokenView>::empty() == before);
                break ;
            },
        }
    }
    v
}

/// Runs `f` on a tokenizer at the start of `s`, under sloppy rules and
/// outside a module, and returns what `f` returns.
pub fn with_lexer<F, Ret>(s: &str, f: F) -> (ret: Ret) where F: FnOnce(Lexer) -> Ret
    requires
        encode_utf8(s@).len() <= u32::MAX,
        forall|l: Lexer|
            l.wf() && l.src@ == s@ && l.ctx == (Context { strict: false, module: false })
                && l.state@ == initial_state() ==> f.requires((l,)),
    ensures
        exists|l: Lexer|
            l.wf() && l.src@ == s@ && l.ctx == (Context { strict: false, module: false })
                && l.state@ == initial_state() && f.ensures((l,), ret),
{
    let l = Lexer::new(s);
    f(l)
}

} // verus!
