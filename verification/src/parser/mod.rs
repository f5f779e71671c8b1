//! The parser's driver: a run of tokens with one token of lookahead.

pub mod grammar;
pub mod laws;
pub mod object;
pub mod progress;

use crate::error::{Error, SyntaxError};
use crate::lexer::{tokens_from, Lexer};
use crate::span::{BytePos, Span, SyntaxContext};
use crate::token::{tokens_view, Token, TokenAndSpan, TokenAndSpanView, TokenKind, TokenView};
use vstd::prelude::*;

verus! {

/// The rules that hold at the place the parser stands at.
#[derive(Clone, Copy, Debug, PartialEq, Eq, Structural, Hash)]
pub struct ParseCtx {
    /// Whether strict rules hold.
    pub strict: bool,
    /// Whether the text is a module.
    pub module: bool,
    /// Whether the parser stands in a generator.
    pub in_generator: bool,
    /// Whether the parser stands in an asynchronous function.
    pub in_async: bool,
    /// Whether the operator `in` may stand in the expression being read.
    pub include_in_expr: bool,
}

/// The token with index `pos`, if there is one.
pub open spec fn tok_at(toks: Seq<TokenAndSpanView>, pos: int) -> Option<TokenView> {
    if 0 <= pos < toks.len() {
        Some(toks[pos].token)
    } else {
        None
    }
}

/// The kind of the token with index `pos`, if there is one.
pub open spec fn kind_at(toks: Seq<TokenAndSpanView>, pos: int) -> Option<TokenKind> {
    if 0 <= pos < toks.len() {
        Some(toks[pos].token.kind())
    } else {
        None
    }
}

/// Where the token before index `pos` stops; the start of the text if
/// there is none.
pub open spec fn last_hi(toks: Seq<TokenAndSpanView>, pos: int) -> BytePos {
    if 0 < pos <= toks.len() {
        toks[pos - 1].span.hi
    } else {
        BytePos(0)
    }
}

/// Where the token with index `pos` starts; past the last token, where
/// that one stops.
pub open spec fn cur_lo(toks: Seq<TokenAndSpanView>, pos: int) -> BytePos {
    if 0 <= pos < toks.len() {
        toks[pos].span.lo
    } else {
        last_hi(toks, pos)
    }
}

/// The span between two positions, whichever order they come in.
pub open spec fn span_between(a: BytePos, b: BytePos) -> Span {
    if a.0 <= b.0 {
        Span { lo: a, hi: b, ctxt: SyntaxContext(0) }
    } else {
        Span { lo: b, hi: a, ctxt: SyntaxContext(0) }
    }
}

/// The span from `start` to the end of the token before index `pos`.
pub open spec fn span_from(toks: Seq<TokenAndSpanView>, start: BytePos, pos: int) -> Span {
    span_between(start, last_hi(toks, pos))
}

/// The error for the token with index `pos`, which the grammar does not
/// allow there: the token's own error if it is a malformed piece of text,
/// the end of the text if there is no token, else an unexpected token.
pub open spec fn unexpected(toks: Seq<TokenAndSpanView>, pos: int) -> Error {
    match tok_at(toks, pos) {
        Some(TokenView::Error(e)) => e,
        Some(_) => Error { span: toks[pos].span, error: SyntaxError::Unexpected },
        None => Error {
            span: span_between(last_hi(toks, pos), last_hi(toks, pos)),
            error: SyntaxError::Eof,
        },
    }
}

/// A parser over a run of tokens.
pub struct Parser {
    /// The tokens of the text.
    pub tokens: Vec<TokenAndSpan>,
    /// The index of the current token.
    pub pos: usize,
    /// The rules that hold at the current token.
    pub ctx: ParseCtx,
}

impl Parser {
    /// The values of the parser's tokens.
    pub open spec fn toks(&self) -> Seq<TokenAndSpanView> {
        tokens_view(self.tokens@)
    }

    /// The parser is well formed when it stands within its tokens.
    pub open spec fn wf(&self) -> bool {
        self.pos <= self.tokens.len()
    }

    /// A parser at the first of `tokens`, outside any function.
    pub fn new(tokens: Vec<TokenAndSpan>, strict: bool, module: bool) -> (p: Parser)
        ensures
            p.wf(),
            p.tokens == tokens,
            p.pos == 0,
            p.ctx == (ParseCtx {
                strict,
                module,
                in_generator: false,
                in_async: false,
                include_in_expr: true,
            }),
    {
        Parser {
            tokens,
            pos: 0,
            ctx: ParseCtx {
                strict,
                module,
                in_generator: false,
                in_async: false,
                include_in_expr: true,
            },
        }
    }

    /// A parser at the first token of the text that `lexer` holds.
    pub fn from_lexer(lexer: Lexer) -> (p: Parser)
        requires
            lexer.wf(),
        ensures
            p.wf(),
            p.toks() == tokens_from(lexer.src@, lexer.ctx, lexer.state@),
            p.pos == 0,
            p.ctx == (ParseCtx {
                strict: lexer.ctx.strict,
                module: lexer.ctx.module,
                in_generator: false,
                in_async: false,
                include_in_expr: true,
            }),
    {
        let strict = lexer.ctx.strict;
        let module = lexer.ctx.module;
        let tokens = lexer.collect();
        Parser::new(tokens, strict, module)
    }

    /// The current token, if the parser is not at the end.
    pub fn cur(&self) -> (t: Option<&Token>)
        requires
            self.wf(),
        ensures
            match t {
                Some(t) => tok_at(self.toks(), self.pos as int) == Some(t@) && self.pos
                    < self.tokens.len() && *t == self.tokens@[self.pos as int].token,
                None => tok_at(self.toks(), self.pos as int) is None && self.pos
                    == self.tokens.len(),
            },
    {
        if self.pos < self.tokens.len() {
            Some(&self.tokens[self.pos].token)
        } else {
            None
        }
    }

    /// The kind of the current token, if the parser is not at the end.
    pub fn cur_kind(&self) -> (k: Option<TokenKind>)
        requires
            self.wf(),
        ensures
            k == kind_at(self.toks(), self.pos as int),
            k is Some <==> self.pos < self.tokens.len(),
    {
        if self.pos < self.tokens.len() {
            Some(self.tokens[self.pos].token.kind())
        } else {
            None
        }
    }

    /// Whether the current token is of the given kind.
    pub fn is(&self, kind: TokenKind) -> (b: bool)
        requires
            self.wf(),
        ensures
            b == (kind_at(self.toks(), self.pos as int) == Some(kind)),
            b ==> self.pos < self.tokens.len(),
    {
        match self.cur_kind() {
            Some(k) => k == kind,
            None => false,
        }
    }

    /// Steps over the current token.
    pub fn bump(&mut self)
        requires
            old(self).wf(),
            old(self).pos < old(self).tokens.len(),
        ensures
            final(self).wf(),
            final(self).tokens == old(self).tokens,
            final(self).ctx == old(self).ctx,
            final(self).pos == old(self).pos + 1,
    {
        self.pos = self.pos + 1;
    }

    /// Steps over the current token if it is of the given kind, and tells
    /// whether it did.
    pub fn eat(&mut self, kind: TokenKind) -> (b: bool)
        requires
            old(self).wf(),
        ensures
            final(self).wf(),
            final(self).tokens == old(self).tokens,
            final(self).ctx == old(self).ctx,
            b == (kind_at(old(self).toks(), old(self).pos as int) == Some(kind)),
            final(self).pos == (if b {
                old(self).pos + 1
            } else {
                old(self).pos as int
            }),
    {
        if self.is(kind) {
            self.pos = self.pos + 1;
            true
        } else {
            false
        }
    }

    /// Steps over the current token if it is of the given kind; else
    /// returns the error for it and stays.
    pub fn expect(&mut self, kind: TokenKind) -> (r: Result<(), Error>)
        requires
            old(self).wf(),
        ensures
            final(self).wf(),
            final(self).tokens == old(self).tokens,
            final(self).ctx == old(self).ctx,
            kind_at(old(self).toks(), old(self).pos as int) == Some(kind) ==> r is Ok
                && final(self).pos == old(self).pos + 1,
            kind_at(old(self).toks(), old(self).pos as int) != Some(kind) ==> r == Err::<(), Error>(
                unexpected(old(self).toks(), old(self).pos as int),
            ) && final(self).pos == old(self).pos,
    {
        if self.is(kind) {
            self.pos = self.pos + 1;
            Ok(())
        } else {
            Err(self.unexpected())
        }
    }

    /// Where the current token starts.
    pub fn cur_pos(&self) -> (b: BytePos)
        requires
            self.wf(),
        ensures
            b == cur_lo(self.toks(), self.pos as int),
    {
        if self.pos < self.tokens.len() {
            self.tokens[self.pos].span.lo
        } else {
            self.last_pos()
        }
    }

    /// Where the token before the current one stops.
    pub fn last_pos(&self) -> (b: BytePos)
        requires
            self.wf(),
        ensures
            b == last_hi(self.toks(), self.pos as int),
    {
        if self.pos > 0 {
            self.tokens[self.pos - 1].span.hi
        } else {
            BytePos(0)
        }
    }

    /// The span from `start` to the end of the token before the current one.
    pub fn span(&self, start: BytePos) -> (s: Span)
        requires
            self.wf(),
        ensures
            s == span_from(self.toks(), start, self.pos as int),
            s.wf(),
    {
        Span::new(start, self.last_pos(), SyntaxContext::empty())
    }

    /// The error for the current token, which the grammar does not allow
    /// at its place.
    pub fn unexpected(&self) -> (e: Error)
        requires
            self.wf(),
        ensures
            e == unexpected(self.toks(), self.pos as int),
    {
        if self.pos < self.tokens.len() {
            match &self.tokens[self.pos].token {
                Token::Error(e) => *e,
                _ => Error { span: self.tokens[self.pos].span, error: SyntaxError::Unexpected },
            }
        } else {
            let end = self.last_pos();
            Error { span: Span::new(end, end, SyntaxContext::empty()), error: SyntaxError::Eof }
        }
    }
}

} // verus!
