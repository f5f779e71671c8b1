//! The grammar of object literals and object patterns, as functions from a
//! run of tokens and an index to what is parsed there and the index after it.

use crate::ast::{BlockStmt, ExprView, FunctionView, IdentView, NumberLitView, ObjectLitView,
    ObjectPatPropView, ObjectPatView, PatView, PropNameView, PropView};
use crate::error::{Error, SyntaxError};
use crate::parser::{cur_lo, kind_at, span_from, tok_at, unexpected, ParseCtx};
use crate::span::{BytePos, Span, SyntaxContext};
use crate::token::{AssignOpToken, BinOpToken, Keyword, StrView, TokenAndSpanView, TokenKind,
    TokenView, WordView};
use crate::words::{spec_is_reserved_word, word_text};
use vstd::prelude::*;

verus! {

/// What the braces are parsed as.
#[derive(Clone, Copy, Debug, PartialEq, Eq, Structural, Hash)]
pub enum Target {
    /// An object literal.
    Expr,
    /// An object pattern.
    Pat,
}

/// Which parameters a function takes.
#[derive(Clone, Copy, Debug, PartialEq, Eq, Structural, Hash)]
pub enum Params {
    /// None, as a getter.
    Zero,
    /// Exactly one, as a setter.
    One,
    /// Any number, separated by commas.
    All,
}

/// The mathematical value of a property of either kind.
pub enum AnyPropView {
    Lit(PropView),
    Pat(ObjectPatPropView),
}

/// The mathematical value of an object of either kind.
pub enum ObjectView {
    Lit(ObjectLitView),
    Pat(ObjectPatView),
}

/// An error that stands where the grammar cannot get: every rule that
/// succeeds takes at least one token.
pub open spec fn stuck() -> Error {
    Error {
        span: Span { lo: BytePos(0), hi: BytePos(0), ctxt: SyntaxContext(0) },
        error: SyntaxError::Unexpected,
    }
}

/// The result `r` of a rule applied at `p`, given that it moved forward
/// and stayed within the tokens.
pub open spec fn forward<T>(toks: Seq<TokenAndSpanView>, p: int, r: Result<(T, int), Error>)
    -> Result<(T, int), Error> {
    match r {
        Ok((v, q)) => if p < q <= toks.len() {
            r
        } else {
            Err(stuck())
        },
        Err(e) => r,
    }
}

/// Whether `text` is reserved under the rules of `ctx`.
pub open spec fn reserved(ctx: ParseCtx, text: Seq<char>) -> bool {
    spec_is_reserved_word(text, ctx.strict, ctx.module, ctx.in_generator, ctx.in_async)
}

/// The rules of `ctx`, with the operator `in` allowed.
pub open spec fn with_in(ctx: ParseCtx) -> ParseCtx {
    ParseCtx { include_in_expr: true, ..ctx }
}

/// The span of the token with index `pos`.
pub open spec fn tok_span(toks: Seq<TokenAndSpanView>, pos: int) -> Span {
    span_from(toks, cur_lo(toks, pos), pos + 1)
}

/// The properties of an object literal among properties of either kind.
pub open spec fn lits(ps: Seq<AnyPropView>) -> Seq<PropView>
    decreases ps.len(),
{
    if ps.len() == 0 {
        Seq::empty()
    } else {
        match ps.last() {
            AnyPropView::Lit(p) => lits(ps.drop_last()).push(p),
            AnyPropView::Pat(_) => lits(ps.drop_last()),
        }
    }
}

/// The properties of an object pattern among properties of either kind.
pub open spec fn pats(ps: Seq<AnyPropView>) -> Seq<ObjectPatPropView>
    decreases ps.len(),
{
    if ps.len() == 0 {
        Seq::empty()
    } else {
        match ps.last() {
            AnyPropView::Pat(p) => pats(ps.drop_last()).push(p),
            AnyPropView::Lit(_) => pats(ps.drop_last()),
        }
    }
}

/// The object of the kind `target` with the given span and properties.
pub open spec fn make_object(target: Target, span: Span, ps: Seq<AnyPropView>) -> ObjectView {
    match target {
        Target::Expr => ObjectView::Lit(ObjectLitView { span, props: lits(ps) }),
        Target::Pat => ObjectView::Pat(ObjectPatView { span, props: pats(ps) }),
    }
}

/// The index after the `}` that closes a block whose inside starts at
/// `pos`, where `depth` braces are open inside it.
pub open spec fn block_end(toks: Seq<TokenAndSpanView>, pos: int, depth: nat) -> Result<int, Error>
    decreases toks.len() - pos,
{
    if pos < 0 || pos >= toks.len() {
        Err(unexpected(toks, pos))
    } else {
        match toks[pos].token {
            TokenView::Error(e) => Err(e),
            TokenView::LBrace | TokenView::DollarLBrace => block_end(toks, pos + 1, depth + 1),
            TokenView::RBrace => if depth == 0 {
                Ok(pos + 1)
            } else {
                block_end(toks, pos + 1, (depth - 1) as nat)
            },
            _ => block_end(toks, pos + 1, depth),
        }
    }
}

/// The body of a function at `pos`: from `{` to the `}` that matches it.
pub open spec fn fn_body(toks: Seq<TokenAndSpanView>, pos: int) -> Result<(BlockStmt, int), Error> {
    if kind_at(toks, pos) != Some(TokenKind::LBrace) {
        Err(unexpected(toks, pos))
    } else {
        match block_end(toks, pos + 1, 0) {
            Ok(e) => Ok((BlockStmt { span: span_from(toks, cur_lo(toks, pos), e) }, e)),
            Err(e) => Err(e),
        }
    }
}

/// The key of a property at `pos`: a string, a number, a word, or an
/// expression in brackets.
pub open spec fn prop_name(toks: Seq<TokenAndSpanView>, pos: int, ctx: ParseCtx) -> Result<
    (PropNameView, int),
    Error,
>
    decreases toks.len() - pos, 0int,
{
    match tok_at(toks, pos) {
        Some(TokenView::Str { value, has_escape }) => Ok(
            (PropNameView::Str(StrView { span: tok_span(toks, pos), value, has_escape }), pos + 1),
        ),
        Some(TokenView::Num(n)) => Ok(
            (PropNameView::Num(NumberLitView { span: tok_span(toks, pos), value: n }), pos + 1),
        ),
        Some(TokenView::Word(w)) => Ok(
            (
                PropNameView::Ident(IdentView { span: tok_span(toks, pos), sym: word_text(w) }),
                pos + 1,
            ),
        ),
        Some(TokenView::LBracket) => match assignment_expr(toks, pos + 1, with_in(ctx)) {
            Ok((e, p)) => if kind_at(toks, p) == Some(TokenKind::RBracket) {
                Ok((PropNameView::Computed(Box::new(e)), p + 1))
            } else {
                Err(unexpected(toks, p))
            },
            Err(e) => Err(e),
        },
        _ => Err(unexpected(toks, pos)),
    }
}

/// The expression at `pos`: a name that is not reserved, a literal,
/// `this`, or an object literal.
pub open spec fn assignment_expr(toks: Seq<TokenAndSpanView>, pos: int, ctx: ParseCtx) -> Result<
    (ExprView, int),
    Error,
>
    decreases toks.len() - pos, 1int,
{
    let span = tok_span(toks, pos);
    match tok_at(toks, pos) {
        Some(TokenView::Word(WordView::True)) => Ok((ExprView::Bool { span, value: true }, pos + 1)),
        Some(TokenView::Word(WordView::False)) => Ok(
            (ExprView::Bool { span, value: false }, pos + 1),
        ),
        Some(TokenView::Word(WordView::Null)) => Ok((ExprView::Null { span }, pos + 1)),
        Some(TokenView::Word(WordView::Keyword(Keyword::This))) => Ok(
            (ExprView::This { span }, pos + 1),
        ),
        Some(TokenView::Word(w)) => if reserved(ctx, word_text(w)) {
            Err(unexpected(toks, pos))
        } else {
            Ok((ExprView::Ident(IdentView { span, sym: word_text(w) }), pos + 1))
        },
        Some(TokenView::Str { value, has_escape }) => Ok(
            (ExprView::Str(StrView { span, value, has_escape }), pos + 1),
        ),
        Some(TokenView::Num(n)) => Ok((ExprView::Num(NumberLitView { span, value: n }), pos + 1)),
        Some(TokenView::LBrace) => match object(toks, pos, ctx, Target::Expr) {
            Ok((ObjectView::Lit(o), p)) => Ok((ExprView::Object(o), p)),
            Ok((ObjectView::Pat(_), _)) => Err(stuck()),
            Err(e) => Err(e),
        },
        _ => Err(unexpected(toks, pos)),
    }
}

/// What a binding element binds, at `pos`: a name that is not reserved,
/// or an object pattern.
pub open spec fn binding_target(toks: Seq<TokenAndSpanView>, pos: int, ctx: ParseCtx) -> Result<
    (PatView, int),
    Error,
>
    decreases toks.len() - pos, 1int,
{
    match tok_at(toks, pos) {
        Some(TokenView::Word(w)) => if reserved(ctx, word_text(w)) {
            Err(unexpected(toks, pos))
        } else {
            Ok(
                (
                    PatView::Ident(IdentView { span: tok_span(toks, pos), sym: word_text(w) }),
                    pos + 1,
                ),
            )
        },
        Some(TokenView::LBrace) => match object(toks, pos, ctx, Target::Pat) {
            Ok((ObjectView::Pat(o), p)) => Ok((PatView::Object(o), p)),
            Ok((ObjectView::Lit(_), _)) => Err(stuck()),
            Err(e) => Err(e),
        },
        _ => Err(unexpected(toks, pos)),
    }
}

/// The binding element at `pos`: what it binds, with an optional default
/// after `=`.
pub open spec fn binding_element(toks: Seq<TokenAndSpanView>, pos: int, ctx: ParseCtx) -> Result<
    (PatView, int),
    Error,
>
    decreases toks.len() - pos, 2int,
{
    let start = cur_lo(toks, pos);
    match forward(toks, pos, binding_target(toks, pos, ctx)) {
        Ok((l, p1)) => if kind_at(toks, p1) == Some(TokenKind::AssignOp(AssignOpToken::Assign)) {
            match assignment_expr(toks, p1 + 1, with_in(ctx)) {
                Ok((r, p2)) => Ok(
                    (
                        PatView::Assign {
                            span: span_from(toks, start, p2),
                            left: Box::new(l),
                            right: Box::new(r),
                        },
                        p2,
                    ),
                ),
                Err(e) => Err(e),
            }
        } else {
            Ok((l, p1))
        },
        Err(e) => Err(e),
    }
}

/// The object at `pos`, read as a literal or as a pattern: `{`, then
/// properties separated by commas, then `}`. A comma may stand before the
/// closing brace.
pub open spec fn object(toks: Seq<TokenAndSpanView>, pos: int, ctx: ParseCtx, target: Target)
    -> Result<(ObjectView, int), Error>
    decreases toks.len() - pos, 0int,
{
    if kind_at(toks, pos) != Some(TokenKind::LBrace) {
        Err(unexpected(toks, pos))
    } else {
        match props(toks, pos + 1, ctx, target, true) {
            Ok((ps, p)) => Ok(
                (make_object(target, span_from(toks, cur_lo(toks, pos), p), ps), p),
            ),
            Err(e) => Err(e),
        }
    }
}

/// The properties from `pos` on, up to and with the closing brace;
/// `first` tells whether no property was read yet.
pub open spec fn props(
    toks: Seq<TokenAndSpanView>,
    pos: int,
    ctx: ParseCtx,
    target: Target,
    first: bool,
) -> Result<(Seq<AnyPropView>, int), Error>
    decreases toks.len() - pos, 3int,
{
    if kind_at(toks, pos) == Some(TokenKind::RBrace) {
        Ok((Seq::empty(), pos + 1))
    } else if !first && kind_at(toks, pos) != Some(TokenKind::Comma) {
        Err(unexpected(toks, pos))
    } else if !first && kind_at(toks, pos + 1) == Some(TokenKind::RBrace) {
        Ok((Seq::empty(), pos + 2))
    } else {
        let p = if first {
            pos
        } else {
            pos + 1
        };
        match forward(toks, p, object_prop(toks, p, ctx, target)) {
            Ok((x, p2)) => match props(toks, p2, ctx, target, false) {
                Ok((rest, p3)) => Ok((seq![x] + rest, p3)),
                Err(e) => Err(e),
            },
            Err(e) => Err(e),
        }
    }
}

/// The property at `pos`, of the kind that `target` asks for.
pub open spec fn object_prop(toks: Seq<TokenAndSpanView>, pos: int, ctx: ParseCtx, target: Target)
    -> Result<(AnyPropView, int), Error>
    decreases toks.len() - pos, 2int,
{
    match target {
        Target::Expr => match expr_prop(toks, pos, ctx) {
            Ok((x, p)) => Ok((AnyPropView::Lit(x), p)),
            Err(e) => Err(e),
        },
        Target::Pat => match pat_prop(toks, pos, ctx) {
            Ok((x, p)) => Ok((AnyPropView::Pat(x), p)),
            Err(e) => Err(e),
        },
    }
}

/// Whether a shorthand property ends before the token of this kind.
pub open spec fn ends_shorthand(k: Option<TokenKind>) -> bool {
    k == Some(TokenKind::AssignOp(AssignOpToken::Assign)) || k == Some(TokenKind::Comma) || k
        == Some(TokenKind::RBrace)
}

/// The method that follows its key: parameters and body.
pub open spec fn method(
    toks: Seq<TokenAndSpanView>,
    pos: int,
    ctx: ParseCtx,
    start: BytePos,
    key: PropNameView,
    async_: Option<Span>,
    generator: Option<Span>,
) -> Result<(PropView, int), Error>
    decreases toks.len() - pos, 1int,
{
    match fn_args_body(toks, pos, ctx, start, Params::All, async_, generator) {
        Ok((function, p)) => Ok((PropView::Method { key, function }, p)),
        Err(e) => Err(e),
    }
}

/// The property of an object literal at `pos`.
///
/// After `*` comes a generator method. After a key, `:` brings a value and
/// `(` a method. Otherwise the key must be a plain word. Before `=`, `,`
/// or `}` it is a shorthand, which must not be reserved, with a default
/// after `=`. Else the word must be `get`, `set` or `async`, and a
/// getter, a setter or an asynchronous method follows.
pub open spec fn expr_prop(toks: Seq<TokenAndSpanView>, pos: int, ctx: ParseCtx) -> Result<
    (PropView, int),
    Error,
>
    decreases toks.len() - pos, 1int,
{
    let start = cur_lo(toks, pos);
    if kind_at(toks, pos) == Some(TokenKind::BinOp(BinOpToken::Mul)) {
        match forward(toks, pos + 1, prop_name(toks, pos + 1, ctx)) {
            Ok((key, p1)) => method(toks, p1, ctx, start, key, None, Some(tok_span(toks, pos))),
            Err(e) => Err(e),
        }
    } else {
        match forward(toks, pos, prop_name(toks, pos, ctx)) {
            Ok((key, p1)) => if kind_at(toks, p1) == Some(TokenKind::Colon) {
                match assignment_expr(toks, p1 + 1, with_in(ctx)) {
                    Ok((v, p2)) => Ok((PropView::KeyValue { key, value: Box::new(v) }, p2)),
                    Err(e) => Err(e),
                }
            } else if kind_at(toks, p1) == Some(TokenKind::LParen) {
                method(toks, p1, ctx, start, key, None, None)
            } else {
                match key {
                    PropNameView::Ident(ident) => if ends_shorthand(kind_at(toks, p1)) {
                        if reserved(ctx, ident.sym) {
                            Err(
                                Error {
                                    span: ident.span,
                                    error: SyntaxError::ReservedWordInObjShorthandOrPat,
                                },
                            )
                        } else if kind_at(toks, p1) == Some(
                            TokenKind::AssignOp(AssignOpToken::Assign),
                        ) {
                            match assignment_expr(toks, p1 + 1, with_in(ctx)) {
                                Ok((v, p2)) => Ok(
                                    (PropView::Assign { key: ident, value: Box::new(v) }, p2),
                                ),
                                Err(e) => Err(e),
                            }
                        } else {
                            Ok((PropView::Shorthand(ident), p1))
                        }
                    } else if ident.sym == "get"@ || ident.sym == "set"@ || ident.sym
                        == "async"@ {
                        match forward(toks, p1, prop_name(toks, p1, ctx)) {
                            Ok((key2, p2)) => accessor(toks, p2, ctx, start, ident, key2),
                            Err(e) => Err(e),
                        }
                    } else {
                        Err(unexpected(toks, p1))
                    },
                    _ => Err(unexpected(toks, p1)),
                }
            },
            Err(e) => Err(e),
        }
    }
}

/// The getter that follows its key: no parameters, and a body.
pub open spec fn getter(
    toks: Seq<TokenAndSpanView>,
    pos: int,
    ctx: ParseCtx,
    start: BytePos,
    key: PropNameView,
) -> Result<(PropView, int), Error>
    decreases toks.len() - pos, 1int,
{
    match fn_args_body(toks, pos, ctx, start, Params::Zero, None, None) {
        Ok((f, p)) => Ok(
            (PropView::Getter { span: span_from(toks, start, p), key, body: f.body }, p),
        ),
        Err(e) => Err(e),
    }
}

/// The setter that follows its key: one parameter, and a body.
pub open spec fn setter(
    toks: Seq<TokenAndSpanView>,
    pos: int,
    ctx: ParseCtx,
    start: BytePos,
    key: PropNameView,
) -> Result<(PropView, int), Error>
    decreases toks.len() - pos, 1int,
{
    match fn_args_body(toks, pos, ctx, start, Params::One, None, None) {
        Ok((f, p)) => if f.params.len() == 1 {
            Ok(
                (
                    PropView::Setter {
                        span: span_from(toks, start, p),
                        key,
                        body: f.body,
                        param: f.params[0],
                    },
                    p,
                ),
            )
        } else {
            Err(stuck())
        },
        Err(e) => Err(e),
    }
}

/// What follows the word `get`, `set` or `async` and a key: a getter, a
/// setter, or an asynchronous method.
pub open spec fn accessor(
    toks: Seq<TokenAndSpanView>,
    pos: int,
    ctx: ParseCtx,
    start: BytePos,
    word: IdentView,
    key: PropNameView,
) -> Result<(PropView, int), Error>
    decreases toks.len() - pos, 2int,
{
    if word.sym == "get"@ {
        getter(toks, pos, ctx, start, key)
    } else if word.sym == "set"@ {
        setter(toks, pos, ctx, start, key)
    } else {
        method(toks, pos, ctx, start, key, Some(word.span), None)
    }
}

/// The property of an object pattern at `pos`.
///
/// After a key, `:` brings a binding element. Otherwise the key must be a
/// plain word: with a default after `=`, or else a shorthand binding,
/// which must not be reserved.
pub open spec fn pat_prop(toks: Seq<TokenAndSpanView>, pos: int, ctx: ParseCtx) -> Result<
    (ObjectPatPropView, int),
    Error,
>
    decreases toks.len() - pos, 1int,
{
    let start = cur_lo(toks, pos);
    match forward(toks, pos, prop_name(toks, pos, ctx)) {
        Ok((key, p1)) => if kind_at(toks, p1) == Some(TokenKind::Colon) {
            match binding_element(toks, p1 + 1, ctx) {
                Ok((v, p2)) => Ok((ObjectPatPropView::KeyValue { key, value: Box::new(v) }, p2)),
                Err(e) => Err(e),
            }
        } else {
            match key {
                PropNameView::Ident(ident) => if kind_at(toks, p1) == Some(
                    TokenKind::AssignOp(AssignOpToken::Assign),
                ) {
                    match assignment_expr(toks, p1 + 1, with_in(ctx)) {
                        Ok((v, p2)) => Ok(
                            (
                                ObjectPatPropView::Assign {
                                    span: span_from(toks, start, p2),
                                    key: ident,
                                    value: Some(Box::new(v)),
                                },
                                p2,
                            ),
                        ),
                        Err(e) => Err(e),
                    }
                } else if reserved(ctx, ident.sym) {
                    Err(
                        Error {
                            span: ident.span,
                            error: SyntaxError::ReservedWordInObjShorthandOrPat,
                        },
                    )
                } else {
                    Ok(
                        (
                            ObjectPatPropView::Assign {
                                span: span_from(toks, start, p1),
                                key: ident,
                                value: None,
                            },
                            p1,
                        ),
                    )
                },
                _ => Err(unexpected(toks, p1)),
            }
        },
        Err(e) => Err(e),
    }
}

/// The rules inside a function that is asynchronous, a generator, both or
/// neither.
pub open spec fn fn_ctx(ctx: ParseCtx, async_: Option<Span>, generator: Option<Span>) -> ParseCtx {
    ParseCtx { in_async: async_ is Some, in_generator: generator is Some, ..ctx }
}

/// The parameters and the body of a function at `pos`: `(`, the
/// parameters that `params` asks for, `)`, and the body. The function's
/// span starts at `start`.
pub open spec fn fn_args_body(
    toks: Seq<TokenAndSpanView>,
    pos: int,
    ctx: ParseCtx,
    start: BytePos,
    params: Params,
    async_: Option<Span>,
    generator: Option<Span>,
) -> Result<(FunctionView, int), Error>
    decreases toks.len() - pos, 0int,
{
    let inner = fn_ctx(ctx, async_, generator);
    if kind_at(toks, pos) != Some(TokenKind::LParen) {
        Err(unexpected(toks, pos))
    } else {
        match fn_params(toks, pos + 1, inner, params) {
            Ok((params, p1)) => if kind_at(toks, p1) != Some(TokenKind::RParen) {
                Err(unexpected(toks, p1))
            } else {
                match fn_body(toks, p1 + 1) {
                    Ok((body, p2)) => Ok(
                        (
                            FunctionView {
                                params,
                                span: span_from(toks, start, p2),
                                body,
                                is_generator: generator is Some,
                                async_,
                            },
                            p2,
                        ),
                    ),
                    Err(e) => Err(e),
                }
            },
            Err(e) => Err(e),
        }
    }
}

/// The parameters at `pos` that `params` asks for, up to but without the
/// closing parenthesis.
pub open spec fn fn_params(toks: Seq<TokenAndSpanView>, pos: int, ctx: ParseCtx, params: Params)
    -> Result<(Seq<PatView>, int), Error>
    decreases toks.len() - pos, 4int,
{
    match params {
        Params::Zero => Ok((Seq::empty(), pos)),
        Params::One => match binding_element(toks, pos, ctx) {
            Ok((p, q)) => Ok((seq![p], q)),
            Err(e) => Err(e),
        },
        Params::All => formal_params(toks, pos, ctx, true),
    }
}

/// The parameters from `pos` on, up to but without the closing
/// parenthesis; `first` tells whether no parameter was read yet. A comma
/// may stand before the closing parenthesis.
pub open spec fn formal_params(toks: Seq<TokenAndSpanView>, pos: int, ctx: ParseCtx, first: bool)
    -> Result<(Seq<PatView>, int), Error>
    decreases toks.len() - pos, 3int,
{
    if kind_at(toks, pos) == Some(TokenKind::RParen) {
        Ok((Seq::empty(), pos))
    } else if !first && kind_at(toks, pos) != Some(TokenKind::Comma) {
        Err(unexpected(toks, pos))
    } else if !first && kind_at(toks, pos + 1) == Some(TokenKind::RParen) {
        Ok((Seq::empty(), pos + 1))
    } else {
        let p = if first {
            pos
        } else {
            pos + 1
        };
        match forward(toks, p, binding_element(toks, p, ctx)) {
            Ok((x, p2)) => match formal_params(toks, p2, ctx, false) {
                Ok((rest, p3)) => Ok((seq![x] + rest, p3)),
                Err(e) => Err(e),
            },
            Err(e) => Err(e),
        }
    }
}

} // verus!
