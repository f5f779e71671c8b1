//! Every rule of the grammar that succeeds takes at least one token and
//! stops within the tokens.

use crate::error::Error;
use crate::parser::grammar::{accessor, assignment_expr, binding_element, binding_target, block_end,
    ends_shorthand, expr_prop, fn_args_body, fn_body, fn_ctx, fn_params, formal_params, forward,
    getter, method, object, object_prop, pat_prop, prop_name, props, setter, tok_span, with_in, Params,
    Target};
use crate::parser::{cur_lo, kind_at, tok_at, ParseCtx};
use crate::ast::{IdentView, PropNameView};
use crate::span::{BytePos, Span};
use crate::token::{AssignOpToken, BinOpToken, TokenAndSpanView, TokenKind, TokenView};
use vstd::prelude::*;

verus! {

/// Whether a rule applied at `pos` with result `r` took at least one
/// token, if it succeeded, and stopped within the tokens.
pub open spec fn advances<T>(toks: Seq<TokenAndSpanView>, pos: int, r: Result<(T, int), Error>)
    -> bool {
    match r {
        Ok((_, p)) => pos < p <= toks.len(),
        Err(_) => true,
    }
}

/// Whether a rule applied at `pos` with result `r` stopped at or after
/// `pos` and within the tokens, if it succeeded.
pub open spec fn stays<T>(toks: Seq<TokenAndSpanView>, pos: int, r: Result<(T, int), Error>)
    -> bool {
    match r {
        Ok((_, p)) => pos <= p <= toks.len(),
        Err(_) => true,
    }
}

/// A block ends after where its inside starts.
pub proof fn lemma_block_end(toks: Seq<TokenAndSpanView>, pos: int, depth: nat)
    requires
        0 <= pos <= toks.len(),
    ensures
        match block_end(toks, pos, depth) {
            Ok(e) => pos < e <= toks.len(),
            Err(_) => true,
        },
    decreases toks.len() - pos,
{
    if pos < toks.len() {
        match toks[pos].token {
            TokenView::Error(e) => {},
            TokenView::LBrace | TokenView::DollarLBrace => lemma_block_end(
                toks,
                pos + 1,
                depth + 1,
            ),
            TokenView::RBrace => if depth > 0 {
                lemma_block_end(toks, pos + 1, (depth - 1) as nat);
            },
            _ => lemma_block_end(toks, pos + 1, depth),
        }
    }
}

/// The body of a function takes at least its two braces.
pub proof fn lemma_fn_body(toks: Seq<TokenAndSpanView>, pos: int)
    requires
        0 <= pos <= toks.len(),
    ensures
        advances(toks, pos, fn_body(toks, pos)),
{
    if kind_at(toks, pos) == Some(TokenKind::LBrace) {
        lemma_block_end(toks, pos + 1, 0);
    }
}

/// The key of a property advances.
pub proof fn lemma_prop_name(toks: Seq<TokenAndSpanView>, pos: int, ctx: ParseCtx)
    requires
        0 <= pos <= toks.len(),
    ensures
        advances(toks, pos, prop_name(toks, pos, ctx)),
        forward(toks, pos, prop_name(toks, pos, ctx)) == prop_name(toks, pos, ctx),
    decreases toks.len() - pos, 0int,
{
    if tok_at(toks, pos) == Some(TokenView::LBracket) {
        lemma_assignment_expr(toks, pos + 1, with_in(ctx));
    }
}

/// An expression advances.
pub proof fn lemma_assignment_expr(toks: Seq<TokenAndSpanView>, pos: int, ctx: ParseCtx)
    requires
        0 <= pos <= toks.len(),
    ensures
        advances(toks, pos, assignment_expr(toks, pos, ctx)),
    decreases toks.len() - pos, 1int,
{
    if tok_at(toks, pos) == Some(TokenView::LBrace) {
        lemma_object(toks, pos, ctx, Target::Expr);
    }
}

/// A binding element advances.
pub proof fn lemma_binding_element(toks: Seq<TokenAndSpanView>, pos: int, ctx: ParseCtx)
    requires
        0 <= pos <= toks.len(),
    ensures
        advances(toks, pos, binding_element(toks, pos, ctx)),
        forward(toks, pos, binding_element(toks, pos, ctx)) == binding_element(toks, pos, ctx),
        forward(toks, pos, binding_target(toks, pos, ctx)) == binding_target(toks, pos, ctx),
    decreases toks.len() - pos, 2int,
{
    if tok_at(toks, pos) == Some(TokenView::LBrace) {
        lemma_object(toks, pos, ctx, Target::Pat);
    }
    match binding_target(toks, pos, ctx) {
        Ok((_, p1)) => if kind_at(toks, p1) == Some(TokenKind::AssignOp(AssignOpToken::Assign)) {
            lemma_assignment_expr(toks, p1 + 1, with_in(ctx));
        },
        Err(_) => {},
    }
}

/// An object advances.
pub proof fn lemma_object(toks: Seq<TokenAndSpanView>, pos: int, ctx: ParseCtx, target: Target)
    requires
        0 <= pos <= toks.len(),
    ensures
        advances(toks, pos, object(toks, pos, ctx, target)),
    decreases toks.len() - pos, 0int,
{
    if kind_at(toks, pos) == Some(TokenKind::LBrace) {
        lemma_props(toks, pos + 1, ctx, target, true);
    }
}

/// A list of properties advances: it takes at least its closing brace.
pub proof fn lemma_props(
    toks: Seq<TokenAndSpanView>,
    pos: int,
    ctx: ParseCtx,
    target: Target,
    first: bool,
)
    requires
        0 <= pos <= toks.len(),
    ensures
        advances(toks, pos, props(toks, pos, ctx, target, first)),
    decreases toks.len() - pos, 3int,
{
    if kind_at(toks, pos) == Some(TokenKind::RBrace) {
    } else if !first && kind_at(toks, pos) != Some(TokenKind::Comma) {
    } else if !first && kind_at(toks, pos + 1) == Some(TokenKind::RBrace) {
    } else {
        let p = if first {
            pos
        } else {
            pos + 1
        };
        lemma_object_prop(toks, p, ctx, target);
        match forward(toks, p, object_prop(toks, p, ctx, target)) {
            Ok((_, p2)) => lemma_props(toks, p2, ctx, target, false),
            Err(_) => {},
        }
    }
}

/// A property advances.
pub proof fn lemma_object_prop(
    toks: Seq<TokenAndSpanView>,
    pos: int,
    ctx: ParseCtx,
    target: Target,
)
    requires
        0 <= pos <= toks.len(),
    ensures
        advances(toks, pos, object_prop(toks, pos, ctx, target)),
        forward(toks, pos, object_prop(toks, pos, ctx, target)) == object_prop(
            toks,
            pos,
            ctx,
            target,
        ),
    decreases toks.len() - pos, 2int,
{
    match target {
        Target::Expr => lemma_expr_prop(toks, pos, ctx),
        Target::Pat => lemma_pat_prop(toks, pos, ctx),
    }
}

/// A method advances.
pub proof fn lemma_method(
    toks: Seq<TokenAndSpanView>,
    pos: int,
    ctx: ParseCtx,
    start: BytePos,
    key: PropNameView,
    async_: Option<Span>,
    generator: Option<Span>,
)
    requires
        0 <= pos <= toks.len(),
    ensures
        advances(toks, pos, method(toks, pos, ctx, start, key, async_, generator)),
    decreases toks.len() - pos, 1int,
{
    lemma_fn_args_body(toks, pos, ctx, start, Params::All, async_, generator);
}

/// A getter, a setter and an asynchronous method advance.
pub proof fn lemma_accessor(
    toks: Seq<TokenAndSpanView>,
    pos: int,
    ctx: ParseCtx,
    start: BytePos,
    word: IdentView,
    key: PropNameView,
)
    requires
        0 <= pos <= toks.len(),
    ensures
        advances(toks, pos, accessor(toks, pos, ctx, start, word, key)),
    decreases toks.len() - pos, 2int,
{
    lemma_fn_args_body(toks, pos, ctx, start, Params::Zero, None, None);
    lemma_fn_args_body(toks, pos, ctx, start, Params::One, None, None);
    lemma_method(toks, pos, ctx, start, key, Some(word.span), None);
}

/// A property of an object literal advances.
pub proof fn lemma_expr_prop(toks: Seq<TokenAndSpanView>, pos: int, ctx: ParseCtx)
    requires
        0 <= pos <= toks.len(),
    ensures
        advances(toks, pos, expr_prop(toks, pos, ctx)),
    decreases toks.len() - pos, 1int,
{
    let start = cur_lo(toks, pos);
    if kind_at(toks, pos) == Some(TokenKind::BinOp(BinOpToken::Mul)) {
        lemma_prop_name(toks, pos + 1, ctx);
        match prop_name(toks, pos + 1, ctx) {
            Ok((key, p1)) => lemma_method(
                toks,
                p1,
                ctx,
                start,
                key,
                None,
                Some(tok_span(toks, pos)),
            ),
            Err(_) => {},
        }
    } else {
        lemma_prop_name(toks, pos, ctx);
        match prop_name(toks, pos, ctx) {
            Ok((key, p1)) => {
                if kind_at(toks, p1) == Some(TokenKind::Colon) {
                    lemma_assignment_expr(toks, p1 + 1, with_in(ctx));
                } else if kind_at(toks, p1) == Some(TokenKind::LParen) {
                    lemma_method(toks, p1, ctx, start, key, None, None);
                } else {
                    match key {
                        PropNameView::Ident(ident) => {
                            if ends_shorthand(kind_at(toks, p1)) {
                                if kind_at(toks, p1) == Some(
                                    TokenKind::AssignOp(AssignOpToken::Assign),
                                ) {
                                    lemma_assignment_expr(toks, p1 + 1, with_in(ctx));
                                }
                            } else {
                                lemma_prop_name(toks, p1, ctx);
                                match prop_name(toks, p1, ctx) {
                                    Ok((key2, p2)) => lemma_accessor(
                                        toks,
                                        p2,
                                        ctx,
                                        start,
                                        ident,
                                        key2,
                                    ),
                                    Err(_) => {},
                                }
                            }
                        },
                        _ => {},
                    }
                }
            },
            Err(_) => {},
        }
    }
}

/// A property of an object pattern advances.
pub proof fn lemma_pat_prop(toks: Seq<TokenAndSpanView>, pos: int, ctx: ParseCtx)
    requires
        0 <= pos <= toks.len(),
    ensures
        advances(toks, pos, pat_prop(toks, pos, ctx)),
    decreases toks.len() - pos, 1int,
{
    lemma_prop_name(toks, pos, ctx);
    match prop_name(toks, pos, ctx) {
        Ok((key, p1)) => {
            if kind_at(toks, p1) == Some(TokenKind::Colon) {
                lemma_binding_element(toks, p1 + 1, ctx);
            } else if kind_at(toks, p1) == Some(TokenKind::AssignOp(AssignOpToken::Assign)) {
                lemma_assignment_expr(toks, p1 + 1, with_in(ctx));
            }
        },
        Err(_) => {},
    }
}

/// The parameters and the body of a function advance.
pub proof fn lemma_fn_args_body(
    toks: Seq<TokenAndSpanView>,
    pos: int,
    ctx: ParseCtx,
    start: BytePos,
    params: Params,
    async_: Option<Span>,
    generator: Option<Span>,
)
    requires
        0 <= pos <= toks.len(),
    ensures
        advances(toks, pos, fn_args_body(toks, pos, ctx, start, params, async_, generator)),
    decreases toks.len() - pos, 0int,
{
    if kind_at(toks, pos) == Some(TokenKind::LParen) {
        let inner = fn_ctx(ctx, async_, generator);
        lemma_fn_params(toks, pos + 1, inner, params);
        match fn_params(toks, pos + 1, inner, params) {
            Ok((_, p1)) => if kind_at(toks, p1) == Some(TokenKind::RParen) {
                lemma_fn_body(toks, p1 + 1);
            },
            Err(_) => {},
        }
    }
}

/// The parameters of a function stop within the tokens.
pub proof fn lemma_fn_params(toks: Seq<TokenAndSpanView>, pos: int, ctx: ParseCtx, params: Params)
    requires
        0 <= pos <= toks.len(),
    ensures
        stays(toks, pos, fn_params(toks, pos, ctx, params)),
    decreases toks.len() - pos, 4int,
{
    match params {
        Params::Zero => {},
        Params::One => lemma_binding_element(toks, pos, ctx),
        Params::All => lemma_formal_params(toks, pos, ctx, true),
    }
}

/// A list of parameters stops within the tokens.
pub proof fn lemma_formal_params(toks: Seq<TokenAndSpanView>, pos: int, ctx: ParseCtx, first: bool)
    requires
        0 <= pos <= toks.len(),
    ensures
        stays(toks, pos, formal_params(toks, pos, ctx, first)),
    decreases toks.len() - pos, 3int,
{
    if kind_at(toks, pos) == Some(TokenKind::RParen) {
    } else if !first && kind_at(toks, pos) != Some(TokenKind::Comma) {
    } else if !first && kind_at(toks, pos + 1) == Some(TokenKind::RParen) {
    } else {
        let p = if first {
            pos
        } else {
            pos + 1
        };
        lemma_binding_element(toks, p, ctx);
        match forward(toks, p, binding_element(toks, p, ctx)) {
            Ok((_, p2)) => lemma_formal_params(toks, p2, ctx, false),
            Err(_) => {},
        }
    }
}

} // verus!
