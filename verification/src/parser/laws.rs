//! What holds of every object that is parsed.

use crate::error::{Error, SyntaxError};
use crate::parser::grammar::{ends_shorthand, forward, object, object_prop, prop_name, props,
    reserved, tok_span, AnyPropView, Target};
use crate::parser::{kind_at, tok_at, ParseCtx};
use crate::token::{AssignOpToken, TokenAndSpanView, TokenKind};
use crate::words::word_text;
use vstd::prelude::*;

verus! {

/// A comma directly before the closing brace adds no property: the list
/// ends there, after both tokens.
pub proof fn lemma_trailing_comma(
    toks: Seq<TokenAndSpanView>,
    pos: int,
    ctx: ParseCtx,
    target: Target,
)
    requires
        kind_at(toks, pos) == Some(TokenKind::Comma),
        kind_at(toks, pos + 1) == Some(TokenKind::RBrace),
    ensures
        props(toks, pos, ctx, target, false) == Ok::<(Seq<AnyPropView>, int), Error>(
            (Seq::empty(), pos + 2),
        ),
{
}

/// An object parsed as a literal is a literal, and one parsed as a
/// pattern is a pattern.
pub proof fn lemma_object_kind(toks: Seq<TokenAndSpanView>, pos: int, ctx: ParseCtx, target: Target)
    ensures
        match object(toks, pos, ctx, target) {
            Ok((o, p)) => (target == Target::Expr <==> o is Lit) && (target == Target::Pat <==> o
                is Pat),
            Err(_) => true,
        },
{
}

/// A reserved word cannot be a shorthand: where the word stands before
/// `,` or `}`, the property is rejected, in a literal and in a pattern,
/// with the word's span. In a literal the same holds before `=`.
pub proof fn lemma_reserved_shorthand(
    toks: Seq<TokenAndSpanView>,
    pos: int,
    ctx: ParseCtx,
    target: Target,
)
    requires
        0 <= pos,
        tok_at(toks, pos) is Some,
        tok_at(toks, pos)->0 is Word,
        reserved(ctx, word_text(tok_at(toks, pos)->0->Word_0)),
        kind_at(toks, pos + 1) == Some(TokenKind::Comma) || kind_at(toks, pos + 1) == Some(
            TokenKind::RBrace,
        ) || (target == Target::Expr && kind_at(toks, pos + 1) == Some(
            TokenKind::AssignOp(AssignOpToken::Assign),
        )),
    ensures
        object_prop(toks, pos, ctx, target) == Err::<(AnyPropView, int), Error>(
            Error {
                span: tok_span(toks, pos),
                error: SyntaxError::ReservedWordInObjShorthandOrPat,
            },
        ),
{
    let r = prop_name(toks, pos, ctx);
    assert(r is Ok);
    assert(forward(toks, pos, r) == r);
}

/// A pattern holds no method and no accessor: where a plain word that
/// opens a pattern is followed by anything but `:`, `=`, `,` or `}`, the
/// pattern is rejected.
pub proof fn lemma_pattern_rejects_methods(toks: Seq<TokenAndSpanView>, pos: int, ctx: ParseCtx)
    requires
        0 <= pos,
        kind_at(toks, pos) == Some(TokenKind::LBrace),
        tok_at(toks, pos + 1) is Some,
        tok_at(toks, pos + 1)->0 is Word,
        kind_at(toks, pos + 2) != Some(TokenKind::Colon),
        !ends_shorthand(kind_at(toks, pos + 2)),
    ensures
        object(toks, pos, ctx, Target::Pat) is Err,
{
    let r = prop_name(toks, pos + 1, ctx);
    assert(r is Ok);
    if pos + 2 <= toks.len() {
        assert(forward(toks, pos + 1, r) == r);
        let x = object_prop(toks, pos + 1, ctx, Target::Pat);
        if x is Ok {
            assert(x->Ok_0.1 == pos + 2);
            assert(forward(toks, pos + 1, x) == x);
            assert(props(toks, pos + 2, ctx, Target::Pat, false) is Err);
        }
    }
}

} // verus!
