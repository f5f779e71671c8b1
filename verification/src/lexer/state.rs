//! What the tokenizer remembers between tokens.
//!
//! Whether a slash starts a regular expression or divides depends on what
//! came before it. The tokenizer keeps a stack of the brackets and
//! templates it stands in, the kind of the last token, and whether an
//! expression may start at the next one.

use crate::token::{BinOpToken, Keyword, TokenKind};
use vstd::prelude::*;

verus! {

/// A construct that the tokenizer stands in.
#[derive(Clone, Copy, Debug, PartialEq, Eq, Structural, Hash)]
pub enum Scope {
    /// The braces of a block.
    BraceStmt,
    /// The braces of an object literal.
    BraceExpr,
    /// A substitution `${ .. }` inside a template.
    TplQuasi,
    /// The parentheses after `if`, `with`, `while` or `for`.
    ParenStmt { is_for_loop: bool },
    /// Any other parentheses.
    ParenExpr,
    /// The inside of a template.
    Tpl,
    /// A function expression, up to its body.
    FnExpr,
}

impl Scope {
    /// Whether the construct is an expression, so that none can follow it.
    pub open spec fn spec_is_expr(self) -> bool {
        match self {
            Scope::BraceExpr | Scope::TplQuasi | Scope::ParenExpr | Scope::Tpl | Scope::FnExpr => true,
            _ => false,
        }
    }

    /// Whether the construct is an expression, so that none can follow it.
    #[verifier::when_used_as_spec(spec_is_expr)]
    pub fn is_expr(self) -> (b: bool)
        ensures
            b == self.spec_is_expr(),
    {
        match self {
            Scope::BraceExpr | Scope::TplQuasi | Scope::ParenExpr | Scope::Tpl | Scope::FnExpr => true,
            _ => false,
        }
    }
}

/// The innermost construct, if there is one.
pub open spec fn current(scopes: Seq<Scope>) -> Option<Scope> {
    if scopes.len() > 0 {
        Some(scopes.last())
    } else {
        None
    }
}

/// Whether a `{` that follows `prev` opens a block rather than an object
/// literal.
pub open spec fn is_brace_block(
    scopes: Seq<Scope>,
    prev: Option<TokenKind>,
    had_line_break: bool,
    is_expr_allowed: bool,
) -> bool {
    if prev == Some(TokenKind::Colon) && current(scopes) == Some(Scope::BraceStmt) {
        true
    } else if prev == Some(TokenKind::Colon) && current(scopes) == Some(Scope::BraceExpr) {
        false
    } else {
        match prev {
            Some(TokenKind::Keyword(Keyword::Return)) | Some(TokenKind::Keyword(Keyword::Yield)) => had_line_break,
            Some(TokenKind::Keyword(Keyword::Else)) | Some(TokenKind::Semi) | None | Some(
                TokenKind::RParen,
            ) => true,
            Some(TokenKind::LBrace) => current(scopes) == Some(Scope::BraceStmt),
            Some(TokenKind::BinOp(BinOpToken::Lt)) | Some(TokenKind::BinOp(BinOpToken::Gt)) => true,
            Some(TokenKind::Arrow) => true,
            _ => !is_expr_allowed,
        }
    }
}

/// The construct that a `(` after `prev` opens.
pub open spec fn paren_scope(prev: Option<TokenKind>) -> Scope {
    match prev {
        Some(TokenKind::Keyword(Keyword::If)) | Some(TokenKind::Keyword(Keyword::With)) | Some(
            TokenKind::Keyword(Keyword::While),
        ) => Scope::ParenStmt { is_for_loop: false },
        Some(TokenKind::Keyword(Keyword::For)) => Scope::ParenStmt { is_for_loop: true },
        _ => Scope::ParenExpr,
    }
}

/// The stack of constructs, and whether an expression may start, after the
/// token `next` has been read.
///
/// `prev` is the kind of the token before `next`, `had_line_break` tells
/// whether a line ended between the two, and `is_expr_allowed` is the
/// answer that held before `next`.
pub open spec fn next_state(
    scopes: Seq<Scope>,
    prev: Option<TokenKind>,
    next: TokenKind,
    had_line_break: bool,
    is_expr_allowed: bool,
) -> (Seq<Scope>, bool) {
    if next is Keyword && prev == Some(TokenKind::Dot) {
        (scopes, false)
    } else {
        match next {
            TokenKind::RParen | TokenKind::RBrace => {
                if scopes.len() <= 1 {
                    (scopes, true)
                } else {
                    let out = scopes.last();
                    let rest = scopes.drop_last();
                    if out == Scope::BraceStmt && rest.last() == Scope::FnExpr {
                        (rest.drop_last(), false)
                    } else if out == Scope::TplQuasi {
                        (rest, true)
                    } else {
                        (rest, !out.spec_is_expr())
                    }
                }
            },
            TokenKind::Keyword(Keyword::Function) => {
                if is_expr_allowed && !is_brace_block(
                    scopes,
                    prev,
                    had_line_break,
                    is_expr_allowed,
                ) {
                    (scopes.push(Scope::FnExpr), false)
                } else {
                    (scopes, false)
                }
            },
            TokenKind::Ident | TokenKind::Of => {
                if next == TokenKind::Of && current(scopes) == Some(
                    Scope::ParenStmt { is_for_loop: true },
                ) {
                    (
                        scopes,
                        match prev {
                            Some(p) => !p.spec_before_expr(),
                            None => false,
                        },
                    )
                } else {
                    (
                        scopes,
                        had_line_break && (prev == Some(TokenKind::Keyword(Keyword::Let)) || prev
                            == Some(TokenKind::Keyword(Keyword::Const)) || prev == Some(
                            TokenKind::Keyword(Keyword::Var),
                        )),
                    )
                }
            },
            TokenKind::LBrace => {
                if is_brace_block(scopes, prev, had_line_break, is_expr_allowed) {
                    (scopes.push(Scope::BraceStmt), true)
                } else {
                    (scopes.push(Scope::BraceExpr), true)
                }
            },
            TokenKind::DollarLBrace => (scopes.push(Scope::TplQuasi), true),
            TokenKind::LParen => (scopes.push(paren_scope(prev)), true),
            TokenKind::PlusPlus | TokenKind::MinusMinus => (scopes, is_expr_allowed),
            TokenKind::BackQuote => {
                if current(scopes) == Some(Scope::Tpl) {
                    (scopes.drop_last(), false)
                } else {
                    (scopes.push(Scope::Tpl), false)
                }
            },
            TokenKind::Error => (scopes, is_expr_allowed),
            _ => (scopes, next.spec_before_expr()),
        }
    }
}

/// The innermost construct, if there is one.
pub fn top(scopes: &Vec<Scope>) -> (s: Option<Scope>)
    ensures
        s == current(scopes@),
{
    if scopes.len() > 0 {
        Some(scopes[scopes.len() - 1])
    } else {
        None
    }
}

/// Whether a `{` that follows `prev` opens a block rather than an object
/// literal.
pub fn brace_opens_block(
    scopes: &Vec<Scope>,
    prev: Option<TokenKind>,
    had_line_break: bool,
    is_expr_allowed: bool,
) -> (b: bool)
    ensures
        b == is_brace_block(scopes@, prev, had_line_break, is_expr_allowed),
{
    let cur = top(scopes);
    let after_colon = match prev {
        Some(TokenKind::Colon) => true,
        _ => false,
    };
    let in_block = match cur {
        Some(Scope::BraceStmt) => true,
        _ => false,
    };
    let in_object = match cur {
        Some(Scope::BraceExpr) => true,
        _ => false,
    };
    if after_colon && in_block {
        true
    } else if after_colon && in_object {
        false
    } else {
        match prev {
            Some(TokenKind::Keyword(Keyword::Return)) | Some(TokenKind::Keyword(Keyword::Yield)) => had_line_break,
            Some(TokenKind::Keyword(Keyword::Else)) | Some(TokenKind::Semi) | None | Some(
                TokenKind::RParen,
            ) => true,
            Some(TokenKind::LBrace) => in_block,
            Some(TokenKind::BinOp(BinOpToken::Lt)) | Some(TokenKind::BinOp(BinOpToken::Gt)) => true,
            Some(TokenKind::Arrow) => true,
            _ => !is_expr_allowed,
        }
    }
}

/// The construct that a `(` after `prev` opens.
fn paren_opens(prev: Option<TokenKind>) -> (s: Scope)
    ensures
        s == paren_scope(prev),
{
    match prev {
        Some(TokenKind::Keyword(Keyword::If)) | Some(TokenKind::Keyword(Keyword::With)) | Some(
            TokenKind::Keyword(Keyword::While),
        ) => Scope::ParenStmt { is_for_loop: false },
        Some(TokenKind::Keyword(Keyword::For)) => Scope::ParenStmt { is_for_loop: true },
        _ => Scope::ParenExpr,
    }
}

/// Updates the stack of constructs for the token `next`, and tells whether
/// an expression may start after it.
pub fn advance(
    scopes: &mut Vec<Scope>,
    prev: Option<TokenKind>,
    next: TokenKind,
    had_line_break: bool,
    is_expr_allowed: bool,
) -> (allowed: bool)
    ensures
        (final(scopes)@, allowed) == next_state(
            old(scopes)@,
            prev,
            next,
            had_line_break,
            is_expr_allowed,
        ),
{
    let after_dot = match prev {
        Some(TokenKind::Dot) => true,
        _ => false,
    };
    let is_keyword = match next {
        TokenKind::Keyword(_) => true,
        _ => false,
    };
    if is_keyword && after_dot {
        return false;
    }
    match next {
        TokenKind::RParen | TokenKind::RBrace => {
            if scopes.len() <= 1 {
                return true;
            }
            let out = scopes.pop().unwrap();
            let cur = top(scopes);
            let closes_fn = match (out, cur) {
                (Scope::BraceStmt, Some(Scope::FnExpr)) => true,
                _ => false,
            };
            if closes_fn {
                scopes.pop();
                false
            } else {
                match out {
                    Scope::TplQuasi => true,
                    _ => !out.is_expr(),
                }
            }
        },
        TokenKind::Keyword(Keyword::Function) => {
            if is_expr_allowed && !brace_opens_block(
                scopes,
                prev,
                had_line_break,
                is_expr_allowed,
            ) {
                scopes.push(Scope::FnExpr);
            }
            false
        },
        TokenKind::Ident | TokenKind::Of => {
            let is_of = match next {
                TokenKind::Of => true,
                _ => false,
            };
            let in_for = match top(scopes) {
                Some(Scope::ParenStmt { is_for_loop }) => is_for_loop,
                _ => false,
            };
            if is_of && in_for {
                match prev {
                    Some(p) => !p.before_expr(),
                    None => false,
                }
            } else {
                had_line_break && match prev {
                    Some(TokenKind::Keyword(Keyword::Let)) | Some(
                        TokenKind::Keyword(Keyword::Const),
                    ) | Some(TokenKind::Keyword(Keyword::Var)) => true,
                    _ => false,
                }
            }
        },
        TokenKind::LBrace => {
            if brace_opens_block(scopes, prev, had_line_break, is_expr_allowed) {
                scopes.push(Scope::BraceStmt);
            } else {
                scopes.push(Scope::BraceExpr);
            }
            true
        },
        TokenKind::DollarLBrace => {
            scopes.push(Scope::TplQuasi);
            true
        },
        TokenKind::LParen => {
            scopes.push(paren_opens(prev));
            true
        },
        TokenKind::PlusPlus | TokenKind::MinusMinus => is_expr_allowed,
        TokenKind::BackQuote => {
            let in_tpl = match top(scopes) {
                Some(Scope::Tpl) => true,
                _ => false,
            };
            if in_tpl {
                scopes.pop();
            } else {
                scopes.push(Scope::Tpl);
            }
            false
        },
        TokenKind::Error => is_expr_allowed,
        _ => next.before_expr(),
    }
}

} // verus!
