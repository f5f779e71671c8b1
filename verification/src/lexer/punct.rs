//! Punctuators and operators.

use crate::lexer::cursor::{at, is_at};
use crate::token::{AssignOpToken, BinOpToken, Token, TokenView};
use vstd::prelude::*;

verus! {

/// The punctuator that starts at `i`, with the number of characters it
/// takes: the longest one that the text spells there.
pub open spec fn punct(src: Seq<char>, i: int) -> Option<(int, TokenView)>
    recommends
        0 <= i < src.len(),
{
    let c = src[i];
    if c == '(' {
        Some((1, TokenView::LParen))
    } else if c == ')' {
        Some((1, TokenView::RParen))
    } else if c == '[' {
        Some((1, TokenView::LBracket))
    } else if c == ']' {
        Some((1, TokenView::RBracket))
    } else if c == '{' {
        Some((1, TokenView::LBrace))
    } else if c == '}' {
        Some((1, TokenView::RBrace))
    } else if c == ';' {
        Some((1, TokenView::Semi))
    } else if c == ',' {
        Some((1, TokenView::Comma))
    } else if c == ':' {
        Some((1, TokenView::Colon))
    } else if c == '?' {
        Some((1, TokenView::QuestionMark))
    } else if c == '~' {
        Some((1, TokenView::Tilde))
    } else if c == '@' {
        Some((1, TokenView::At))
    } else if c == '`' {
        Some((1, TokenView::BackQuote))
    } else if c == '.' {
        if is_at(src, i + 1, '.') && is_at(src, i + 2, '.') {
            Some((3, TokenView::DotDotDot))
        } else {
            Some((1, TokenView::Dot))
        }
    } else if c == '=' {
        if is_at(src, i + 1, '=') && is_at(src, i + 2, '=') {
            Some((3, TokenView::BinOp(BinOpToken::EqEqEq)))
        } else if is_at(src, i + 1, '=') {
            Some((2, TokenView::BinOp(BinOpToken::EqEq)))
        } else if is_at(src, i + 1, '>') {
            Some((2, TokenView::Arrow))
        } else {
            Some((1, TokenView::AssignOp(AssignOpToken::Assign)))
        }
    } else if c == '!' {
        if is_at(src, i + 1, '=') && is_at(src, i + 2, '=') {
            Some((3, TokenView::BinOp(BinOpToken::NotEqEq)))
        } else if is_at(src, i + 1, '=') {
            Some((2, TokenView::BinOp(BinOpToken::NotEq)))
        } else {
            Some((1, TokenView::Bang))
        }
    } else if c == '+' {
        if is_at(src, i + 1, '+') {
            Some((2, TokenView::PlusPlus))
        } else if is_at(src, i + 1, '=') {
            Some((2, TokenView::AssignOp(AssignOpToken::AddAssign)))
        } else {
            Some((1, TokenView::BinOp(BinOpToken::Add)))
        }
    } else if c == '-' {
        if is_at(src, i + 1, '-') {
            Some((2, TokenView::MinusMinus))
        } else if is_at(src, i + 1, '=') {
            Some((2, TokenView::AssignOp(AssignOpToken::SubAssign)))
        } else {
            Some((1, TokenView::BinOp(BinOpToken::Sub)))
        }
    } else if c == '*' {
        if is_at(src, i + 1, '*') && is_at(src, i + 2, '=') {
            Some((3, TokenView::AssignOp(AssignOpToken::ExpAssign)))
        } else if is_at(src, i + 1, '*') {
            Some((2, TokenView::BinOp(BinOpToken::Exp)))
        } else if is_at(src, i + 1, '=') {
            Some((2, TokenView::AssignOp(AssignOpToken::MulAssign)))
        } else {
            Some((1, TokenView::BinOp(BinOpToken::Mul)))
        }
    } else if c == '/' {
        if is_at(src, i + 1, '=') {
            Some((2, TokenView::AssignOp(AssignOpToken::DivAssign)))
        } else {
            Some((1, TokenView::BinOp(BinOpToken::Div)))
        }
    } else if c == '%' {
        if is_at(src, i + 1, '=') {
            Some((2, TokenView::AssignOp(AssignOpToken::ModAssign)))
        } else {
            Some((1, TokenView::BinOp(BinOpToken::Mod)))
        }
    } else if c == '<' {
        if is_at(src, i + 1, '<') && is_at(src, i + 2, '=') {
            Some((3, TokenView::AssignOp(AssignOpToken::LShiftAssign)))
        } else if is_at(src, i + 1, '<') {
            Some((2, TokenView::BinOp(BinOpToken::LShift)))
        } else if is_at(src, i + 1, '=') {
            Some((2, TokenView::BinOp(BinOpToken::LtEq)))
        } else {
            Some((1, TokenView::BinOp(BinOpToken::Lt)))
        }
    } else if c == '>' {
        if is_at(src, i + 1, '>') && is_at(src, i + 2, '>') && is_at(src, i + 3, '=') {
            Some((4, TokenView::AssignOp(AssignOpToken::ZeroFillRShiftAssign)))
        } else if is_at(src, i + 1, '>') && is_at(src, i + 2, '>') {
            Some((3, TokenView::BinOp(BinOpToken::ZeroFillRShift)))
        } else if is_at(src, i + 1, '>') && is_at(src, i + 2, '=') {
            Some((3, TokenView::AssignOp(AssignOpToken::RShiftAssign)))
        } else if is_at(src, i + 1, '>') {
            Some((2, TokenView::BinOp(BinOpToken::RShift)))
        } else if is_at(src, i + 1, '=') {
            Some((2, TokenView::BinOp(BinOpToken::GtEq)))
        } else {
            Some((1, TokenView::BinOp(BinOpToken::Gt)))
        }
    } else if c == '&' {
        if is_at(src, i + 1, '&') {
            Some((2, TokenView::BinOp(BinOpToken::LogicalAnd)))
        } else if is_at(src, i + 1, '=') {
            Some((2, TokenView::AssignOp(AssignOpToken::BitAndAssign)))
        } else {
            Some((1, TokenView::BinOp(BinOpToken::BitAnd)))
        }
    } else if c == '|' {
        if is_at(src, i + 1, '|') {
            Some((2, TokenView::BinOp(BinOpToken::LogicalOr)))
        } else if is_at(src, i + 1, '=') {
            Some((2, TokenView::AssignOp(AssignOpToken::BitOrAssign)))
        } else {
            Some((1, TokenView::BinOp(BinOpToken::BitOr)))
        }
    } else if c == '^' {
        if is_at(src, i + 1, '=') {
            Some((2, TokenView::AssignOp(AssignOpToken::BitXorAssign)))
        } else {
            Some((1, TokenView::BinOp(BinOpToken::BitXor)))
        }
    } else {
        None
    }
}

/// Reads the punctuator that starts at `i`.
pub fn read_punct(src: &Vec<char>, i: usize) -> (r: Option<(usize, Token)>)
    requires
        i < src.len(),
    ensures
        match r {
            Some((n, t)) => punct(src@, i as int) == Some((n as int, t@)) && 1 <= n <= 4 && i + n
                <= src.len(),
            None => punct(src@, i as int) is None,
        },
{
    let c = src[i];
    if c == '(' {
        Some((1, Token::LParen))
    } else if c == ')' {
        Some((1, Token::RParen))
    } else if c == '[' {
        Some((1, Token::LBracket))
    } else if c == ']' {
        Some((1, Token::RBracket))
    } else if c == '{' {
        Some((1, Token::LBrace))
    } else if c == '}' {
        Some((1, Token::RBrace))
    } else if c == ';' {
        Some((1, Token::Semi))
    } else if c == ',' {
        Some((1, Token::Comma))
    } else if c == ':' {
        Some((1, Token::Colon))
    } else if c == '?' {
        Some((1, Token::QuestionMark))
    } else if c == '~' {
        Some((1, Token::Tilde))
    } else if c == '@' {
        Some((1, Token::At))
    } else if c == '`' {
        Some((1, Token::BackQuote))
    } else if c == '.' {
        if at(src, i, 1, '.') && at(src, i, 2, '.') {
            Some((3, Token::DotDotDot))
        } else {
            Some((1, Token::Dot))
        }
    } else if c == '=' {
        if at(src, i, 1, '=') && at(src, i, 2, '=') {
            Some((3, Token::BinOp(BinOpToken::EqEqEq)))
        } else if at(src, i, 1, '=') {
            Some((2, Token::BinOp(BinOpToken::EqEq)))
        } else if at(src, i, 1, '>') {
            Some((2, Token::Arrow))
        } else {
            Some((1, Token::AssignOp(AssignOpToken::Assign)))
        }
    } else if c == '!' {
        if at(src, i, 1, '=') && at(src, i, 2, '=') {
            Some((3, Token::BinOp(BinOpToken::NotEqEq)))
        } else if at(src, i, 1, '=') {
            Some((2, Token::BinOp(BinOpToken::NotEq)))
        } else {
            Some((1, Token::Bang))
        }
    } else if c == '+' {
        if at(src, i, 1, '+') {
            Some((2, Token::PlusPlus))
        } else if at(src, i, 1, '=') {
            Some((2, Token::AssignOp(AssignOpToken::AddAssign)))
        } else {
            Some((1, Token::BinOp(BinOpToken::Add)))
        }
    } else if c == '-' {
        if at(src, i, 1, '-') {
            Some((2, Token::MinusMinus))
        } else if at(src, i, 1, '=') {
            Some((2, Token::AssignOp(AssignOpToken::SubAssign)))
        } else {
            Some((1, Token::BinOp(BinOpToken::Sub)))
        }
    } else if c == '*' {
        if at(src, i, 1, '*') && at(src, i, 2, '=') {
            Some((3, Token::AssignOp(AssignOpToken::ExpAssign)))
        } else if at(src, i, 1, '*') {
            Some((2, Token::BinOp(BinOpToken::Exp)))
        } else if at(src, i, 1, '=') {
            Some((2, Token::AssignOp(AssignOpToken::MulAssign)))
        } else {
            Some((1, Token::BinOp(BinOpToken::Mul)))
        }
    } else if c == '/' {
        if at(src, i, 1, '=') {
            Some((2, Token::AssignOp(AssignOpToken::DivAssign)))
        } else {
            Some((1, Token::BinOp(BinOpToken::Div)))
        }
    } else if c == '%' {
        if at(src, i, 1, '=') {
            Some((2, Token::AssignOp(AssignOpToken::ModAssign)))
        } else {
            Some((1, Token::BinOp(BinOpToken::Mod)))
        }
    } else if c == '<' {
        if at(src, i, 1, '<') && at(src, i, 2, '=') {
            Some((3, Token::AssignOp(AssignOpToken::LShiftAssign)))
        } else if at(src, i, 1, '<') {
            Some((2, Token::BinOp(BinOpToken::LShift)))
        } else if at(src, i, 1, '=') {
            Some((2, Token::BinOp(BinOpToken::LtEq)))
        } else {
            Some((1, Token::BinOp(BinOpToken::Lt)))
        }
    } else if c == '>' {
        if at(src, i, 1, '>') && at(src, i, 2, '>') && at(src, i, 3, '=') {
            Some((4, Token::AssignOp(AssignOpToken::ZeroFillRShiftAssign)))
        } else if at(src, i, 1, '>') && at(src, i, 2, '>') {
            Some((3, Token::BinOp(BinOpToken::ZeroFillRShift)))
        } else if at(src, i, 1, '>') && at(src, i, 2, '=') {
            Some((3, Token::AssignOp(AssignOpToken::RShiftAssign)))
        } else if at(src, i, 1, '>') {
            Some((2, Token::BinOp(BinOpToken::RShift)))
        } else if at(src, i, 1, '=') {
            Some((2, Token::BinOp(BinOpToken::GtEq)))
        } else {
            Some((1, Token::BinOp(BinOpToken::Gt)))
        }
    } else if c == '&' {
        if at(src, i, 1, '&') {
            Some((2, Token::BinOp(BinOpToken::LogicalAnd)))
        } else if at(src, i, 1, '=') {
            Some((2, Token::AssignOp(AssignOpToken::BitAndAssign)))
        } else {
            Some((1, Token::BinOp(BinOpToken::BitAnd)))
        }
    } else if c == '|' {
        if at(src, i, 1, '|') {
            Some((2, Token::BinOp(BinOpToken::LogicalOr)))
        } else if at(src, i, 1, '=') {
            Some((2, Token::AssignOp(AssignOpToken::BitOrAssign)))
        } else {
            Some((1, Token::BinOp(BinOpToken::BitOr)))
        }
    } else if c == '^' {
        if at(src, i, 1, '=') {
            Some((2, Token::AssignOp(AssignOpToken::BitXorAssign)))
        } else {
            Some((1, Token::BinOp(BinOpToken::BitXor)))
        }
    } else {
        None
    }
}

/// A punctuator takes between one and four characters, all within the text.
pub proof fn lemma_punct(src: Seq<char>, i: int)
    requires
        0 <= i < src.len(),
    ensures
        match punct(src, i) {
            Some((n, t)) => 1 <= n <= 4 && i + n <= src.len() && !(t is Word) && !(t is Template)
                && !(t is Str) && !(t is Regex) && !(t is Num) && !(t is Error),
            None => true,
        },
{
}

} // verus!
