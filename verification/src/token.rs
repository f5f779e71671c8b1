//! The closed set of lexical tokens.

use crate::error::Error;
use crate::span::Span;
use crate::text::{str_chars, text_is};
use vstd::prelude::*;

verus! {

/// Binary operators.
#[derive(Clone, Copy, Debug, PartialEq, Eq, Structural, Hash)]
pub enum BinOpToken {
    EqEq,
    NotEq,
    EqEqEq,
    NotEqEq,
    Lt,
    LtEq,
    Gt,
    GtEq,
    LShift,
    RShift,
    ZeroFillRShift,
    Add,
    Sub,
    Mul,
    Div,
    Mod,
    BitOr,
    BitXor,
    BitAnd,
    Exp,
    LogicalOr,
    LogicalAnd,
}

/// Assignment operators.
#[derive(Clone, Copy, Debug, PartialEq, Eq, Structural, Hash)]
pub enum AssignOpToken {
    Assign,
    AddAssign,
    SubAssign,
    MulAssign,
    DivAssign,
    ModAssign,
    LShiftAssign,
    RShiftAssign,
    ZeroFillRShiftAssign,
    BitOrAssign,
    BitXorAssign,
    BitAndAssign,
    ExpAssign,
}

/// Words that the grammar reserves.
#[derive(Clone, Copy, Debug, PartialEq, Eq, Structural, Hash)]
pub enum Keyword {
    Await,
    Break,
    Case,
    Catch,
    Continue,
    Debugger,
    Default_,
    Do,
    Else,
    Finally,
    For,
    Function,
    If,
    Return,
    Switch,
    Throw,
    Try,
    Var,
    Let,
    Const,
    While,
    With,
    New,
    This,
    Super,
    Class,
    Extends,
    Export,
    Import,
    Yield,
    In,
    InstanceOf,
    TypeOf,
    Void,
    Delete,
}

/// An identifier name: a keyword, one of three literals, or an identifier.
#[derive(Clone, Debug, PartialEq, Eq, Hash)]
pub enum Word {
    Keyword(Keyword),
    Null,
    True,
    False,
    Ident(String),
}

/// A piece of literal text with its place.
#[derive(Clone, Debug, PartialEq, Eq, Hash)]
pub struct Str {
    pub span: Span,
    pub value: String,
    pub has_escape: bool,
}

/// The notation of a numeric literal.
#[derive(Clone, Copy, Debug, PartialEq, Eq, Structural, Hash)]
pub enum NumberKind {
    /// Decimal digits, with an optional fraction and exponent.
    Decimal,
    /// A leading zero followed by octal digits only.
    LegacyOctal,
    /// `0x` or `0X` and hexadecimal digits.
    Hex,
    /// `0o` or `0O` and octal digits.
    Octal,
    /// `0b` or `0B` and binary digits.
    Binary,
}

/// A numeric literal: its notation and its text as written.
#[derive(Clone, Debug, PartialEq, Eq, Hash)]
pub struct Number {
    pub kind: NumberKind,
    pub raw: String,
}

/// A lexical token.
#[derive(Clone, Debug, PartialEq, Eq, Hash)]
pub enum Token {
    Word(Word),
    /// `=>`
    Arrow,
    /// `@`
    At,
    /// `.`
    Dot,
    /// `...`
    DotDotDot,
    /// `!`
    Bang,
    /// `(`
    LParen,
    /// `)`
    RParen,
    /// `[`
    LBracket,
    /// `]`
    RBracket,
    /// `{`
    LBrace,
    /// `}`
    RBrace,
    /// `;`
    Semi,
    /// `,`
    Comma,
    /// `` ` ``
    BackQuote,
    /// A chunk of literal text inside a template, with escapes decoded.
    Template(String),
    /// `:`
    Colon,
    BinOp(BinOpToken),
    AssignOp(AssignOpToken),
    /// `${`
    DollarLBrace,
    /// `?`
    QuestionMark,
    /// `++`
    PlusPlus,
    /// `--`
    MinusMinus,
    /// `~`
    Tilde,
    /// A string literal, with escapes decoded.
    Str { value: String, has_escape: bool },
    /// A regular expression: its body and, if there are any, its flags.
    Regex(Str, Option<Str>),
    /// A numeric literal.
    Num(Number),
    /// A malformed piece of text.
    Error(Error),
}

/// A token with its place, and whether a line ended before it.
#[derive(Clone, Debug, PartialEq, Eq, Hash)]
pub struct TokenAndSpan {
    pub token: Token,
    /// Whether a line terminator stands between the previous token and this one.
    pub had_line_break: bool,
    pub span: Span,
}

/// The mathematical value of a [`Word`].
pub enum WordView {
    Keyword(Keyword),
    Null,
    True,
    False,
    Ident(Seq<char>),
}

/// The mathematical value of a [`Str`].
pub struct StrView {
    pub span: Span,
    pub value: Seq<char>,
    pub has_escape: bool,
}

/// The mathematical value of a [`Number`].
pub struct NumberView {
    pub kind: NumberKind,
    pub raw: Seq<char>,
}

/// The mathematical value of a [`Token`].
pub enum TokenView {
    Word(WordView),
    Arrow,
    At,
    Dot,
    DotDotDot,
    Bang,
    LParen,
    RParen,
    LBracket,
    RBracket,
    LBrace,
    RBrace,
    Semi,
    Comma,
    BackQuote,
    Template(Seq<char>),
    Colon,
    BinOp(BinOpToken),
    AssignOp(AssignOpToken),
    DollarLBrace,
    QuestionMark,
    PlusPlus,
    MinusMinus,
    Tilde,
    Str { value: Seq<char>, has_escape: bool },
    Regex(StrView, Option<StrView>),
    Num(NumberView),
    Error(Error),
}

/// The mathematical value of a [`TokenAndSpan`].
pub struct TokenAndSpanView {
    pub token: TokenView,
    pub had_line_break: bool,
    pub span: Span,
}

impl View for Word {
    type V = WordView;

    open spec fn view(&self) -> WordView {
        match *self {
            Word::Keyword(k) => WordView::Keyword(k),
            Word::Null => WordView::Null,
            Word::True => WordView::True,
            Word::False => WordView::False,
            Word::Ident(s) => WordView::Ident(s@),
        }
    }
}

impl View for Str {
    type V = StrView;

    open spec fn view(&self) -> StrView {
        StrView { span: self.span, value: self.value@, has_escape: self.has_escape }
    }
}

impl View for Number {
    type V = NumberView;

    open spec fn view(&self) -> NumberView {
        NumberView { kind: self.kind, raw: self.raw@ }
    }
}

/// The value of an optional [`Str`].
pub open spec fn opt_str_view(s: Option<Str>) -> Option<StrView> {
    match s {
        Some(s) => Some(s@),
        None => None,
    }
}

impl View for Token {
    type V = TokenView;

    open spec fn view(&self) -> TokenView {
        match *self {
            Token::Word(w) => TokenView::Word(w@),
            Token::Arrow => TokenView::Arrow,
            Token::At => TokenView::At,
            Token::Dot => TokenView::Dot,
            Token::DotDotDot => TokenView::DotDotDot,
            Token::Bang => TokenView::Bang,
            Token::LParen => TokenView::LParen,
            Token::RParen => TokenView::RParen,
            Token::LBracket => TokenView::LBracket,
            Token::RBracket => TokenView::RBracket,
            Token::LBrace => TokenView::LBrace,
            Token::RBrace => TokenView::RBrace,
            Token::Semi => TokenView::Semi,
            Token::Comma => TokenView::Comma,
            Token::BackQuote => TokenView::BackQuote,
            Token::Template(s) => TokenView::Template(s@),
            Token::Colon => TokenView::Colon,
            Token::BinOp(op) => TokenView::BinOp(op),
            Token::AssignOp(op) => TokenView::AssignOp(op),
            Token::DollarLBrace => TokenView::DollarLBrace,
            Token::QuestionMark => TokenView::QuestionMark,
            Token::PlusPlus => TokenView::PlusPlus,
            Token::MinusMinus => TokenView::MinusMinus,
            Token::Tilde => TokenView::Tilde,
            Token::Str { value, has_escape } => TokenView::Str { value: value@, has_escape },
            Token::Regex(body, flags) => TokenView::Regex(body@, opt_str_view(flags)),
            Token::Num(n) => TokenView::Num(n@),
            Token::Error(e) => TokenView::Error(e),
        }
    }
}

impl View for TokenAndSpan {
    type V = TokenAndSpanView;

    open spec fn view(&self) -> TokenAndSpanView {
        TokenAndSpanView {
            token: self.token@,
            had_line_break: self.had_line_break,
            span: self.span,
        }
    }
}

/// The values of a run of tokens, one for one.
pub open spec fn tokens_view(v: Seq<TokenAndSpan>) -> Seq<TokenAndSpanView> {
    v.map_values(|t: TokenAndSpan| t@)
}

} // verus!

verus! {

/// What sort of token a token is, without the text it carries.
#[derive(Clone, Copy, Debug, PartialEq, Eq, Structural, Hash)]
pub enum TokenKind {
    Keyword(Keyword),
    Null,
    True,
    False,
    /// An identifier other than `of`.
    Ident,
    /// The identifier `of`.
    Of,
    Arrow,
    At,
    Dot,
    DotDotDot,
    Bang,
    LParen,
    RParen,
    LBracket,
    RBracket,
    LBrace,
    RBrace,
    Semi,
    Comma,
    BackQuote,
    Colon,
    DollarLBrace,
    QuestionMark,
    PlusPlus,
    MinusMinus,
    Tilde,
    Template,
    BinOp(BinOpToken),
    AssignOp(AssignOpToken),
    Str,
    Regex,
    Num,
    Error,
}

impl TokenView {
    /// What sort of token this is.
    pub open spec fn kind(self) -> TokenKind {
        match self {
            TokenView::Word(WordView::Keyword(k)) => TokenKind::Keyword(k),
            TokenView::Word(WordView::Null) => TokenKind::Null,
            TokenView::Word(WordView::True) => TokenKind::True,
            TokenView::Word(WordView::False) => TokenKind::False,
            TokenView::Word(WordView::Ident(s)) => if s == "of"@ {
                TokenKind::Of
            } else {
                TokenKind::Ident
            },
            TokenView::Arrow => TokenKind::Arrow,
            TokenView::At => TokenKind::At,
            TokenView::Dot => TokenKind::Dot,
            TokenView::DotDotDot => TokenKind::DotDotDot,
            TokenView::Bang => TokenKind::Bang,
            TokenView::LParen => TokenKind::LParen,
            TokenView::RParen => TokenKind::RParen,
            TokenView::LBracket => TokenKind::LBracket,
            TokenView::RBracket => TokenKind::RBracket,
            TokenView::LBrace => TokenKind::LBrace,
            TokenView::RBrace => TokenKind::RBrace,
            TokenView::Semi => TokenKind::Semi,
            TokenView::Comma => TokenKind::Comma,
            TokenView::BackQuote => TokenKind::BackQuote,
            TokenView::Colon => TokenKind::Colon,
            TokenView::DollarLBrace => TokenKind::DollarLBrace,
            TokenView::QuestionMark => TokenKind::QuestionMark,
            TokenView::PlusPlus => TokenKind::PlusPlus,
            TokenView::MinusMinus => TokenKind::MinusMinus,
            TokenView::Tilde => TokenKind::Tilde,
            TokenView::Template(_) => TokenKind::Template,
            TokenView::BinOp(op) => TokenKind::BinOp(op),
            TokenView::AssignOp(op) => TokenKind::AssignOp(op),
            TokenView::Str { .. } => TokenKind::Str,
            TokenView::Regex(_, _) => TokenKind::Regex,
            TokenView::Num(_) => TokenKind::Num,
            TokenView::Error(_) => TokenKind::Error,
        }
    }
}

impl Token {
    /// What sort of token this is.
    pub fn kind(&self) -> (k: TokenKind)
        ensures
            k == self@.kind(),
    {
        match self {
            Token::Word(Word::Keyword(k)) => TokenKind::Keyword(*k),
            Token::Word(Word::Null) => TokenKind::Null,
            Token::Word(Word::True) => TokenKind::True,
            Token::Word(Word::False) => TokenKind::False,
            Token::Word(Word::Ident(s)) => {
                let chars = str_chars(s.as_str());
                if text_is(&chars, "of") {
                    TokenKind::Of
                } else {
                    TokenKind::Ident
                }
            },
            Token::Arrow => TokenKind::Arrow,
            Token::At => TokenKind::At,
            Token::Dot => TokenKind::Dot,
            Token::DotDotDot => TokenKind::DotDotDot,
            Token::Bang => TokenKind::Bang,
            Token::LParen => TokenKind::LParen,
            Token::RParen => TokenKind::RParen,
            Token::LBracket => TokenKind::LBracket,
            Token::RBracket => TokenKind::RBracket,
            Token::LBrace => TokenKind::LBrace,
            Token::RBrace => TokenKind::RBrace,
            Token::Semi => TokenKind::Semi,
            Token::Comma => TokenKind::Comma,
            Token::BackQuote => TokenKind::BackQuote,
            Token::Colon => TokenKind::Colon,
            Token::DollarLBrace => TokenKind::DollarLBrace,
            Token::QuestionMark => TokenKind::QuestionMark,
            Token::PlusPlus => TokenKind::PlusPlus,
            Token::MinusMinus => TokenKind::MinusMinus,
            Token::Tilde => TokenKind::Tilde,
            Token::Template(_) => TokenKind::Template,
            Token::BinOp(op) => TokenKind::BinOp(*op),
            Token::AssignOp(op) => TokenKind::AssignOp(*op),
            Token::Str { .. } => TokenKind::Str,
            Token::Regex(_, _) => TokenKind::Regex,
            Token::Num(_) => TokenKind::Num,
            Token::Error(_) => TokenKind::Error,
        }
    }
}

impl Token {
    /// The token at the given place, with no line break before it.
    pub fn with_span(self, span: Span) -> (t: TokenAndSpan)
        ensures
            t == (TokenAndSpan { token: self, had_line_break: false, span }),
    {
        TokenAndSpan { token: self, had_line_break: false, span }
    }
}

impl TokenAndSpan {
    /// The same token, flagged as following a line break.
    pub fn lb(self) -> (t: TokenAndSpan)
        ensures
            t == (TokenAndSpan { had_line_break: true, ..self }),
    {
        TokenAndSpan { had_line_break: true, ..self }
    }
}

impl TokenKind {
    /// Whether an expression can start directly after a token of this kind.
    pub open spec fn spec_before_expr(self) -> bool {
        match self {
            TokenKind::Keyword(k) => k.spec_before_expr(),
            TokenKind::BinOp(_) => true,
            TokenKind::AssignOp(_) => true,
            TokenKind::Arrow => true,
            TokenKind::DotDotDot => true,
            TokenKind::Bang => true,
            TokenKind::LParen => true,
            TokenKind::LBracket => true,
            TokenKind::LBrace => true,
            TokenKind::Semi => true,
            TokenKind::Comma => true,
            TokenKind::Colon => true,
            TokenKind::DollarLBrace => true,
            TokenKind::QuestionMark => true,
            TokenKind::Tilde => true,
            _ => false,
        }
    }

    /// Whether an expression can start directly after a token of this kind.
    #[verifier::when_used_as_spec(spec_before_expr)]
    pub fn before_expr(self) -> (b: bool)
        ensures
            b == self.spec_before_expr(),
    {
        match self {
            TokenKind::Keyword(k) => k.before_expr(),
            TokenKind::BinOp(_) => true,
            TokenKind::AssignOp(_) => true,
            TokenKind::Arrow => true,
            TokenKind::DotDotDot => true,
            TokenKind::Bang => true,
            TokenKind::LParen => true,
            TokenKind::LBracket => true,
            TokenKind::LBrace => true,
            TokenKind::Semi => true,
            TokenKind::Comma => true,
            TokenKind::Colon => true,
            TokenKind::DollarLBrace => true,
            TokenKind::QuestionMark => true,
            TokenKind::Tilde => true,
            _ => false,
        }
    }
}

} // verus!
