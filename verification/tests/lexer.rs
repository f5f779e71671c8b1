use ecma_parser::error::{Error, SyntaxError};
use ecma_parser::lexer::{lex, lex_module, lex_tokens};
use ecma_parser::span::{byte_span, sp, Span};
use ecma_parser::token::AssignOpToken::Assign;
use ecma_parser::token::BinOpToken::Div;
use ecma_parser::token::Keyword::{Function, Void};
use ecma_parser::token::Token::{
    AssignOp, BinOp, Dot, LBrace, LParen, RBrace, RParen, Regex, Semi, Template,
};
use ecma_parser::token::Word::{Ident, Keyword};
use ecma_parser::token::{
    AssignOpToken, BinOpToken, Number, NumberKind, Str, Token, TokenAndSpan, Word,
};
use std::ops::Range;

/// The value of a numeric literal as a float.
fn value_of(n: &Number) -> f64 {
    match n.kind {
        NumberKind::Decimal => n.raw.parse::<f64>().unwrap(),
        NumberKind::LegacyOctal => u64::from_str_radix(&n.raw, 8).unwrap() as f64,
        NumberKind::Hex => u64::from_str_radix(&n.raw[2..], 16).unwrap() as f64,
        NumberKind::Octal => u64::from_str_radix(&n.raw[2..], 8).unwrap() as f64,
        NumberKind::Binary => u64::from_str_radix(&n.raw[2..], 2).unwrap() as f64,
    }
}

/// The numeric token with the given value, in a canonical spelling.
fn num(v: f64) -> Token {
    Token::Num(Number { kind: NumberKind::Decimal, raw: format!("{}", v) })
}

/// Rewrites numeric tokens to their canonical spelling, so that tokens
/// compare by value.
fn by_value(t: Token) -> Token {
    match t {
        Token::Num(n) => num(value_of(&n)),
        t => t,
    }
}

fn lex_v(s: &'static str) -> Vec<TokenAndSpan> {
    lex(s)
        .into_iter()
        .map(|t| TokenAndSpan { token: by_value(t.token), ..t })
        .collect()
}

fn lex_tokens_v(s: &'static str) -> Vec<Token> {
    lex_tokens(s).into_iter().map(by_value).collect()
}

/// Blanks the places inside a token.
fn without_span(t: Token) -> Token {
    let blank = |s: Str| Str { span: sp(0..0), ..s };
    match t {
        Token::Regex(body, flags) => Token::Regex(blank(body), flags.map(blank)),
        Token::Error(e) => Token::Error(Error { span: sp(0..0), ..e }),
        t => t,
    }
}

fn without_spans(v: Vec<Token>) -> Vec<Token> {
    v.into_iter().map(without_span).collect()
}

trait SpanRange: Sized {
    fn into_span(self) -> Span;
}
impl SpanRange for usize {
    fn into_span(self) -> Span {
        byte_span(self)
    }
}
impl SpanRange for Range<usize> {
    fn into_span(self) -> Span {
        sp(self)
    }
}

trait WithSpan: Sized {
    fn span<R>(self, span: R) -> TokenAndSpan
    where
        R: SpanRange,
    {
        self.into_token().with_span(span.into_span())
    }
    fn into_token(self) -> Token;
}
impl WithSpan for Token {
    fn into_token(self) -> Token {
        self
    }
}
impl WithSpan for usize {
    fn into_token(self) -> Token {
        num(self as f64)
    }
}
impl WithSpan for f64 {
    fn into_token(self) -> Token {
        num(self)
    }
}
impl<'a> WithSpan for &'a str {
    fn into_token(self) -> Token {
        Token::Word(Ident(self.into()))
    }
}
impl WithSpan for ecma_parser::token::Keyword {
    fn into_token(self) -> Token {
        Token::Word(Keyword(self))
    }
}
impl WithSpan for Word {
    fn into_token(self) -> Token {
        Token::Word(self)
    }
}
impl WithSpan for BinOpToken {
    fn into_token(self) -> Token {
        BinOp(self)
    }
}
impl WithSpan for AssignOpToken {
    fn into_token(self) -> Token {
        AssignOp(self)
    }
}

#[test]
fn module_legacy_octal() {
    assert_eq!(
        lex_module("01"),
        vec![Token::Error(Error { span: sp(0..2), error: SyntaxError::LegacyOctal })
            .span(0..2)
            .lb(),]
    );
}

#[test]
fn module_legacy_decimal() {
    assert_eq!(
        lex_module("08"),
        vec![Token::Error(Error { span: sp(0..2), error: SyntaxError::LegacyDecimal })
            .span(0..2)
            .lb(),]
    );
}

#[test]
fn module_legacy_comment_1() {
    assert_eq!(
        lex_module("<!-- foo oo"),
        vec![Token::Error(Error { span: sp(0..11), error: SyntaxError::LegacyCommentInModule })
            .span(0..11)
            .lb(),]
    )
}

#[test]
fn module_legacy_comment_2() {
    assert_eq!(
        lex_module("-->"),
        vec![Token::Error(Error { span: sp(0..3), error: SyntaxError::LegacyCommentInModule })
            .span(0..3)
            .lb(),]
    )
}

#[test]
fn test262_lexer_error_0001() {
    assert_eq!(
        vec![
            123f64.span(0..4).lb(),
            Dot.span(4..5),
            "a".span(5..6),
            LParen.span(6..7),
            1.span(7..8),
            RParen.span(8..9),
        ],
        lex_v("123..a(1)")
    )
}

#[test]
fn test262_lexer_error_0002() {
    assert_eq!(
        vec![
            Token::Str { value: "use strict".into(), has_escape: true }.span(0..15).lb(),
            Semi.span(15..16),
        ],
        lex_v(r#"'use\x20strict';"#)
    );
}

#[test]
fn test262_lexer_error_0003() {
    assert_eq!(vec!["a".span(0..6).lb()], lex_v(r#"\u0061"#));
}

#[test]
fn test262_lexer_error_0004() {
    assert_eq!(
        vec![BinOp(BinOpToken::Add), LBrace, RBrace, BinOp(Div), 1.into_token()],
        lex_tokens_v("+{} / 1")
    );
}

#[test]
fn ident_escape_unicode() {
    assert_eq!(vec!["aa".span(0..7).lb()], lex_v(r#"a\u0061"#));
}

#[test]
fn ident_escape_unicode_2() {
    assert_eq!(lex_v("℘℘"), vec!["℘℘".span(0..6).lb()]);

    assert_eq!(lex_v(r#"℘\u2118"#), vec!["℘℘".span(0..9).lb()]);
}

#[test]
fn str_escape_hex() {
    assert_eq!(
        lex_v(r#"'\x61'"#),
        vec![Token::Str { value: "a".into(), has_escape: true }.span(0..6).lb(),]
    );
}

#[test]
fn str_escape_octal() {
    assert_eq!(
        lex_v(r#"'Hello\012World'"#),
        vec![Token::Str { value: "Hello\nWorld".into(), has_escape: true }.span(0..16).lb(),]
    )
}

#[test]
fn str_escape_unicode_long() {
    assert_eq!(
        lex_v(r#"'\u{00000000034}'"#),
        vec![Token::Str { value: "4".into(), has_escape: true }.span(0..17).lb(),]
    );
}

#[test]
fn regexp_unary_void() {
    assert_eq!(
        lex_v("void /test/"),
        vec![
            Void.span(0..4).lb(),
            Regex(Str { value: "test".into(), span: sp(6..10), has_escape: false }, None)
                .span(5..11),
        ]
    );
    assert_eq!(
        lex_v("void (/test/)"),
        vec![
            Void.span(0..4).lb(),
            LParen.span(5..6),
            Regex(Str { span: sp(7..11), value: "test".into(), has_escape: false }, None)
                .span(6..12),
            RParen.span(12..13),
        ]
    );
}

#[test]
fn non_regexp_unary_plus() {
    assert_eq!(
        lex_v("+{} / 1"),
        vec![
            BinOp(BinOpToken::Add).span(0..1).lb(),
            LBrace.span(1..2),
            RBrace.span(2..3),
            BinOp(Div).span(4..5),
            1.span(6..7),
        ]
    );
}

#[test]
fn invalid_but_lexable() {
    assert_eq!(vec![LParen.span(0).lb(), LBrace.span(1), Semi.span(2)], lex_v("({;"));
}

#[test]
fn paren_semi() {
    assert_eq!(vec![LParen.span(0).lb(), RParen.span(1), Semi.span(2)], lex_v("();"));
}

#[test]
fn ident_paren() {
    assert_eq!(
        vec!["a".span(0).lb(), LParen.span(1), "bc".span(2..4), RParen.span(4), Semi.span(5),],
        lex_v("a(bc);")
    );
}

#[test]
fn read_word() {
    assert_eq!(vec!["a".span(0).lb(), "b".span(2), "c".span(4)], lex_v("a b c"),)
}

#[test]
fn simple_regex() {
    assert_eq!(
        lex_v("x = /42/i"),
        vec![
            "x".span(0).lb(),
            Assign.span(2),
            Regex(
                Str { span: sp(5..7), value: "42".into(), has_escape: false },
                Some(Str { span: sp(8..9), value: "i".into(), has_escape: false }),
            )
            .span(4..9),
        ],
    );

    assert_eq!(
        lex_v("/42/"),
        vec![Regex(Str { span: sp(1..3), value: "42".into(), has_escape: false }, None)
            .span(0..4)
            .lb(),]
    );
}

#[test]
fn complex_regex() {
    assert_eq!(
        vec![
            Token::Word(Ident("f".into())),
            LParen,
            RParen,
            Semi,
            Token::Word(Keyword(Function)),
            Token::Word(Ident("foo".into())),
            LParen,
            RParen,
            LBrace,
            RBrace,
            Regex(
                Str { span: sp(0..0), value: "42".into(), has_escape: false },
                Some(Str { span: sp(0..0), value: "i".into(), has_escape: false }),
            ),
        ],
        without_spans(lex_tokens_v("f(); function foo() {} /42/i"))
    )
}

#[test]
fn simple_div() {
    assert_eq!(vec!["a".span(0).lb(), Div.span(2), "b".span(4)], lex_v("a / b"));
}

#[test]
fn complex_divide() {
    assert_eq!(
        vec![
            Token::Word(Ident("x".into())),
            AssignOp(Assign),
            Token::Word(Keyword(Function)),
            Token::Word(Ident("foo".into())),
            LParen,
            RParen,
            LBrace,
            RBrace,
            BinOp(Div),
            Token::Word(Ident("a".into())),
            BinOp(Div),
            Token::Word(Ident("i".into())),
        ],
        lex_tokens_v("x = function foo() {} /a/i"),
        "/ should be parsed as div operator"
    )
}

#[test]
fn spec_001() {
    let expected = vec![
        Token::Word(Ident("a".into())),
        AssignOp(Assign),
        Token::Word(Ident("b".into())),
        BinOp(Div),
        Token::Word(Ident("hi".into())),
        BinOp(Div),
        Token::Word(Ident("g".into())),
        Dot,
        Token::Word(Ident("exec".into())),
        LParen,
        Token::Word(Ident("c".into())),
        RParen,
        Dot,
        Token::Word(Ident("map".into())),
        LParen,
        Token::Word(Ident("d".into())),
        RParen,
        Semi,
    ];

    assert_eq!(
        expected,
        lex_tokens_v(
            "a = b
/hi/g.exec(c).map(d);"
        )
    );
    assert_eq!(expected, lex_tokens_v("a = b / hi / g.exec(c).map(d);"));
}

#[test]
fn after_if() {
    assert_eq!(
        lex_v("if(x){} /y/.test(z)"),
        vec![
            ecma_parser::token::Keyword::If.span(0..2).lb(),
            LParen.span(2),
            "x".span(3),
            RParen.span(4),
            LBrace.span(5),
            RBrace.span(6),
            Regex(Str { span: sp(9..10), value: "y".into(), has_escape: false }, None)
                .span(8..11),
            Dot.span(11),
            "test".span(12..16),
            LParen.span(16),
            "z".span(17),
            RParen.span(18),
        ],
    )
}

#[test]
fn empty() {
    assert_eq!(lex_v(""), vec![]);
}

#[test]
fn migrated_0002() {
    assert_eq!(
        vec![
            "tokenize".span(0..8).lb(),
            LParen.span(8),
            Regex(Str { span: sp(10..12), value: "42".into(), has_escape: false }, None)
                .span(9..13),
            RParen.span(13),
        ],
        lex_v("tokenize(/42/)")
    )
}

#[test]
fn migrated_0003() {
    assert_eq!(
        vec![
            LParen.span(0).lb(),
            Word::False.span(1..6),
            RParen.span(6),
            Div.span(8),
            42.span(9..11),
            Div.span(11),
        ],
        lex_v("(false) /42/"),
    )
}

#[test]
fn migrated_0004() {
    assert_eq!(
        vec![
            Function.span(0..8).lb(),
            "f".span(9),
            LParen.span(10),
            RParen.span(11),
            LBrace.span(12),
            RBrace.span(13),
            Regex(Str { span: sp(16..18), value: "42".into(), has_escape: false }, None)
                .span(15..19),
        ],
        lex_v("function f(){} /42/")
    );
}

#[test]
fn migrated_0006() {
    assert_eq!(
        vec![
            LBrace.span(0).lb(),
            RBrace.span(1),
            Regex(Str { span: sp(4..6), value: "42".into(), has_escape: false }, None)
                .span(3..7),
        ],
        lex_v("{} /42/")
    )
}

#[test]
fn str_lit() {
    assert_eq!(
        vec![Token::Str { value: "abcde".into(), has_escape: false }],
        lex_tokens_v("'abcde'")
    );
    assert_eq!(
        vec![Token::Str { value: "abc".into(), has_escape: true }],
        without_spans(lex_tokens_v("'\\\nabc'"))
    );
}

#[test]
fn tpl_empty() {
    assert_eq!(
        lex_tokens_v(r#"``"#),
        vec![Token::BackQuote, Template("".into()), Token::BackQuote]
    )
}

#[test]
fn tpl() {
    assert_eq!(
        lex_tokens_v(r#"`${a}`"#),
        vec![
            Token::BackQuote,
            Template("".into()),
            Token::DollarLBrace,
            Token::Word(Ident("a".into())),
            RBrace,
            Template("".into()),
            Token::BackQuote,
        ]
    )
}
