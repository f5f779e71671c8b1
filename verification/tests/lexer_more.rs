use ecma_parser::chars::{
    digit_value, is_decimal_digit, is_ident_part, is_ident_start, is_line_break, is_whitespace,
    utf8_len,
};
use ecma_parser::error::{Error, SyntaxError};
use ecma_parser::lexer::{lex, lex_module, lex_tokens, with_lexer, Context, Lexer};
use ecma_parser::span::{byte_span, sp, BytePos, Span, SyntaxContext};
use ecma_parser::token::{
    AssignOpToken, BinOpToken, Keyword, Number, NumberKind, Str, Token, TokenAndSpan, TokenKind,
    Word,
};
use ecma_parser::words::{is_reserved_word, keyword_of, word_of, word_string};

fn id(s: &str) -> Token {
    Token::Word(Word::Ident(s.into()))
}

fn kw(k: Keyword) -> Token {
    Token::Word(Word::Keyword(k))
}

fn number(kind: NumberKind, raw: &str) -> Token {
    Token::Num(Number { kind, raw: raw.into() })
}

fn dec(raw: &str) -> Token {
    number(NumberKind::Decimal, raw)
}

fn string(value: &str, has_escape: bool) -> Token {
    Token::Str { value: value.into(), has_escape }
}

fn err(lo: usize, hi: usize, error: SyntaxError) -> Token {
    Token::Error(Error { span: sp(lo..hi), error })
}

fn tok(token: Token, lo: usize, hi: usize, had_line_break: bool) -> TokenAndSpan {
    TokenAndSpan { token, had_line_break, span: sp(lo..hi) }
}

fn chars(s: &str) -> Vec<char> {
    s.chars().collect()
}

#[test]
fn line_comment_is_skipped_and_the_line_end_is_flagged() {
    assert_eq!(
        lex("a // c\n b"),
        vec![tok(id("a"), 0, 1, true), tok(id("b"), 8, 9, true)]
    );
    assert_eq!(lex("a // c"), vec![tok(id("a"), 0, 1, true)]);
}

#[test]
fn block_comment_flags_only_with_a_line_end_inside() {
    assert_eq!(
        lex("a /* x */ b"),
        vec![tok(id("a"), 0, 1, true), tok(id("b"), 10, 11, false)]
    );
    assert_eq!(
        lex("a /* \n */ b"),
        vec![tok(id("a"), 0, 1, true), tok(id("b"), 10, 11, true)]
    );
    assert_eq!(
        lex("a /* * / **/b"),
        vec![tok(id("a"), 0, 1, true), tok(id("b"), 12, 13, false)]
    );
}

#[test]
fn every_line_terminator_flags() {
    for src in ["a\nb", "a\rb", "a\u{2028}b", "a\u{2029}b", "a \t\r\n\t b"] {
        let v = lex(src);
        assert_eq!(v.len(), 2);
        assert!(v[0].had_line_break);
        assert!(v[1].had_line_break, "{:?}", src);
    }
    for src in ["a b", "a\tb", "a\u{a0}b", "a\u{feff}b", "a\u{3000}\u{2003}b", "a\u{b}\u{c}b"] {
        let v = lex(src);
        assert_eq!(v.len(), 2, "{:?}", src);
        assert!(!v[1].had_line_break, "{:?}", src);
    }
}

#[test]
fn flag_follows_line_terminators_between_tokens() {
    let src = "a\n+ /* c */ b /*\n*/ c // d\n\n e ; f";
    let v = lex(src);
    let flags: Vec<bool> = v.iter().map(|t| t.had_line_break).collect();
    assert_eq!(flags, vec![true, true, false, true, true, false, false]);
    let bytes = src.as_bytes();
    for k in 1..v.len() {
        let gap = &bytes[v[k - 1].span.hi.0 as usize..v[k].span.lo.0 as usize];
        let has = gap.iter().any(|b| *b == b'\n' || *b == b'\r');
        assert_eq!(v[k].had_line_break, has);
        assert!(v[k - 1].span.hi.0 <= v[k].span.lo.0);
    }
}

#[test]
fn html_comments_outside_a_module_are_skipped() {
    assert_eq!(
        lex("a <!-- x\n b"),
        vec![tok(id("a"), 0, 1, true), tok(id("b"), 10, 11, true)]
    );
    assert_eq!(
        lex("a\n--> x\nb"),
        vec![tok(id("a"), 0, 1, true), tok(id("b"), 8, 9, true)]
    );
    assert_eq!(lex("--> x"), vec![]);
}

#[test]
fn arrow_like_text_inside_a_line_is_two_operators() {
    assert_eq!(
        lex_tokens("a --> b"),
        vec![id("a"), Token::MinusMinus, Token::BinOp(BinOpToken::Gt), id("b")]
    );
    assert_eq!(
        lex_module("a --> b").into_iter().map(|t| t.token).collect::<Vec<_>>(),
        vec![id("a"), Token::MinusMinus, Token::BinOp(BinOpToken::Gt), id("b")]
    );
}

#[test]
fn html_comment_in_a_module_is_an_error_to_the_line_end() {
    assert_eq!(
        lex_module("a <!-- x\nb"),
        vec![
            tok(id("a"), 0, 1, true),
            tok(err(2, 8, SyntaxError::LegacyCommentInModule), 2, 8, false),
            tok(id("b"), 9, 10, true),
        ]
    );
    assert_eq!(
        lex_module("a\n  --> x"),
        vec![
            tok(id("a"), 0, 1, true),
            tok(err(4, 9, SyntaxError::LegacyCommentInModule), 4, 9, true),
        ]
    );
}

#[test]
fn unterminated_block_comment() {
    assert_eq!(
        lex("a /* x\n"),
        vec![
            tok(id("a"), 0, 1, true),
            tok(err(2, 7, SyntaxError::UnterminatedBlockComment), 2, 7, false),
        ]
    );
    assert_eq!(lex("/*/"), vec![tok(err(0, 3, SyntaxError::UnterminatedBlockComment), 0, 3, true)]);
}

#[test]
fn legacy_numbers_outside_strict_rules() {
    assert_eq!(lex("01"), vec![tok(number(NumberKind::LegacyOctal, "01"), 0, 2, true)]);
    assert_eq!(lex("08"), vec![tok(dec("08"), 0, 2, true)]);
    assert_eq!(lex_tokens("0777 089.5 00 0"), vec![
        number(NumberKind::LegacyOctal, "0777"),
        dec("089.5"),
        number(NumberKind::LegacyOctal, "00"),
        dec("0"),
    ]);
}

#[test]
fn legacy_numbers_under_strict_rules_cover_the_literal() {
    assert_eq!(
        lex_module("0777 089.5e1 0.5"),
        vec![
            tok(err(0, 4, SyntaxError::LegacyOctal), 0, 4, true),
            tok(err(5, 12, SyntaxError::LegacyDecimal), 5, 12, false),
            tok(dec("0.5"), 13, 16, false),
        ]
    );
}

#[test]
fn number_notations() {
    assert_eq!(
        lex_tokens("0x1F 0XaB 0o17 0O7 0b101 0B0 1.5e3 2E-7 3e+1 .5 7. 0.0 10"),
        vec![
            number(NumberKind::Hex, "0x1F"),
            number(NumberKind::Hex, "0XaB"),
            number(NumberKind::Octal, "0o17"),
            number(NumberKind::Octal, "0O7"),
            number(NumberKind::Binary, "0b101"),
            number(NumberKind::Binary, "0B0"),
            dec("1.5e3"),
            dec("2E-7"),
            dec("3e+1"),
            dec(".5"),
            dec("7."),
            dec("0.0"),
            dec("10"),
        ]
    );
}

#[test]
fn malformed_numbers() {
    assert_eq!(lex("0x"), vec![tok(err(0, 2, SyntaxError::ExpectedDigit { radix: 16 }), 0, 2, true)]);
    assert_eq!(
        lex("0b2"),
        vec![
            tok(err(0, 2, SyntaxError::ExpectedDigit { radix: 2 }), 0, 2, true),
            tok(dec("2"), 2, 3, false),
        ]
    );
    assert_eq!(lex("0o8")[0].token, err(0, 2, SyntaxError::ExpectedDigit { radix: 8 }));
    assert_eq!(lex("1e")[0], tok(err(0, 2, SyntaxError::NumLitTerminatedWithExp), 0, 2, true));
    assert_eq!(lex("1e+;")[0], tok(err(0, 3, SyntaxError::NumLitTerminatedWithExp), 0, 3, true));
    assert_eq!(
        lex("3in"),
        vec![
            tok(err(0, 1, SyntaxError::IdentAfterNum), 0, 1, true),
            tok(kw(Keyword::In), 1, 3, false),
        ]
    );
    assert_eq!(lex("0x1g")[0].token, err(0, 3, SyntaxError::IdentAfterNum));
    assert_eq!(lex("1.e")[0].token, err(0, 3, SyntaxError::NumLitTerminatedWithExp));
}

#[test]
fn string_escapes() {
    assert_eq!(
        lex_tokens(r#"'\n\r\t\b\v\f\0\'\"\\\a' "x" "A\u{1F600}\xe9""#),
        vec![
            string("\n\r\t\u{8}\u{b}\u{c}\0'\"\\a", true),
            string("x", false),
            string("A\u{1F600}\u{e9}", true),
        ]
    );
}

#[test]
fn string_line_continuations() {
    assert_eq!(lex_tokens("'a\\\r\nb'"), vec![string("ab", true)]);
    assert_eq!(lex_tokens("'a\\\rb'"), vec![string("ab", true)]);
    assert_eq!(lex_tokens("'a\\\u{2028}b'"), vec![string("ab", true)]);
    assert_eq!(lex_tokens("'a\u{2028}b'"), vec![string("a\u{2028}b", false)]);
}

#[test]
fn octal_escapes() {
    assert_eq!(
        lex_tokens(r#"'\1' '\12' '\101' '\377' '\400' '\78' '\08'"#),
        vec![
            string("\u{1}", true),
            string("\n", true),
            string("A", true),
            string("\u{ff}", true),
            string("\u{20}0", true),
            string("\u{7}8", true),
            string("\08", true),
        ]
    );
    assert_eq!(lex_module(r#"'\0'"#), vec![tok(string("\0", true), 0, 4, true)]);
    assert_eq!(
        lex_module(r#"'\01'"#),
        vec![
            tok(err(0, 4, SyntaxError::LegacyOctal), 0, 4, true),
            tok(err(4, 5, SyntaxError::UnterminatedStrLit), 4, 5, false),
        ]
    );
    assert_eq!(lex_module(r#"'\7'"#)[0].token, err(0, 3, SyntaxError::LegacyOctal));
    assert_eq!(lex_module(r#"'\08'"#)[0].token, err(0, 3, SyntaxError::LegacyOctal));
}

#[test]
fn malformed_strings() {
    assert_eq!(lex("'abc"), vec![tok(err(0, 4, SyntaxError::UnterminatedStrLit), 0, 4, true)]);
    assert_eq!(
        lex("'a\nb"),
        vec![
            tok(err(0, 2, SyntaxError::UnterminatedStrLit), 0, 2, true),
            tok(id("b"), 3, 4, true),
        ]
    );
    assert_eq!(lex("'a\\")[0].token, err(0, 3, SyntaxError::Eof));
    assert_eq!(lex(r#"'\xZ1'"#)[0].token, err(0, 3, SyntaxError::ExpectedHexChars { count: 2 }));
    assert_eq!(lex(r#"'\x4'"#)[0].token, err(0, 3, SyntaxError::ExpectedHexChars { count: 2 }));
    assert_eq!(lex(r#"'\u12'"#)[0].token, err(0, 3, SyntaxError::ExpectedHexChars { count: 4 }));
    assert_eq!(lex(r#"'\u{}'"#)[0].token, err(0, 4, SyntaxError::ExpectedHexChars { count: 1 }));
    assert_eq!(lex(r#"'\u{41'"#)[0].token, err(0, 6, SyntaxError::UnterminatedUnicodeEscape));
    assert_eq!(lex(r#"'\u{110000}'"#)[0].token, err(0, 11, SyntaxError::InvalidCodePoint));
    assert_eq!(lex(r#"'\u{FFFFFFFFFFFF}'"#)[0].token, err(0, 17, SyntaxError::InvalidCodePoint));
    assert_eq!(lex(r#"'\uD800'"#)[0].token, err(0, 7, SyntaxError::InvalidCodePoint));
    assert_eq!(lex_tokens(r#"'\u{10FFFF}'"#), vec![string("\u{10FFFF}", true)]);
}

#[test]
fn words() {
    assert_eq!(
        lex_tokens("if iff $a _b a1 null true false of await yield let"),
        vec![
            kw(Keyword::If),
            id("iff"),
            id("$a"),
            id("_b"),
            id("a1"),
            Token::Word(Word::Null),
            Token::Word(Word::True),
            Token::Word(Word::False),
            id("of"),
            kw(Keyword::Await),
            kw(Keyword::Yield),
            kw(Keyword::Let),
        ]
    );
    assert_eq!(lex_tokens("a\u{200d}b \u{e9}t\u{e9}"), vec![id("a\u{200d}b"), id("\u{e9}t\u{e9}")]);
}

#[test]
fn malformed_words() {
    assert_eq!(
        lex(r#"\u0069f"#),
        vec![tok(err(0, 7, SyntaxError::EscapeInReservedWord), 0, 7, true)]
    );
    assert_eq!(lex(r#"tru\u0065"#)[0].token, err(0, 9, SyntaxError::EscapeInReservedWord));
    assert_eq!(lex(r#"a\x41"#)[0].token, err(0, 2, SyntaxError::ExpectedUnicodeEscape));
    assert_eq!(lex(r#"\u0030a"#)[0].token, err(0, 6, SyntaxError::InvalidIdentChar));
    assert_eq!(lex(r#"a\u0020"#)[0].token, err(0, 7, SyntaxError::InvalidIdentChar));
    assert_eq!(lex(r#"a\u{0030}"#), vec![tok(id("a0"), 0, 9, true)]);
    assert_eq!(lex(r#"\u00"#)[0].token, err(0, 2, SyntaxError::ExpectedHexChars { count: 4 }));
}

#[test]
fn characters_that_start_nothing() {
    assert_eq!(
        lex("a # \u{25b3}"),
        vec![
            tok(id("a"), 0, 1, true),
            tok(err(2, 3, SyntaxError::UnexpectedChar { c: '#' }), 2, 3, false),
            tok(err(4, 7, SyntaxError::UnexpectedChar { c: '\u{25b3}' }), 4, 7, false),
        ]
    );
}

#[test]
fn punctuators_take_the_longest_spelling() {
    let b = Token::BinOp;
    let a = Token::AssignOp;
    assert_eq!(
        lex_tokens("a >>>= b >>> c >>= d >> e >= f > g"),
        vec![
            id("a"), a(AssignOpToken::ZeroFillRShiftAssign), id("b"), b(BinOpToken::ZeroFillRShift), id("c"),
            a(AssignOpToken::RShiftAssign), id("d"), b(BinOpToken::RShift), id("e"), b(BinOpToken::GtEq), id("f"), b(BinOpToken::Gt), id("g"),
        ]
    );
    assert_eq!(
        lex_tokens("a <<= b << c <= d < e"),
        vec![id("a"), a(AssignOpToken::LShiftAssign), id("b"), b(BinOpToken::LShift), id("c"), b(BinOpToken::LtEq), id("d"), b(BinOpToken::Lt), id("e")]
    );
    assert_eq!(
        lex_tokens("a **= b ** c *= d * e"),
        vec![id("a"), a(AssignOpToken::ExpAssign), id("b"), b(BinOpToken::Exp), id("c"), a(AssignOpToken::MulAssign), id("d"), b(BinOpToken::Mul), id("e")]
    );
    assert_eq!(
        lex_tokens("a === b == c = d => e !== f != g"),
        vec![
            id("a"), b(BinOpToken::EqEqEq), id("b"), b(BinOpToken::EqEq), id("c"), a(AssignOpToken::Assign), id("d"), Token::Arrow,
            id("e"), b(BinOpToken::NotEqEq), id("f"), b(BinOpToken::NotEq), id("g"),
        ]
    );
    assert_eq!(
        lex_tokens("a && b &= c & d || e |= f | g ^= h ^ i"),
        vec![
            id("a"), b(BinOpToken::LogicalAnd), id("b"), a(AssignOpToken::BitAndAssign), id("c"), b(BinOpToken::BitAnd), id("d"),
            b(BinOpToken::LogicalOr), id("e"), a(AssignOpToken::BitOrAssign), id("f"), b(BinOpToken::BitOr), id("g"), a(AssignOpToken::BitXorAssign),
            id("h"), b(BinOpToken::BitXor), id("i"),
        ]
    );
    assert_eq!(
        lex_tokens("a += b ++ -= c -- + d - e %= f % g"),
        vec![
            id("a"), a(AssignOpToken::AddAssign), id("b"), Token::PlusPlus, a(AssignOpToken::SubAssign), id("c"),
            Token::MinusMinus, b(BinOpToken::Add), id("d"), b(BinOpToken::Sub), id("e"), a(AssignOpToken::ModAssign), id("f"), b(BinOpToken::Mod),
            id("g"),
        ]
    );
    assert_eq!(
        lex_tokens("a /= b / c"),
        vec![id("a"), a(AssignOpToken::DivAssign), id("b"), b(BinOpToken::Div), id("c")]
    );
    assert_eq!(
        lex_tokens("[...a].b ? !c : ~d @ ..e"),
        vec![
            Token::LBracket, Token::DotDotDot, id("a"), Token::RBracket, Token::Dot, id("b"),
            Token::QuestionMark, Token::Bang, id("c"), Token::Colon, Token::Tilde, id("d"),
            Token::At, Token::Dot, Token::Dot, id("e"),
        ]
    );
}

fn regex(body: &str, lo: usize, flags: Option<&str>) -> Token {
    let hi = lo + body.len();
    Token::Regex(
        Str { span: sp(lo..hi), value: body.into(), has_escape: false },
        flags.map(|f| Str { span: sp(hi + 1..hi + 1 + f.len()), value: f.into(), has_escape: false }),
    )
}

#[test]
fn regex_bodies() {
    assert_eq!(lex("/[/]/"), vec![tok(regex("[/]", 1, None), 0, 5, true)]);
    assert_eq!(lex(r#"/a\/b/gi"#), vec![tok(regex(r#"a\/b"#, 1, Some("gi")), 0, 8, true)]);
    assert_eq!(lex(r#"/\[/ /]/"#)[0], tok(regex(r#"\["#, 1, None), 0, 4, true));
    assert_eq!(lex("/\u{e9}/u"), vec![tok(regex("\u{e9}", 1, Some("u")), 0, 5, true)]);
}

#[test]
fn malformed_regex() {
    assert_eq!(lex("/ab"), vec![tok(err(0, 3, SyntaxError::UnterminatedRegxp), 0, 3, true)]);
    assert_eq!(lex("/a\nb/")[0], tok(err(0, 2, SyntaxError::UnterminatedRegxp), 0, 2, true));
    assert_eq!(lex("/[/")[0].token, err(0, 3, SyntaxError::UnterminatedRegxp));
    assert_eq!(lex("/a\\")[0].token, err(0, 3, SyntaxError::UnterminatedRegxp));
    assert_eq!(lex("/a\\\n/")[0].token, err(0, 3, SyntaxError::UnterminatedRegxp));
}

#[test]
fn slash_after_a_value_divides() {
    assert_eq!(
        lex_tokens("a++ / b / c"),
        vec![id("a"), Token::PlusPlus, Token::BinOp(BinOpToken::Div), id("b"), Token::BinOp(BinOpToken::Div), id("c")]
    );
    assert_eq!(
        lex_tokens("x[0] /2/ 1"),
        vec![
            id("x"), Token::LBracket, dec("0"), Token::RBracket, Token::BinOp(BinOpToken::Div), dec("2"),
            Token::BinOp(BinOpToken::Div), dec("1"),
        ]
    );
    assert_eq!(lex_tokens("this / 2"), vec![kw(Keyword::This), Token::BinOp(BinOpToken::Div), dec("2")]);
    assert_eq!(lex_tokens("'s' / 2"), vec![string("s", false), Token::BinOp(BinOpToken::Div), dec("2")]);
    assert_eq!(lex_tokens("a.return /2/g").len(), 7);
}

#[test]
fn slash_where_an_expression_starts_is_a_regex() {
    for src in [
        "return /x/", "typeof /x/", "case /x/", "a = /x/", "a, /x/", "a ? /x/ : b", "[/x/]",
        "!/x/", "a && /x/", "; /x/", "=> /x/", "while (a) /x/", "for (a of /x/) b",
        "with (a) /x/", "if (a) /x/", "else /x/", "do /x/", "throw /x/", "new /x/", "delete /x/",
        "in /x/", "instanceof /x/", "yield /x/", "await /x/", "a = { b: /x/ }", "({}) => /x/",
        "`${ /x/ }`", "...  /x/",
    ] {
        let v = lex_tokens(src);
        assert!(
            v.iter().any(|t| matches!(t, Token::Regex(body, None) if body.value == "x")),
            "{:?}: {:?}",
            src,
            v
        );
    }
    for src in ["(a) /x/ b", "a /x/ b", "a.b /x/ c", "1 /x/ 2", "a[1] /x/ b", "a = {} /x/ b",
        "a = function(){} /x/ b", "`a` /x/ b", "for (a of b) c /x/ d", "of /x/ b", "a++ /x/ b"] {
        let v = lex_tokens(src);
        assert!(!v.iter().any(|t| matches!(t, Token::Regex(..))), "{:?}: {:?}", src, v);
    }
}

#[test]
fn line_break_after_a_declaration_word() {
    assert!(lex_tokens("let a\n/x/g").iter().all(|t| !matches!(t, Token::Regex(..))));
    assert!(lex_tokens("let\na /x/ b").iter().any(|t| matches!(t, Token::Regex(..))));
    assert!(lex_tokens("return\n{} /x/").iter().any(|t| matches!(t, Token::Regex(..))));
    assert!(lex_tokens("return {} /x/ b").iter().all(|t| !matches!(t, Token::Regex(..))));
}

#[test]
fn template_with_text_and_substitutions() {
    assert_eq!(
        lex("`a${b}c`"),
        vec![
            tok(Token::BackQuote, 0, 1, true),
            tok(Token::Template("a".into()), 1, 2, false),
            tok(Token::DollarLBrace, 2, 4, false),
            tok(id("b"), 4, 5, false),
            tok(Token::RBrace, 5, 6, false),
            tok(Token::Template("c".into()), 6, 7, false),
            tok(Token::BackQuote, 7, 8, false),
        ]
    );
    assert_eq!(
        lex_tokens("`$ {a} \\` \\${ \r\n \r \\u0041 \n`"),
        vec![
            Token::BackQuote,
            Token::Template("$ {a} ` ${ \n \n A \n".into()),
            Token::BackQuote,
        ]
    );
}

#[test]
fn template_nesting() {
    assert_eq!(
        lex_tokens("`${ {a: `x${1}`} }` + 1"),
        vec![
            Token::BackQuote,
            Token::Template("".into()),
            Token::DollarLBrace,
            Token::LBrace,
            id("a"),
            Token::Colon,
            Token::BackQuote,
            Token::Template("x".into()),
            Token::DollarLBrace,
            dec("1"),
            Token::RBrace,
            Token::Template("".into()),
            Token::BackQuote,
            Token::RBrace,
            Token::RBrace,
            Token::Template("".into()),
            Token::BackQuote,
            Token::BinOp(BinOpToken::Add),
            dec("1"),
        ]
    );
}

#[test]
fn template_keeps_its_white_space() {
    let v = lex("` a\n`");
    assert_eq!(v[1], tok(Token::Template(" a\n".into()), 1, 4, false));
    assert_eq!(v[2], tok(Token::BackQuote, 4, 5, false));
}

#[test]
fn malformed_templates() {
    assert_eq!(
        lex("`abc"),
        vec![
            tok(Token::BackQuote, 0, 1, true),
            tok(err(1, 4, SyntaxError::UnterminatedTpl), 1, 4, false),
        ]
    );
    assert_eq!(
        lex("`"),
        vec![
            tok(Token::BackQuote, 0, 1, true),
            tok(err(1, 1, SyntaxError::UnterminatedTpl), 1, 1, false),
        ]
    );
    assert_eq!(
        lex("`${a}"),
        vec![
            tok(Token::BackQuote, 0, 1, true),
            tok(Token::Template("".into()), 1, 1, false),
            tok(Token::DollarLBrace, 1, 3, false),
            tok(id("a"), 3, 4, false),
            tok(Token::RBrace, 4, 5, false),
            tok(err(5, 5, SyntaxError::UnterminatedTpl), 5, 5, false),
        ]
    );
    assert_eq!(
        lex("`\\01`")[1],
        tok(err(1, 4, SyntaxError::LegacyOctal), 1, 4, false)
    );
    assert_eq!(lex("`a\\")[1].token, err(1, 3, SyntaxError::Eof));
}

#[test]
fn spans_count_bytes() {
    assert_eq!(
        lex("'\u{e9}\u{1F600}' \u{2118}"),
        vec![
            tok(string("\u{e9}\u{1F600}", false), 0, 8, true),
            tok(id("\u{2118}"), 9, 12, false),
        ]
    );
}

#[test]
fn lexing_twice_gives_the_same_tokens() {
    let src = "a = b / hi / g.exec(c).map(d); `x${/re/}` 'str' 0x10 // end";
    assert_eq!(lex(src), lex(src));
    assert_eq!(lex_module(src), lex_module(src));
    assert_eq!(lex_tokens(src), lex(src).into_iter().map(|t| t.token).collect::<Vec<_>>());
}

#[test]
fn tokens_one_at_a_time() {
    let mut l = Lexer::new("a\n/b/ 1");
    assert_eq!(l.ctx, Context { strict: false, module: false });
    assert_eq!(l.next(), Some(tok(id("a"), 0, 1, true)));
    assert_eq!(l.state.pos, 1);
    assert!(!l.state.is_expr_allowed);
    assert_eq!(l.state.prev, Some(TokenKind::Ident));
    assert_eq!(l.next().map(|t| t.token), Some(Token::BinOp(BinOpToken::Div)));
    assert!(l.state.is_expr_allowed);
    assert_eq!(l.next().map(|t| t.token), Some(id("b")));
    let rest = l.collect();
    assert_eq!(rest.len(), 2);
    let mut l = Lexer::new("  ");
    assert_eq!(l.next(), None);
    assert_eq!(l.next(), None);
}

#[test]
fn with_lexer_hands_over_a_fresh_tokenizer() {
    let n = with_lexer("a b c", |l| l.collect().len());
    assert_eq!(n, 3);
    let first = with_lexer("01", |mut l| {
        l.ctx.strict = true;
        l.next()
    });
    assert_eq!(first, Some(tok(err(0, 2, SyntaxError::LegacyOctal), 0, 2, true)));
}

#[test]
fn span_arithmetic() {
    let s = Span::new(BytePos(7), BytePos(3), SyntaxContext(9));
    assert_eq!(s, Span { lo: BytePos(3), hi: BytePos(7), ctxt: SyntaxContext(9) });
    assert_eq!(s.len(), 4);
    assert!(!s.is_empty());
    assert!(Span::new(BytePos(5), BytePos(5), SyntaxContext::empty()).is_empty());
    assert_eq!(sp(2..5), Span { lo: BytePos(2), hi: BytePos(5), ctxt: SyntaxContext(0) });
    assert_eq!(sp(5..2), sp(2..5));
    assert_eq!(sp(0..0).len(), 0);
    assert_eq!(sp(2..5).to(sp(4..9)), sp(2..9));
    assert_eq!(sp(4..9).to(sp(2..5)), sp(2..9));
    assert_eq!(sp(2..9).to(sp(4..5)), sp(2..9));
    assert_eq!(s.to(sp(0..1)).ctxt, SyntaxContext(9));
    assert_eq!(sp(0x1_0000_0005..0x2_0000_0007), sp(5..7));
    assert_eq!(byte_span(4), sp(4..5));
    assert_eq!(byte_span(0xffff_ffff), sp(0..0xffff_ffff));
}

#[test]
fn token_builders() {
    let t = id("a").with_span(sp(1..2));
    assert_eq!(t, tok(id("a"), 1, 2, false));
    assert_eq!(t.lb(), tok(id("a"), 1, 2, true));
    assert_eq!(tok(id("a"), 1, 2, true).lb(), tok(id("a"), 1, 2, true));
}

#[test]
fn character_classes() {
    assert!(is_line_break('\n') && is_line_break('\r') && is_line_break('\u{2028}'));
    assert!(!is_line_break(' ') && !is_line_break('\u{85}'));
    assert!(is_whitespace(' ') && is_whitespace('\t') && is_whitespace('\u{1680}'));
    assert!(is_whitespace('\u{2000}') && is_whitespace('\u{200a}') && is_whitespace('\u{202f}'));
    assert!(!is_whitespace('\n') && !is_whitespace('a') && !is_whitespace('\u{200b}'));
    assert!(is_ident_start('a') && is_ident_start('Z') && is_ident_start('$'));
    assert!(is_ident_start('_') && is_ident_start('\u{2118}') && is_ident_start('\u{e9}'));
    assert!(!is_ident_start('1') && !is_ident_start('-') && !is_ident_start('\u{25b3}'));
    assert!(!is_ident_start('\u{200d}') && !is_ident_start('\u{301}'));
    assert!(is_ident_part('1') && is_ident_part('\u{200c}') && is_ident_part('\u{200d}'));
    assert!(is_ident_part('\u{301}') && !is_ident_part('-') && !is_ident_part('\u{25b3}'));
    assert!(is_decimal_digit('0') && is_decimal_digit('9') && !is_decimal_digit('a'));
    assert_eq!(digit_value('7', 8), Some(7));
    assert_eq!(digit_value('8', 8), None);
    assert_eq!(digit_value('f', 16), Some(15));
    assert_eq!(digit_value('F', 16), Some(15));
    assert_eq!(digit_value('g', 16), None);
    assert_eq!(digit_value('1', 2), Some(1));
    assert_eq!(digit_value('a', 10), None);
    assert_eq!(utf8_len('a'), 1);
    assert_eq!(utf8_len('\u{7f}'), 1);
    assert_eq!(utf8_len('\u{80}'), 2);
    assert_eq!(utf8_len('\u{7ff}'), 2);
    assert_eq!(utf8_len('\u{800}'), 3);
    assert_eq!(utf8_len('\u{ffff}'), 3);
    assert_eq!(utf8_len('\u{10000}'), 4);
    for c in ['a', '\u{e9}', '\u{2118}', '\u{1F600}'] {
        assert_eq!(utf8_len(c) as usize, c.len_utf8());
    }
}

#[test]
fn word_tables() {
    assert_eq!(keyword_of(&chars("instanceof")), Some(Keyword::InstanceOf));
    assert_eq!(keyword_of(&chars("default")), Some(Keyword::Default_));
    assert_eq!(keyword_of(&chars("Default")), None);
    assert_eq!(keyword_of(&chars("")), None);
    assert_eq!(word_of(&chars("null")), Word::Null);
    assert_eq!(word_of(&chars("nul")), Word::Ident("nul".into()));
    assert_eq!(word_of(&chars("void")), Word::Keyword(Keyword::Void));
    for k in [Keyword::Await, Keyword::Default_, Keyword::TypeOf, Keyword::Delete] {
        assert_eq!(keyword_of(&chars(k.as_str())), Some(k));
        assert_eq!(word_string(&Word::Keyword(k)), k.as_str());
    }
    assert_eq!(word_string(&Word::True), "true");
    assert_eq!(word_string(&Word::Ident("x".into())), "x");
    assert!(Keyword::Return.before_expr() && !Keyword::If.before_expr());
    assert!(TokenKind::LParen.before_expr() && !TokenKind::RParen.before_expr());
    assert_eq!(id("of").kind(), TokenKind::Of);
    assert_eq!(id("off").kind(), TokenKind::Ident);
    assert_eq!(dec("1").kind(), TokenKind::Num);
}

#[test]
fn reserved_words() {
    let r = |w: &str, strict, module, gen, asy| is_reserved_word(&chars(w), strict, module, gen, asy);
    assert!(r("for", false, false, false, false));
    assert!(r("enum", false, false, false, false));
    assert!(r("null", false, false, false, false));
    assert!(!r("let", false, false, false, false) && r("let", true, false, false, false));
    assert!(!r("await", true, false, false, false));
    assert!(r("await", false, true, false, false) && r("await", false, false, false, true));
    assert!(!r("yield", false, true, false, true));
    assert!(r("yield", true, false, false, false) && r("yield", false, false, true, false));
    assert!(!r("package", false, true, true, true) && r("package", true, false, false, false));
    assert!(!r("of", true, true, true, true) && !r("get", true, true, true, true));
}
