use ecma_parser::ast::{Expr, Ident, ObjectPatProp, Pat, Prop, PropName};
use ecma_parser::error::{Error, SyntaxError};
use ecma_parser::lexer::{lex, lex_module, Lexer};
use ecma_parser::parser::grammar::{Params, Target};
use ecma_parser::parser::object::{AnyProp, Object};
use ecma_parser::parser::Parser;
use ecma_parser::span::{sp, BytePos};
use ecma_parser::token::{NumberKind, TokenKind};

fn parse(s: &'static str, target: Target) -> Result<Object, Error> {
    let mut p = Parser::new(lex(s), false, false);
    p.parse_object(target)
}

fn expr_props(s: &'static str) -> Vec<Prop> {
    match parse(s, Target::Expr) {
        Ok(Object::Lit(o)) => o.props,
        other => panic!("not an object literal: {:?}", other),
    }
}

fn pat_props(s: &'static str) -> Vec<ObjectPatProp> {
    match parse(s, Target::Pat) {
        Ok(Object::Pat(o)) => o.props,
        other => panic!("not an object pattern: {:?}", other),
    }
}

fn error_of(s: &'static str, target: Target) -> Error {
    match parse(s, target) {
        Err(e) => e,
        Ok(o) => panic!("parsed: {:?}", o),
    }
}

fn ident(name: &str, lo: usize, hi: usize) -> Ident {
    Ident { span: sp(lo..hi), sym: name.into() }
}

#[test]
fn object_literal_shapes_in_order() {
    let props = expr_props("{ a: 1, b, c(){}, get d(){}, [e]: f }");
    assert_eq!(props.len(), 5);
    match &props[0] {
        Prop::KeyValue { key: PropName::Ident(k), value } => {
            assert_eq!(*k, ident("a", 2, 3));
            match &**value {
                Expr::Num(n) => {
                    assert_eq!(n.span, sp(5..6));
                    assert_eq!(n.value.kind, NumberKind::Decimal);
                    assert_eq!(n.value.raw, "1");
                }
                other => panic!("{:?}", other),
            }
        }
        other => panic!("{:?}", other),
    }
    assert_eq!(props[1], Prop::Shorthand(ident("b", 8, 9)));
    match &props[2] {
        Prop::Method { key: PropName::Ident(k), function } => {
            assert_eq!(*k, ident("c", 11, 12));
            assert_eq!(function.params, vec![]);
            assert_eq!(function.span, sp(11..16));
            assert_eq!(function.body.span, sp(14..16));
            assert!(!function.is_generator);
            assert_eq!(function.async_, None);
        }
        other => panic!("{:?}", other),
    }
    match &props[3] {
        Prop::Getter { span, key: PropName::Ident(k), body } => {
            assert_eq!(*span, sp(18..27));
            assert_eq!(*k, ident("d", 22, 23));
            assert_eq!(body.span, sp(25..27));
        }
        other => panic!("{:?}", other),
    }
    match &props[4] {
        Prop::KeyValue { key: PropName::Computed(k), value } => {
            assert_eq!(**k, Expr::Ident(ident("e", 30, 31)));
            assert_eq!(**value, Expr::Ident(ident("f", 34, 35)));
        }
        other => panic!("{:?}", other),
    }
}

#[test]
fn object_literal_span_covers_the_braces() {
    match parse("{ a: 1, b, c(){}, get d(){}, [e]: f }", Target::Expr) {
        Ok(Object::Lit(o)) => assert_eq!(o.span, sp(0..37)),
        other => panic!("{:?}", other),
    }
}

#[test]
fn trailing_comma_adds_no_property() {
    assert_eq!(expr_props("{ a, }"), expr_props("{ a }"));
    assert_eq!(expr_props("{ a, }").len(), 1);
    assert_eq!(pat_props("{ a, b, }").len(), 2);
    assert_eq!(expr_props("{}"), vec![]);
}

#[test]
fn lone_comma_is_an_error() {
    assert_eq!(error_of("{ , }", Target::Expr).error, SyntaxError::Unexpected);
    assert_eq!(error_of("{ a,, }", Target::Expr).error, SyntaxError::Unexpected);
    assert_eq!(error_of("{ a b }", Target::Expr).error, SyntaxError::Unexpected);
}

#[test]
fn method_is_an_error_in_a_pattern() {
    let e = error_of("{ a(){} }", Target::Pat);
    assert_eq!(e, Error { span: sp(3..4), error: SyntaxError::Unexpected });
    let props = expr_props("{ a(){} }");
    assert_eq!(props.len(), 1);
    assert!(matches!(props[0], Prop::Method { .. }));
}

#[test]
fn getter_and_setter_are_errors_in_a_pattern() {
    assert_eq!(error_of("{ get a(){} }", Target::Pat).error, SyntaxError::Unexpected);
    assert_eq!(error_of("{ set a(v){} }", Target::Pat).error, SyntaxError::Unexpected);
}

#[test]
fn reserved_word_shorthand_is_rejected() {
    let want = Error { span: sp(2..5), error: SyntaxError::ReservedWordInObjShorthandOrPat };
    assert_eq!(error_of("{ for }", Target::Expr), want);
    assert_eq!(error_of("{ for }", Target::Pat), want);
    assert_eq!(error_of("{ for, a }", Target::Expr), want);
}

#[test]
fn reserved_word_as_key_is_legal() {
    let props = expr_props("{ for: 1 }");
    assert!(matches!(&props[0], Prop::KeyValue { key: PropName::Ident(k), .. } if k.sym == "for"));
    let props = expr_props("{ for(){} }");
    assert!(matches!(&props[0], Prop::Method { key: PropName::Ident(k), .. } if k.sym == "for"));
}

#[test]
fn words_reserved_under_strict_rules_only() {
    assert_eq!(expr_props("{ let }"), vec![Prop::Shorthand(ident("let", 2, 5))]);
    assert_eq!(expr_props("{ public }"), vec![Prop::Shorthand(ident("public", 2, 8))]);
    let mut p = Parser::new(lex("{ let }"), true, false);
    assert_eq!(
        p.parse_object(Target::Expr).unwrap_err().error,
        SyntaxError::ReservedWordInObjShorthandOrPat
    );
    let mut p = Parser::new(lex("{ public }"), true, false);
    assert_eq!(
        p.parse_object(Target::Pat).unwrap_err().error,
        SyntaxError::ReservedWordInObjShorthandOrPat
    );
    let mut p = Parser::new(lex_module("{ await }"), true, true);
    assert_eq!(
        p.parse_object(Target::Expr).unwrap_err().error,
        SyntaxError::ReservedWordInObjShorthandOrPat
    );
    assert_eq!(expr_props("{ await }"), vec![Prop::Shorthand(ident("await", 2, 7))]);
}

#[test]
fn yield_is_reserved_inside_a_generator() {
    assert_eq!(expr_props("{ yield }"), vec![Prop::Shorthand(ident("yield", 2, 7))]);
    let e = error_of("{ *g(a = { yield }) {} }", Target::Expr);
    assert_eq!(e, Error { span: sp(11..16), error: SyntaxError::ReservedWordInObjShorthandOrPat });
    let e = error_of("{ async m(a = { await }) {} }", Target::Expr);
    assert_eq!(e.error, SyntaxError::ReservedWordInObjShorthandOrPat);
    // outside the function the word is free again
    let props = expr_props("{ *g() {}, yield }");
    assert_eq!(props[1], Prop::Shorthand(ident("yield", 11, 16)));
}

#[test]
fn generator_async_and_setter() {
    let props = expr_props("{ *g(a, b) {}, async h() {}, set s(v) {} }");
    match &props[0] {
        Prop::Method { key: PropName::Ident(k), function } => {
            assert_eq!(k.sym, "g");
            assert!(function.is_generator);
            assert_eq!(function.async_, None);
            assert_eq!(
                function.params,
                vec![Pat::Ident(ident("a", 5, 6)), Pat::Ident(ident("b", 8, 9))]
            );
            assert_eq!(function.span, sp(2..13));
        }
        other => panic!("{:?}", other),
    }
    match &props[1] {
        Prop::Method { key: PropName::Ident(k), function } => {
            assert_eq!(k.sym, "h");
            assert!(!function.is_generator);
            assert_eq!(function.async_, Some(sp(15..20)));
        }
        other => panic!("{:?}", other),
    }
    match &props[2] {
        Prop::Setter { span, key: PropName::Ident(k), param, body } => {
            assert_eq!(*span, sp(29..40));
            assert_eq!(k.sym, "s");
            assert_eq!(*param, Pat::Ident(ident("v", 35, 36)));
            assert_eq!(body.span, sp(38..40));
        }
        other => panic!("{:?}", other),
    }
}

#[test]
fn get_set_async_as_plain_names() {
    let props = expr_props("{ get, set: 1, async(){} }");
    assert_eq!(props[0], Prop::Shorthand(ident("get", 2, 5)));
    assert!(matches!(&props[1], Prop::KeyValue { key: PropName::Ident(k), .. } if k.sym == "set"));
    assert!(matches!(&props[2], Prop::Method { key: PropName::Ident(k), .. } if k.sym == "async"));
}

#[test]
fn getter_takes_no_parameter_and_setter_one() {
    assert_eq!(error_of("{ get a(b){} }", Target::Expr).error, SyntaxError::Unexpected);
    assert_eq!(error_of("{ set a(){} }", Target::Expr).error, SyntaxError::Unexpected);
    assert_eq!(error_of("{ set a(b, c){} }", Target::Expr).error, SyntaxError::Unexpected);
}

#[test]
fn other_word_before_a_key_is_an_error() {
    assert_eq!(
        error_of("{ foo a(){} }", Target::Expr),
        Error { span: sp(6..7), error: SyntaxError::Unexpected }
    );
    assert_eq!(error_of("{ 'a' }", Target::Expr).error, SyntaxError::Unexpected);
    assert_eq!(error_of("{ 1 }", Target::Pat).error, SyntaxError::Unexpected);
}

#[test]
fn shorthand_with_default() {
    let props = expr_props("{ a = 1 }");
    match &props[0] {
        Prop::Assign { key, value } => {
            assert_eq!(*key, ident("a", 2, 3));
            assert!(matches!(&**value, Expr::Num(n) if n.value.raw == "1"));
        }
        other => panic!("{:?}", other),
    }
    let props = pat_props("{ a = 1, b }");
    match &props[0] {
        ObjectPatProp::Assign { span, key, value: Some(v) } => {
            assert_eq!(*span, sp(2..7));
            assert_eq!(*key, ident("a", 2, 3));
            assert!(matches!(&**v, Expr::Num(_)));
        }
        other => panic!("{:?}", other),
    }
    assert_eq!(
        props[1],
        ObjectPatProp::Assign { span: sp(9..10), key: ident("b", 9, 10), value: None }
    );
}

#[test]
fn pattern_default_of_reserved_word_is_read() {
    // the check for a reserved word comes only where no default follows
    let props = pat_props("{ for = 1 }");
    assert!(matches!(&props[0], ObjectPatProp::Assign { key, value: Some(_), .. } if key.sym == "for"));
}

#[test]
fn nested_objects_and_patterns() {
    let props = expr_props("{ a: { b: { c } } }");
    match &props[0] {
        Prop::KeyValue { value, .. } => match &**value {
            Expr::Object(o) => {
                assert_eq!(o.span, sp(5..17));
                assert_eq!(o.props.len(), 1);
            }
            other => panic!("{:?}", other),
        },
        other => panic!("{:?}", other),
    }
    let props = pat_props("{ a: { b = 2 }, c: d = 3 }");
    match &props[0] {
        ObjectPatProp::KeyValue { value, .. } => assert!(matches!(&**value, Pat::Object(_))),
        other => panic!("{:?}", other),
    }
    match &props[1] {
        ObjectPatProp::KeyValue { value, .. } => match &**value {
            Pat::Assign { span, left, .. } => {
                assert_eq!(*span, sp(19..24));
                assert_eq!(**left, Pat::Ident(ident("d", 19, 20)));
            }
            other => panic!("{:?}", other),
        },
        other => panic!("{:?}", other),
    }
}

#[test]
fn prop_name_shapes() {
    let mut p = Parser::new(lex("'s' 0x10 while [x] ;"), false, false);
    match p.parse_prop_name() {
        Ok(PropName::Str(s)) => {
            assert_eq!(s.value, "s");
            assert_eq!(s.span, sp(0..3));
            assert!(!s.has_escape);
        }
        other => panic!("{:?}", other),
    }
    match p.parse_prop_name() {
        Ok(PropName::Num(n)) => {
            assert_eq!(n.value.kind, NumberKind::Hex);
            assert_eq!(n.value.raw, "0x10");
            assert_eq!(n.span, sp(4..8));
        }
        other => panic!("{:?}", other),
    }
    assert_eq!(p.parse_prop_name(), Ok(PropName::Ident(ident("while", 9, 14))));
    assert_eq!(
        p.parse_prop_name(),
        Ok(PropName::Computed(Box::new(Expr::Ident(ident("x", 16, 17)))))
    );
    assert_eq!(p.pos, 6);
    assert_eq!(p.parse_prop_name(), Err(Error { span: sp(19..20), error: SyntaxError::Unexpected }));
    assert_eq!(p.pos, 6);
}

#[test]
fn computed_key_needs_its_bracket() {
    assert_eq!(
        error_of("{ [a: 1 }", Target::Expr),
        Error { span: sp(4..5), error: SyntaxError::Unexpected }
    );
}

#[test]
fn end_of_input_is_an_error() {
    assert_eq!(error_of("{", Target::Expr), Error { span: sp(1..1), error: SyntaxError::Eof });
    assert_eq!(error_of("{ a", Target::Expr), Error { span: sp(3..3), error: SyntaxError::Eof });
    assert_eq!(error_of("{ a:", Target::Pat).error, SyntaxError::Eof);
    assert_eq!(error_of("{ a() {", Target::Expr).error, SyntaxError::Eof);
}

#[test]
fn lexical_error_is_passed_on() {
    assert_eq!(
        error_of("{ a: 'x", Target::Expr),
        Error { span: sp(5..7), error: SyntaxError::UnterminatedStrLit }
    );
    let mut p = Parser::new(lex_module("{ a: 01 }"), true, true);
    assert_eq!(
        p.parse_object(Target::Expr),
        Err(Error { span: sp(5..7), error: SyntaxError::LegacyOctal })
    );
}

#[test]
fn function_body_is_found_by_its_braces() {
    let props = expr_props("{ m() { if (x) { y } `${ {} }` } , n }");
    match &props[0] {
        Prop::Method { function, .. } => assert_eq!(function.body.span, sp(6..32)),
        other => panic!("{:?}", other),
    }
    assert_eq!(props[1], Prop::Shorthand(ident("n", 35, 36)));
}

#[test]
fn rules_are_restored_after_parsing() {
    let mut p = Parser::new(lex("{ async *[k](a) {} }"), false, false);
    p.ctx.include_in_expr = false;
    let before = p.ctx;
    let _ = p.parse_object(Target::Expr);
    assert_eq!(p.ctx, before);
    let mut p = Parser::new(lex("{ *g(a = { yield }) {} }"), false, false);
    let before = p.ctx;
    assert!(p.parse_object(Target::Expr).is_err());
    assert_eq!(p.ctx, before);
}

#[test]
fn driver_steps() {
    let mut p = Parser::from_lexer(Lexer::new("a , b"));
    assert_eq!(p.cur_pos(), BytePos(0));
    assert_eq!(p.cur_kind(), Some(TokenKind::Ident));
    assert!(p.is(TokenKind::Ident));
    assert!(!p.eat(TokenKind::Comma));
    assert_eq!(p.pos, 0);
    p.bump();
    assert_eq!(p.last_pos(), BytePos(1));
    assert_eq!(p.cur_pos(), BytePos(2));
    assert_eq!(p.expect(TokenKind::Semi), Err(Error { span: sp(2..3), error: SyntaxError::Unexpected }));
    assert_eq!(p.expect(TokenKind::Comma), Ok(()));
    assert_eq!(p.span(BytePos(0)), sp(0..3));
    assert!(p.eat(TokenKind::Ident));
    assert_eq!(p.cur(), None);
    assert_eq!(p.cur_pos(), BytePos(5));
    assert_eq!(p.unexpected(), Error { span: sp(5..5), error: SyntaxError::Eof });
}

#[test]
fn single_property_and_parameters() {
    let mut p = Parser::new(lex("a: 1"), false, false);
    assert!(matches!(p.parse_object_prop(Target::Expr), Ok(AnyProp::Lit(Prop::KeyValue { .. }))));
    let mut p = Parser::new(lex("a: b"), false, false);
    assert!(matches!(
        p.parse_object_prop(Target::Pat),
        Ok(AnyProp::Pat(ObjectPatProp::KeyValue { .. }))
    ));
    let mut p = Parser::new(lex("(a, {b}, c = 1,) {}"), false, false);
    let f = p.parse_fn_args_body(BytePos(0), Params::All, None, None).unwrap();
    assert_eq!(f.params.len(), 3);
    assert_eq!(f.span, sp(0..19));
    let mut p = Parser::new(lex("() {}"), false, false);
    assert!(p.parse_fn_args_body(BytePos(0), Params::One, None, None).is_err());
    let mut p = Parser::new(lex("this"), false, false);
    assert_eq!(p.parse_assignment_expr(), Ok(Expr::This { span: sp(0..4) }));
    let mut p = Parser::new(lex("true null 'x'"), false, false);
    assert_eq!(p.parse_value(), Ok(Expr::Bool { span: sp(0..4), value: true }));
    assert_eq!(p.parse_value(), Ok(Expr::Null { span: sp(5..9) }));
    assert!(matches!(p.parse_value(), Ok(Expr::Str(_))));
    let mut p = Parser::new(lex("if"), false, false);
    assert_eq!(p.parse_binding_element().unwrap_err().error, SyntaxError::Unexpected);
    assert_eq!(p.parse_assignment_expr().unwrap_err().error, SyntaxError::Unexpected);
}
