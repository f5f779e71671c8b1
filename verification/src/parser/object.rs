//! Parsing object literals and object patterns.
//!
//! One routine reads the braces and the commas for both; what a property
//! is depends on the target.

use crate::ast::{pat_props_view, pats_view, props_view, BlockStmt, Expr, Function, Ident,
    ObjectLitView, ObjectPatView,
    NumberLit, ObjectLit, ObjectPat, ObjectPatProp, Pat, PatView, Prop, PropName};
use crate::error::{Error, SyntaxError};
use crate::parser::grammar::{accessor, assignment_expr, binding_element, block_end, expr_prop,
    fn_args_body, fn_body, fn_params, formal_params, getter, lits, make_object, method, object,
    object_prop, pat_prop, pats, prop_name, props, reserved, setter, with_in, AnyPropView,
    ObjectView, Params, Target};
use crate::parser::{cur_lo, kind_at, unexpected, ParseCtx, Parser};
use crate::span::{BytePos, Span};
use crate::text::{str_chars, text_is};
use crate::token::{AssignOpToken, BinOpToken, Keyword, Number, Str, Token, TokenAndSpanView,
    TokenKind, Word};
use crate::words::{is_reserved_word, word_string};
use vstd::prelude::*;

verus! {

/// A property of either kind.
#[derive(Debug, PartialEq, Eq)]
pub enum AnyProp {
    Lit(Prop),
    Pat(ObjectPatProp),
}

/// An object of either kind.
#[derive(Debug, PartialEq, Eq)]
pub enum Object {
    Lit(ObjectLit),
    Pat(ObjectPat),
}

impl View for AnyProp {
    type V = AnyPropView;

    open spec fn view(&self) -> AnyPropView {
        match self {
            AnyProp::Lit(p) => AnyPropView::Lit(p@),
            AnyProp::Pat(p) => AnyPropView::Pat(p@),
        }
    }
}

impl View for Object {
    type V = ObjectView;

    open spec fn view(&self) -> ObjectView {
        match self {
            Object::Lit(o) => ObjectView::Lit(o@),
            Object::Pat(o) => ObjectView::Pat(o@),
        }
    }
}

/// Whether the parser `after` stands on the same tokens under the same
/// rules as `before`, and not before it.
pub open spec fn kept(before: Parser, after: Parser) -> bool {
    &&& after.wf()
    &&& after.tokens == before.tokens
    &&& after.ctx == before.ctx
    &&& before.pos <= after.pos
}

/// Whether the result `r` of a parsing routine that stopped at `end` is
/// what the grammar asks for: the same value and index, or the same error.
pub open spec fn parsed<T: View>(r: Result<T, Error>, end: int, want: Result<(T::V, int), Error>)
    -> bool {
    match want {
        Ok((v, p)) => r is Ok && r->Ok_0@ == v && end == p,
        Err(e) => r is Err && r->Err_0 == e,
    }
}

/// The given properties before those that `r` holds.
pub open spec fn prepend<T>(acc: Seq<T>, r: Result<(Seq<T>, int), Error>) -> Result<
    (Seq<T>, int),
    Error,
> {
    match r {
        Ok((rest, p)) => Ok((acc + rest, p)),
        Err(e) => Err(e),
    }
}

/// `BlockStmt` is its own mathematical value.
impl View for BlockStmt {
    type V = BlockStmt;

    open spec fn view(&self) -> BlockStmt {
        *self
    }
}

/// Adding a property of a literal extends the literal's properties and
/// leaves the pattern's as they are; and the other way round.
proof fn lemma_push_prop(acc: Seq<AnyPropView>, x: AnyPropView)
    ensures
        lits(acc.push(x)) == (match x {
            AnyPropView::Lit(p) => lits(acc).push(p),
            AnyPropView::Pat(_) => lits(acc),
        }),
        pats(acc.push(x)) == (match x {
            AnyPropView::Pat(p) => pats(acc).push(p),
            AnyPropView::Lit(_) => pats(acc),
        }),
{
    assert(acc.push(x).drop_last() == acc);
}

/// A list of properties that goes on with the property `x` is that
/// property followed by the rest of the list.
proof fn lemma_props_step(
    toks: Seq<TokenAndSpanView>,
    head: int,
    ctx: ParseCtx,
    target: Target,
    first: bool,
    at: int,
    x: AnyPropView,
    p2: int,
    acc: Seq<AnyPropView>,
)
    requires
        kind_at(toks, head) != Some(TokenKind::RBrace),
        first ==> at == head,
        !first ==> kind_at(toks, head) == Some(TokenKind::Comma) && at == head + 1 && kind_at(
            toks,
            at,
        ) != Some(TokenKind::RBrace),
        object_prop(toks, at, ctx, target) == Ok::<(AnyPropView, int), Error>((x, p2)),
        at < p2 <= toks.len(),
    ensures
        prepend(acc, props(toks, head, ctx, target, first)) == prepend(
            acc.push(x),
            props(toks, p2, ctx, target, false),
        ),
{
    match props(toks, p2, ctx, target, false) {
        Ok((more, p3)) => {
            assert(acc + (seq![x] + more) == acc.push(x) + more);
        },
        Err(e) => {},
    }
}

/// A list of parameters that goes on with the parameter `x` is that
/// parameter followed by the rest of the list.
proof fn lemma_params_step(
    toks: Seq<TokenAndSpanView>,
    head: int,
    ctx: ParseCtx,
    first: bool,
    at: int,
    x: PatView,
    p2: int,
    acc: Seq<PatView>,
)
    requires
        kind_at(toks, head) != Some(TokenKind::RParen),
        first ==> at == head,
        !first ==> kind_at(toks, head) == Some(TokenKind::Comma) && at == head + 1 && kind_at(
            toks,
            at,
        ) != Some(TokenKind::RParen),
        binding_element(toks, at, ctx) == Ok::<(PatView, int), Error>((x, p2)),
        at < p2 <= toks.len(),
    ensures
        prepend(acc, formal_params(toks, head, ctx, first)) == prepend(
            acc.push(x),
            formal_params(toks, p2, ctx, false),
        ),
{
    match formal_params(toks, p2, ctx, false) {
        Ok((more, p3)) => {
            assert(acc + (seq![x] + more) == acc.push(x) + more);
        },
        Err(e) => {},
    }
}

impl Parser {
    /// Whether `sym` is reserved under the rules that hold.
    pub fn is_reserved(&self, sym: &String) -> (b: bool)
        ensures
            b == reserved(self.ctx, sym@),
    {
        let chars = str_chars(sym.as_str());
        is_reserved_word(
            &chars,
            self.ctx.strict,
            self.ctx.module,
            self.ctx.in_generator,
            self.ctx.in_async,
        )
    }

    /// Parses the body of a function: from `{` to the `}` that matches it.
    pub fn parse_fn_body(&mut self) -> (r: Result<BlockStmt, Error>)
        requires
            old(self).wf(),
        ensures
            kept(*old(self), *final(self)),
            r is Ok ==> old(self).pos < final(self).pos,
            parsed(r, final(self).pos as int, fn_body(old(self).toks(), old(self).pos as int)),
    {
        let start = self.cur_pos();
        match self.expect(TokenKind::LBrace) {
            Err(e) => {
                return Err(e);
            },
            Ok(_) => {},
        }
        let mut depth: usize = 0;
        loop
            invariant
                kept(*old(self), *self),
                old(self).pos < self.pos,
                depth <= self.pos,
                block_end(old(self).toks(), old(self).pos + 1, 0) == block_end(
                    self.toks(),
                    self.pos as int,
                    depth as nat,
                ),
                start == cur_lo(old(self).toks(), old(self).pos as int),
                kind_at(old(self).toks(), old(self).pos as int) == Some(TokenKind::LBrace),
            decreases self.tokens.len() - self.pos,
        {
            if self.pos >= self.tokens.len() {
                return Err(self.unexpected());
            }
            match &self.tokens[self.pos].token {
                Token::Error(e) => {
                    return Err(*e);
                },
                Token::LBrace | Token::DollarLBrace => {
                    depth = depth + 1;
                    self.pos = self.pos + 1;
                },
                Token::RBrace => {
                    self.pos = self.pos + 1;
                    if depth == 0 {
                        return Ok(BlockStmt { span: self.span(start) });
                    }
                    depth = depth - 1;
                },
                _ => {
                    self.pos = self.pos + 1;
                },
            }
        }
    }

    /// Parses the key of a property.
    pub fn parse_prop_name(&mut self) -> (r: Result<PropName, Error>)
        requires
            old(self).wf(),
        ensures
            kept(*old(self), *final(self)),
            r is Ok ==> old(self).pos < final(self).pos,
            parsed(
                r,
                final(self).pos as int,
                prop_name(old(self).toks(), old(self).pos as int, old(self).ctx),
            ),
        decreases old(self).tokens.len() - old(self).pos, 0int,
    {
        let start = self.cur_pos();
        match self.cur() {
            Some(Token::Str { value, has_escape }) => {
                let value = value.clone();
                let has_escape = *has_escape;
                self.bump();
                Ok(PropName::Str(Str { span: self.span(start), value, has_escape }))
            },
            Some(Token::Num(n)) => {
                let value = Number { kind: n.kind, raw: n.raw.clone() };
                self.bump();
                Ok(PropName::Num(NumberLit { span: self.span(start), value }))
            },
            Some(Token::Word(w)) => {
                let sym = word_string(w);
                self.bump();
                Ok(PropName::Ident(Ident { span: self.span(start), sym }))
            },
            Some(Token::LBracket) => {
                self.bump();
                match self.parse_value() {
                    Ok(e) => match self.expect(TokenKind::RBracket) {
                        Ok(_) => Ok(PropName::Computed(Box::new(e))),
                        Err(err) => Err(err),
                    },
                    Err(err) => Err(err),
                }
            },
            _ => Err(self.unexpected()),
        }
    }

    /// Parses an expression in which the operator `in` may stand, and
    /// restores the rules that held before.
    pub fn parse_value(&mut self) -> (r: Result<Expr, Error>)
        requires
            old(self).wf(),
        ensures
            kept(*old(self), *final(self)),
            r is Ok ==> old(self).pos < final(self).pos,
            parsed(
                r,
                final(self).pos as int,
                assignment_expr(old(self).toks(), old(self).pos as int, with_in(old(self).ctx)),
            ),
        decreases old(self).tokens.len() - old(self).pos, 2int,
    {
        let saved = self.ctx;
        self.ctx.include_in_expr = true;
        let r = self.parse_assignment_expr();
        self.ctx = saved;
        r
    }

    /// Parses an expression.
    pub fn parse_assignment_expr(&mut self) -> (r: Result<Expr, Error>)
        requires
            old(self).wf(),
        ensures
            kept(*old(self), *final(self)),
            r is Ok ==> old(self).pos < final(self).pos,
            parsed(
                r,
                final(self).pos as int,
                assignment_expr(old(self).toks(), old(self).pos as int, old(self).ctx),
            ),
        decreases old(self).tokens.len() - old(self).pos, 1int,
    {
        let start = self.cur_pos();
        match self.cur() {
            Some(Token::Word(Word::True)) => {
                self.bump();
                Ok(Expr::Bool { span: self.span(start), value: true })
            },
            Some(Token::Word(Word::False)) => {
                self.bump();
                Ok(Expr::Bool { span: self.span(start), value: false })
            },
            Some(Token::Word(Word::Null)) => {
                self.bump();
                Ok(Expr::Null { span: self.span(start) })
            },
            Some(Token::Word(Word::Keyword(Keyword::This))) => {
                self.bump();
                Ok(Expr::This { span: self.span(start) })
            },
            Some(Token::Word(w)) => {
                let sym = word_string(w);
                if self.is_reserved(&sym) {
                    Err(self.unexpected())
                } else {
                    self.bump();
                    Ok(Expr::Ident(Ident { span: self.span(start), sym }))
                }
            },
            Some(Token::Str { value, has_escape }) => {
                let value = value.clone();
                let has_escape = *has_escape;
                self.bump();
                Ok(Expr::Str(Str { span: self.span(start), value, has_escape }))
            },
            Some(Token::Num(n)) => {
                let value = Number { kind: n.kind, raw: n.raw.clone() };
                self.bump();
                Ok(Expr::Num(NumberLit { span: self.span(start), value }))
            },
            Some(Token::LBrace) => match self.parse_object(Target::Expr) {
                Ok(Object::Lit(o)) => Ok(Expr::Object(o)),
                Ok(Object::Pat(_)) => {
                    assert(false);
                    Err(self.unexpected())
                },
                Err(e) => Err(e),
            },
            _ => Err(self.unexpected()),
        }
    }

    /// Parses a binding element.
    pub fn parse_binding_element(&mut self) -> (r: Result<Pat, Error>)
        requires
            old(self).wf(),
        ensures
            kept(*old(self), *final(self)),
            r is Ok ==> old(self).pos < final(self).pos,
            parsed(
                r,
                final(self).pos as int,
                binding_element(old(self).toks(), old(self).pos as int, old(self).ctx),
            ),
        decreases old(self).tokens.len() - old(self).pos, 1int,
    {
        let start = self.cur_pos();
        let left = match self.cur() {
            Some(Token::Word(w)) => {
                let sym = word_string(w);
                if self.is_reserved(&sym) {
                    return Err(self.unexpected());
                }
                self.bump();
                Pat::Ident(Ident { span: self.span(start), sym })
            },
            Some(Token::LBrace) => match self.parse_object(Target::Pat) {
                Ok(Object::Pat(o)) => Pat::Object(o),
                Ok(Object::Lit(_)) => {
                    assert(false);
                    return Err(self.unexpected());
                },
                Err(e) => {
                    return Err(e);
                },
            },
            _ => {
                return Err(self.unexpected());
            },
        };
        if self.eat(TokenKind::AssignOp(AssignOpToken::Assign)) {
            match self.parse_value() {
                Ok(right) => {
                    let span = self.span(start);
                    let ghost l = left@;
                    let ghost r = right@;
                    let pat = Pat::Assign { span, left: Box::new(left), right: Box::new(right) };
                    assert(pat@ == PatView::Assign {
                        span,
                        left: Box::new(l),
                        right: Box::new(r),
                    });
                    Ok(pat)
                },
                Err(e) => Err(e),
            }
        } else {
            Ok(left)
        }
    }

    /// Builds the object of the kind `target`.
    pub fn make_object(target: Target, span: Span, lit: Vec<Prop>, pat: Vec<ObjectPatProp>) -> (o:
        Object)
        ensures
            o@ == (match target {
                Target::Expr => ObjectView::Lit(
                    ObjectLitView { span, props: props_view(lit@) },
                ),
                Target::Pat => ObjectView::Pat(
                    ObjectPatView { span, props: pat_props_view(pat@) },
                ),
            }),
    {
        match target {
            Target::Expr => Object::Lit(ObjectLit { span, props: lit }),
            Target::Pat => Object::Pat(ObjectPat { span, props: pat }),
        }
    }

    /// Parses an object literal or an object pattern, as `target` asks.
    /// The current token must be the opening brace.
    pub fn parse_object(&mut self, target: Target) -> (r: Result<Object, Error>)
        requires
            old(self).wf(),
            kind_at(old(self).toks(), old(self).pos as int) == Some(TokenKind::LBrace),
        ensures
            kept(*old(self), *final(self)),
            r is Ok ==> old(self).pos < final(self).pos,
            parsed(
                r,
                final(self).pos as int,
                object(old(self).toks(), old(self).pos as int, old(self).ctx, target),
            ),
        decreases old(self).tokens.len() - old(self).pos, 0int,
    {
        let start = self.cur_pos();
        self.bump();
        let mut lit: Vec<Prop> = Vec::new();
        let mut pat: Vec<ObjectPatProp> = Vec::new();
        let ghost mut acc: Seq<AnyPropView> = Seq::empty();
        let ghost toks = self.toks();
        let ghost ctx = self.ctx;
        let ghost begin = old(self).pos as int;
        let mut first = true;
        proof {
            assert(props_view(lit@) == lits(acc));
            assert(pat_props_view(pat@) == pats(acc));
            assert(acc + props(toks, begin + 1, ctx, target, true)->Ok_0.0 == props(
                toks,
                begin + 1,
                ctx,
                target,
                true,
            )->Ok_0.0);
        }
        loop
            invariant
                kept(*old(self), *self),
                toks == self.toks(),
                ctx == self.ctx,
                begin == old(self).pos,
                begin < self.pos,
                start == cur_lo(toks, begin),
                kind_at(toks, begin) == Some(TokenKind::LBrace),
                props_view(lit@) == lits(acc),
                pat_props_view(pat@) == pats(acc),
                props(toks, begin + 1, ctx, target, true) == prepend(
                    acc,
                    props(toks, self.pos as int, ctx, target, first),
                ),
            decreases self.tokens.len() - self.pos,
        {
            let ghost head = self.pos as int;
            let ghost was_first = first;
            if self.eat(TokenKind::RBrace) {
                assert(acc + Seq::<AnyPropView>::empty() == acc);
                return Ok(Self::make_object(target, self.span(start), lit, pat));
            }
            if first {
                first = false;
            } else {
                match self.expect(TokenKind::Comma) {
                    Err(e) => {
                        return Err(e);
                    },
                    Ok(_) => {},
                }
                if self.eat(TokenKind::RBrace) {
                    assert(acc + Seq::<AnyPropView>::empty() == acc);
                    return Ok(Self::make_object(target, self.span(start), lit, pat));
                }
            }
            let ghost at = self.pos as int;
            match self.parse_object_prop(target) {
                Err(e) => {
                    return Err(e);
                },
                Ok(x) => {
                    proof {
                        lemma_props_step(
                            toks,
                            head,
                            ctx,
                            target,
                            was_first,
                            at,
                            x@,
                            self.pos as int,
                            acc,
                        );
                        lemma_push_prop(acc, x@);
                        acc = acc.push(x@);
                    }
                    match x {
                        AnyProp::Lit(p) => {
                            let ghost before = props_view(lit@);
                            lit.push(p);
                            assert(props_view(lit@) == before.push(p@));
                        },
                        AnyProp::Pat(p) => {
                            let ghost before = pat_props_view(pat@);
                            pat.push(p);
                            assert(pat_props_view(pat@) == before.push(p@));
                        },
                    }
                },
            }
        }
    }

    /// Parses one property, of the kind that `target` asks for.
    pub fn parse_object_prop(&mut self, target: Target) -> (r: Result<AnyProp, Error>)
        requires
            old(self).wf(),
        ensures
            kept(*old(self), *final(self)),
            r is Ok ==> old(self).pos < final(self).pos,
            parsed(
                r,
                final(self).pos as int,
                object_prop(old(self).toks(), old(self).pos as int, old(self).ctx, target),
            ),
        decreases old(self).tokens.len() - old(self).pos, 2int,
    {
        match target {
            Target::Expr => match self.parse_expr_prop() {
                Ok(p) => Ok(AnyProp::Lit(p)),
                Err(e) => Err(e),
            },
            Target::Pat => match self.parse_pat_prop() {
                Ok(p) => Ok(AnyProp::Pat(p)),
                Err(e) => Err(e),
            },
        }
    }

    /// Parses the parameters and the body of a method, and builds the
    /// property.
    fn parse_method(
        &mut self,
        start: BytePos,
        key: PropName,
        async_: Option<Span>,
        generator: Option<Span>,
    ) -> (r: Result<Prop, Error>)
        requires
            old(self).wf(),
        ensures
            kept(*old(self), *final(self)),
            r is Ok ==> old(self).pos < final(self).pos,
            parsed(
                r,
                final(self).pos as int,
                method(
                    old(self).toks(),
                    old(self).pos as int,
                    old(self).ctx,
                    start,
                    key@,
                    async_,
                    generator,
                ),
            ),
        decreases old(self).tokens.len() - old(self).pos, 1int,
    {
        match self.parse_fn_args_body(start, Params::All, async_, generator) {
            Ok(function) => Ok(Prop::Method { key, function }),
            Err(e) => Err(e),
        }
    }

    /// Parses what follows the word `get`, `set` or `async` and a key.
    fn parse_accessor(&mut self, start: BytePos, word: Ident, key: PropName) -> (r: Result<
        Prop,
        Error,
    >)
        requires
            old(self).wf(),
        ensures
            kept(*old(self), *final(self)),
            r is Ok ==> old(self).pos < final(self).pos,
            parsed(
                r,
                final(self).pos as int,
                accessor(old(self).toks(), old(self).pos as int, old(self).ctx, start, word@, key@),
            ),
        decreases old(self).tokens.len() - old(self).pos, 2int,
    {
        let chars = str_chars(word.sym.as_str());
        if text_is(&chars, "get") {
            self.parse_getter(start, key)
        } else if text_is(&chars, "set") {
            self.parse_setter(start, key)
        } else {
            self.parse_method(start, key, Some(word.span), None)
        }
    }

    /// Parses the empty parameter list and the body of a getter, and
    /// builds the property.
    fn parse_getter(&mut self, start: BytePos, key: PropName) -> (r: Result<Prop, Error>)
        requires
            old(self).wf(),
        ensures
            kept(*old(self), *final(self)),
            r is Ok ==> old(self).pos < final(self).pos,
            parsed(
                r,
                final(self).pos as int,
                getter(old(self).toks(), old(self).pos as int, old(self).ctx, start, key@),
            ),
        decreases old(self).tokens.len() - old(self).pos, 1int,
    {
        match self.parse_fn_args_body(start, Params::Zero, None, None) {
            Ok(f) => Ok(Prop::Getter { span: self.span(start), key, body: f.body }),
            Err(e) => Err(e),
        }
    }

    /// Parses the one parameter and the body of a setter, and builds the
    /// property.
    fn parse_setter(&mut self, start: BytePos, key: PropName) -> (r: Result<Prop, Error>)
        requires
            old(self).wf(),
        ensures
            kept(*old(self), *final(self)),
            r is Ok ==> old(self).pos < final(self).pos,
            parsed(
                r,
                final(self).pos as int,
                setter(old(self).toks(), old(self).pos as int, old(self).ctx, start, key@),
            ),
        decreases old(self).tokens.len() - old(self).pos, 1int,
    {
        match self.parse_fn_args_body(start, Params::One, None, None) {
            Ok(f) => {
                let body = f.body;
                let mut params = f.params;
                assert(params@.len() == 1);
                let ghost before = params@;
                let param = params.pop().unwrap();
                assert(param == before[0]);
                Ok(Prop::Setter { span: self.span(start), key, body, param })
            },
            Err(e) => Err(e),
        }
    }

    /// Parses one property of an object literal.
    pub fn parse_expr_prop(&mut self) -> (r: Result<Prop, Error>)
        requires
            old(self).wf(),
        ensures
            kept(*old(self), *final(self)),
            r is Ok ==> old(self).pos < final(self).pos,
            parsed(
                r,
                final(self).pos as int,
                expr_prop(old(self).toks(), old(self).pos as int, old(self).ctx),
            ),
        decreases old(self).tokens.len() - old(self).pos, 1int,
    {
        let start = self.cur_pos();
        if self.eat(TokenKind::BinOp(BinOpToken::Mul)) {
            let span_of_gen = self.span(start);
            return match self.parse_prop_name() {
                Ok(name) => self.parse_method(start, name, None, Some(span_of_gen)),
                Err(e) => Err(e),
            };
        }
        let key = match self.parse_prop_name() {
            Ok(key) => key,
            Err(e) => {
                return Err(e);
            },
        };
        if self.eat(TokenKind::Colon) {
            return match self.parse_value() {
                Ok(value) => Ok(Prop::KeyValue { key, value: Box::new(value) }),
                Err(e) => Err(e),
            };
        }
        if self.is(TokenKind::LParen) {
            return self.parse_method(start, key, None, None);
        }
        let ident = match key {
            PropName::Ident(ident) => ident,
            _ => {
                return Err(self.unexpected());
            },
        };
        if self.is(TokenKind::AssignOp(AssignOpToken::Assign)) || self.is(TokenKind::Comma)
            || self.is(TokenKind::RBrace) {
            if self.is_reserved(&ident.sym) {
                return Err(
                    Error { span: ident.span, error: SyntaxError::ReservedWordInObjShorthandOrPat },
                );
            }
            if self.eat(TokenKind::AssignOp(AssignOpToken::Assign)) {
                return match self.parse_value() {
                    Ok(value) => Ok(Prop::Assign { key: ident, value: Box::new(value) }),
                    Err(e) => Err(e),
                };
            }
            return Ok(Prop::Shorthand(ident));
        }
        let chars = str_chars(ident.sym.as_str());
        if text_is(&chars, "get") || text_is(&chars, "set") || text_is(&chars, "async") {
            match self.parse_prop_name() {
                Ok(key) => self.parse_accessor(start, ident, key),
                Err(e) => Err(e),
            }
        } else {
            Err(self.unexpected())
        }
    }

    /// Parses one property of an object pattern.
    pub fn parse_pat_prop(&mut self) -> (r: Result<ObjectPatProp, Error>)
        requires
            old(self).wf(),
        ensures
            kept(*old(self), *final(self)),
            r is Ok ==> old(self).pos < final(self).pos,
            parsed(
                r,
                final(self).pos as int,
                pat_prop(old(self).toks(), old(self).pos as int, old(self).ctx),
            ),
        decreases old(self).tokens.len() - old(self).pos, 1int,
    {
        let start = self.cur_pos();
        let key = match self.parse_prop_name() {
            Ok(key) => key,
            Err(e) => {
                return Err(e);
            },
        };
        if self.eat(TokenKind::Colon) {
            return match self.parse_binding_element() {
                Ok(value) => Ok(ObjectPatProp::KeyValue { key, value: Box::new(value) }),
                Err(e) => Err(e),
            };
        }
        let key = match key {
            PropName::Ident(ident) => ident,
            _ => {
                return Err(self.unexpected());
            },
        };
        let value = if self.eat(TokenKind::AssignOp(AssignOpToken::Assign)) {
            match self.parse_value() {
                Ok(v) => Some(Box::new(v)),
                Err(e) => {
                    return Err(e);
                },
            }
        } else {
            if self.is_reserved(&key.sym) {
                return Err(
                    Error { span: key.span, error: SyntaxError::ReservedWordInObjShorthandOrPat },
                );
            }
            None
        };
        Ok(ObjectPatProp::Assign { span: self.span(start), key, value })
    }

    /// Parses the parameters and the body of a function, under the rules
    /// of its inside, and restores the rules that held before.
    pub fn parse_fn_args_body(
        &mut self,
        start: BytePos,
        params: Params,
        async_: Option<Span>,
        generator: Option<Span>,
    ) -> (r: Result<Function, Error>)
        requires
            old(self).wf(),
        ensures
            kept(*old(self), *final(self)),
            r is Ok ==> old(self).pos < final(self).pos,
            parsed(
                r,
                final(self).pos as int,
                fn_args_body(
                    old(self).toks(),
                    old(self).pos as int,
                    old(self).ctx,
                    start,
                    params,
                    async_,
                    generator,
                ),
            ),
        decreases old(self).tokens.len() - old(self).pos, 0int,
    {
        let saved = self.ctx;
        match self.expect(TokenKind::LParen) {
            Err(e) => {
                return Err(e);
            },
            Ok(_) => {},
        }
        self.ctx.in_async = async_.is_some();
        self.ctx.in_generator = generator.is_some();
        let ps = self.parse_fn_params(params);
        self.ctx = saved;
        let ps = match ps {
            Ok(ps) => ps,
            Err(e) => {
                return Err(e);
            },
        };
        match self.expect(TokenKind::RParen) {
            Err(e) => {
                return Err(e);
            },
            Ok(_) => {},
        }
        match self.parse_fn_body() {
            Ok(body) => Ok(
                Function {
                    params: ps,
                    span: self.span(start),
                    body,
                    is_generator: generator.is_some(),
                    async_,
                },
            ),
            Err(e) => Err(e),
        }
    }

    /// Parses the parameters that `params` asks for.
    pub fn parse_fn_params(&mut self, params: Params) -> (r: Result<Vec<Pat>, Error>)
        requires
            old(self).wf(),
        ensures
            kept(*old(self), *final(self)),
            match fn_params(old(self).toks(), old(self).pos as int, old(self).ctx, params) {
                Ok((v, p)) => r is Ok && pats_view(r->Ok_0@) == v && final(self).pos == p,
                Err(e) => r is Err && r->Err_0 == e,
            },
        decreases old(self).tokens.len() - old(self).pos, 3int,
    {
        match params {
            Params::Zero => {
                let v: Vec<Pat> = Vec::new();
                assert(pats_view(v@) == Seq::<PatView>::empty());
                Ok(v)
            },
            Params::One => match self.parse_binding_element() {
                Ok(p) => {
                    let mut v: Vec<Pat> = Vec::new();
                    v.push(p);
                    assert(pats_view(v@) == seq![p@]);
                    Ok(v)
                },
                Err(e) => Err(e),
            },
            Params::All => self.parse_formal_params(),
        }
    }

    /// Parses the parameters of a function, up to but without the closing
    /// parenthesis.
    pub fn parse_formal_params(&mut self) -> (r: Result<Vec<Pat>, Error>)
        requires
            old(self).wf(),
        ensures
            kept(*old(self), *final(self)),
            match formal_params(old(self).toks(), old(self).pos as int, old(self).ctx, true) {
                Ok((v, p)) => r is Ok && pats_view(r->Ok_0@) == v && final(self).pos == p,
                Err(e) => r is Err && r->Err_0 == e,
            },
        decreases old(self).tokens.len() - old(self).pos, 2int,
    {
        let mut v: Vec<Pat> = Vec::new();
        let ghost toks = self.toks();
        let ghost ctx = self.ctx;
        let ghost begin = old(self).pos as int;
        let mut first = true;
        proof {
            assert(pats_view(v@) == Seq::<PatView>::empty());
            assert(Seq::<PatView>::empty() + formal_params(toks, begin, ctx, true)->Ok_0.0
                == formal_params(toks, begin, ctx, true)->Ok_0.0);
        }
        loop
            invariant
                kept(*old(self), *self),
                toks == self.toks(),
                ctx == self.ctx,
                begin == old(self).pos,
                formal_params(toks, begin, ctx, true) == prepend(
                    pats_view(v@),
                    formal_params(toks, self.pos as int, ctx, first),
                ),
            decreases self.tokens.len() - self.pos,
        {
            let ghost acc = pats_view(v@);
            let ghost head = self.pos as int;
            let ghost was_first = first;
            if self.is(TokenKind::RParen) {
                assert(acc + Seq::<PatView>::empty() == acc);
                return Ok(v);
            }
            if first {
                first = false;
            } else {
                match self.expect(TokenKind::Comma) {
                    Err(e) => {
                        return Err(e);
                    },
                    Ok(_) => {},
                }
                if self.is(TokenKind::RParen) {
                    assert(acc + Seq::<PatView>::empty() == acc);
                    return Ok(v);
                }
            }
            let ghost at = self.pos as int;
            match self.parse_binding_element() {
                Err(e) => {
                    return Err(e);
                },
                Ok(x) => {
                    proof {
                        lemma_params_step(
                            toks,
                            head,
                            ctx,
                            was_first,
                            at,
                            x@,
                            self.pos as int,
                            acc,
                        );
                    }
                    v.push(x);
                    assert(pats_view(v@) == acc.push(x@));
                },
            }
        }
    }
}

} // verus!
