//! The syntax tree of object literals and object patterns.

use crate::span::Span;
use crate::token::{Number, NumberView, Str, StrView};
use vstd::prelude::*;

verus! {

/// An identifier with its place.
#[derive(Clone, Debug, PartialEq, Eq)]
pub struct Ident {
    pub span: Span,
    pub sym: String,
}

/// A numeric literal with its place.
#[derive(Clone, Debug, PartialEq, Eq)]
pub struct NumberLit {
    pub span: Span,
    pub value: Number,
}

/// The body of a function. Its statements are not read: the body is found
/// by matching its braces.
#[derive(Clone, Copy, Debug, PartialEq, Eq, Structural)]
pub struct BlockStmt {
    pub span: Span,
}

/// A function without its name: parameters and body.
#[derive(Debug, PartialEq, Eq)]
pub struct Function {
    pub params: Vec<Pat>,
    pub span: Span,
    pub body: BlockStmt,
    pub is_generator: bool,
    /// The place of the word `async`, if the function is asynchronous.
    pub async_: Option<Span>,
}

/// The key of a property.
#[derive(Debug, PartialEq, Eq)]
pub enum PropName {
    Ident(Ident),
    Str(Str),
    Num(NumberLit),
    Computed(Box<Expr>),
}

/// A property of an object literal.
#[derive(Debug, PartialEq, Eq)]
#[allow(inconsistent_fields)]
pub enum Prop {
    /// `a`
    Shorthand(Ident),
    /// `key: value`
    KeyValue { key: PropName, value: Box<Expr> },
    /// `a = value`, which is legal only where the literal is later taken
    /// for a pattern.
    Assign { key: Ident, value: Box<Expr> },
    /// `get key() { .. }`
    Getter { span: Span, key: PropName, body: BlockStmt },
    /// `set key(param) { .. }`
    Setter { span: Span, key: PropName, body: BlockStmt, param: Pat },
    /// `key(..) { .. }`, with `*` or `async` before it or without.
    Method { key: PropName, function: Function },
}

/// An object literal.
#[derive(Debug, PartialEq, Eq)]
pub struct ObjectLit {
    pub span: Span,
    pub props: Vec<Prop>,
}

/// A property of an object pattern.
#[derive(Debug, PartialEq, Eq)]
#[allow(inconsistent_fields)]
pub enum ObjectPatProp {
    /// `key: pattern`
    KeyValue { key: PropName, value: Box<Pat> },
    /// `a` or `a = default`
    Assign { span: Span, key: Ident, value: Option<Box<Expr>> },
}

/// An object pattern.
#[derive(Debug, PartialEq, Eq)]
pub struct ObjectPat {
    pub span: Span,
    pub props: Vec<ObjectPatProp>,
}

/// An expression: a name, a literal, or an object literal.
#[derive(Debug, PartialEq, Eq)]
pub enum Expr {
    Ident(Ident),
    Str(Str),
    Num(NumberLit),
    Bool { span: Span, value: bool },
    Null { span: Span },
    This { span: Span },
    Object(ObjectLit),
}

/// A binding pattern.
#[derive(Debug, PartialEq, Eq)]
pub enum Pat {
    Ident(Ident),
    Object(ObjectPat),
    /// `left = right`
    Assign { span: Span, left: Box<Pat>, right: Box<Expr> },
}

/// The mathematical value of an [`Ident`].
pub struct IdentView {
    pub span: Span,
    pub sym: Seq<char>,
}

/// The mathematical value of a [`NumberLit`].
pub struct NumberLitView {
    pub span: Span,
    pub value: NumberView,
}

/// The mathematical value of a [`Function`].
pub struct FunctionView {
    pub params: Seq<PatView>,
    pub span: Span,
    pub body: BlockStmt,
    pub is_generator: bool,
    pub async_: Option<Span>,
}

/// The mathematical value of a [`PropName`].
pub enum PropNameView {
    Ident(IdentView),
    Str(StrView),
    Num(NumberLitView),
    Computed(Box<ExprView>),
}

/// The mathematical value of a [`Prop`].
#[allow(inconsistent_fields)]
pub enum PropView {
    Shorthand(IdentView),
    KeyValue { key: PropNameView, value: Box<ExprView> },
    Assign { key: IdentView, value: Box<ExprView> },
    Getter { span: Span, key: PropNameView, body: BlockStmt },
    Setter { span: Span, key: PropNameView, body: BlockStmt, param: PatView },
    Method { key: PropNameView, function: FunctionView },
}

/// The mathematical value of an [`ObjectLit`].
pub struct ObjectLitView {
    pub span: Span,
    pub props: Seq<PropView>,
}

/// The mathematical value of an [`ObjectPatProp`].
#[allow(inconsistent_fields)]
pub enum ObjectPatPropView {
    KeyValue { key: PropNameView, value: Box<PatView> },
    Assign { span: Span, key: IdentView, value: Option<Box<ExprView>> },
}

/// The mathematical value of an [`ObjectPat`].
pub struct ObjectPatView {
    pub span: Span,
    pub props: Seq<ObjectPatPropView>,
}

/// The mathematical value of an [`Expr`].
pub enum ExprView {
    Ident(IdentView),
    Str(StrView),
    Num(NumberLitView),
    Bool { span: Span, value: bool },
    Null { span: Span },
    This { span: Span },
    Object(ObjectLitView),
}

/// The mathematical value of a [`Pat`].
pub enum PatView {
    Ident(IdentView),
    Object(ObjectPatView),
    Assign { span: Span, left: Box<PatView>, right: Box<ExprView> },
}

impl View for Ident {
    type V = IdentView;

    open spec fn view(&self) -> IdentView {
        IdentView { span: self.span, sym: self.sym@ }
    }
}

impl View for NumberLit {
    type V = NumberLitView;

    open spec fn view(&self) -> NumberLitView {
        NumberLitView { span: self.span, value: self.value@ }
    }
}

/// The values of a run of patterns, one for one.
pub open spec fn pats_view(v: Seq<Pat>) -> Seq<PatView>
    decreases v,
{
    Seq::new(
        v.len(),
        |i: int|
            if 0 <= i < v.len() {
                pat_view(v[i])
            } else {
                arbitrary()
            },
    )
}

/// The values of a run of properties, one for one.
pub open spec fn props_view(v: Seq<Prop>) -> Seq<PropView>
    decreases v,
{
    Seq::new(
        v.len(),
        |i: int|
            if 0 <= i < v.len() {
                prop_view(v[i])
            } else {
                arbitrary()
            },
    )
}

/// The values of a run of pattern properties, one for one.
pub open spec fn pat_props_view(v: Seq<ObjectPatProp>) -> Seq<ObjectPatPropView>
    decreases v,
{
    Seq::new(
        v.len(),
        |i: int|
            if 0 <= i < v.len() {
                pat_prop_view(v[i])
            } else {
                arbitrary()
            },
    )
}

/// The value of a function.
pub open spec fn function_view(f: Function) -> FunctionView
    decreases f,
{
    FunctionView {
        params: pats_view(f.params@),
        span: f.span,
        body: f.body,
        is_generator: f.is_generator,
        async_: f.async_,
    }
}

/// The value of a property's key.
pub open spec fn prop_name_view(n: PropName) -> PropNameView
    decreases n,
{
    match n {
        PropName::Ident(i) => PropNameView::Ident(i@),
        PropName::Str(s) => PropNameView::Str(s@),
        PropName::Num(n) => PropNameView::Num(n@),
        PropName::Computed(e) => PropNameView::Computed(Box::new(expr_view(*e))),
    }
}

/// The value of a property of an object literal.
pub open spec fn prop_view(p: Prop) -> PropView
    decreases p,
{
    match p {
        Prop::Shorthand(i) => PropView::Shorthand(i@),
        Prop::KeyValue { key, value } => PropView::KeyValue {
            key: prop_name_view(key),
            value: Box::new(expr_view(*value)),
        },
        Prop::Assign { key, value } => PropView::Assign {
            key: key@,
            value: Box::new(expr_view(*value)),
        },
        Prop::Getter { span, key, body } => PropView::Getter {
            span,
            key: prop_name_view(key),
            body,
        },
        Prop::Setter { span, key, body, param } => PropView::Setter {
            span,
            key: prop_name_view(key),
            body,
            param: pat_view(param),
        },
        Prop::Method { key, function } => PropView::Method {
            key: prop_name_view(key),
            function: function_view(function),
        },
    }
}

/// The value of an object literal.
pub open spec fn object_lit_view(o: ObjectLit) -> ObjectLitView
    decreases o,
{
    ObjectLitView { span: o.span, props: props_view(o.props@) }
}

/// The value of a property of an object pattern.
pub open spec fn pat_prop_view(p: ObjectPatProp) -> ObjectPatPropView
    decreases p,
{
    match p {
        ObjectPatProp::KeyValue { key, value } => ObjectPatPropView::KeyValue {
            key: prop_name_view(key),
            value: Box::new(pat_view(*value)),
        },
        ObjectPatProp::Assign { span, key, value } => ObjectPatPropView::Assign {
            span,
            key: key@,
            value: match value {
                Some(e) => Some(Box::new(expr_view(*e))),
                None => None,
            },
        },
    }
}

/// The value of an object pattern.
pub open spec fn object_pat_view(o: ObjectPat) -> ObjectPatView
    decreases o,
{
    ObjectPatView { span: o.span, props: pat_props_view(o.props@) }
}

/// The value of an expression.
pub open spec fn expr_view(e: Expr) -> ExprView
    decreases e,
{
    match e {
        Expr::Ident(i) => ExprView::Ident(i@),
        Expr::Str(s) => ExprView::Str(s@),
        Expr::Num(n) => ExprView::Num(n@),
        Expr::Bool { span, value } => ExprView::Bool { span, value },
        Expr::Null { span } => ExprView::Null { span },
        Expr::This { span } => ExprView::This { span },
        Expr::Object(o) => ExprView::Object(object_lit_view(o)),
    }
}

/// The value of a binding pattern.
pub open spec fn pat_view(p: Pat) -> PatView
    decreases p,
{
    match p {
        Pat::Ident(i) => PatView::Ident(i@),
        Pat::Object(o) => PatView::Object(object_pat_view(o)),
        Pat::Assign { span, left, right } => PatView::Assign {
            span,
            left: Box::new(pat_view(*left)),
            right: Box::new(expr_view(*right)),
        },
    }
}

impl View for Function {
    type V = FunctionView;

    open spec fn view(&self) -> FunctionView {
        function_view(*self)
    }
}

impl View for PropName {
    type V = PropNameView;

    open spec fn view(&self) -> PropNameView {
        prop_name_view(*self)
    }
}

impl View for Prop {
    type V = PropView;

    open spec fn view(&self) -> PropView {
        prop_view(*self)
    }
}

impl View for ObjectLit {
    type V = ObjectLitView;

    open spec fn view(&self) -> ObjectLitView {
        object_lit_view(*self)
    }
}

impl View for ObjectPatProp {
    type V = ObjectPatPropView;

    open spec fn view(&self) -> ObjectPatPropView {
        pat_prop_view(*self)
    }
}

impl View for ObjectPat {
    type V = ObjectPatView;

    open spec fn view(&self) -> ObjectPatView {
        object_pat_view(*self)
    }
}

impl View for Expr {
    type V = ExprView;

    open spec fn view(&self) -> ExprView {
        expr_view(*self)
    }
}

impl View for Pat {
    type V = PatView;

    open spec fn view(&self) -> PatView {
        pat_view(*self)
    }
}

} // verus!
