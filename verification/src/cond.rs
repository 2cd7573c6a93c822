//! The filter-expression language: literals and the typed expression tree.

use vstd::prelude::*;

use crate::value::Num;

verus! {

/// A half-open range of character positions in the source text, kept on each
/// node for diagnostics.
#[derive(Clone, Copy, Debug, PartialEq, Eq, Structural)]
pub struct Span {
    pub start: usize,
    pub end: usize,
}

/// A comparison operator of the filter language.
#[derive(Clone, Copy, Debug, PartialEq, Eq, Structural)]
pub enum Compare {
    Eq,
    Ne,
    Gt,
    Gte,
    Lt,
    Lte,
}

/// A literal operand of a comparison: text, number, boolean, a parenthesised
/// list, a `len(field)` reference, or null.
#[derive(Debug)]
pub enum Value {
    Text(String),
    Number(Num),
    Bool(bool),
    List(Vec<Value>),
    Len(String),
    Null,
}

/// A parsed filter expression.
#[derive(Debug)]
pub enum Expr {
    And { span: Span, lhs: Box<Expr>, rhs: Box<Expr> },
    Or { span: Span, lhs: Box<Expr>, rhs: Box<Expr> },
    Eq { span: Span, field: String, value: Value },
    Ne { span: Span, field: String, value: Value },
    Gt { span: Span, field: String, value: Value },
    Gte { span: Span, field: String, value: Value },
    Lt { span: Span, field: String, value: Value },
    Lte { span: Span, field: String, value: Value },
    Like { span: Span, field: String, value: Value },
    NotLike { span: Span, field: String, value: Value },
    In { span: Span, field: String, value: Value },
    NotIn { span: Span, field: String, value: Value },
    IsNull { span: Span, field: String },
    IsNotNull { span: Span, field: String },
    Len { span: Span, field: String, cmp: Compare, value: Value },
    Belong { span: Span, field: String, value: Value },
    NoBelong { span: Span, field: String, value: Value },
}

/// The mathematical shape of a [`Value`].
pub enum ValueView {
    Text(Seq<char>),
    Number(Num),
    Bool(bool),
    List(Seq<ValueView>),
    Len(Seq<char>),
    Null,
}

/// The mathematical shape of an [`Expr`].
pub enum ExprView {
    And { span: Span, lhs: Box<ExprView>, rhs: Box<ExprView> },
    Or { span: Span, lhs: Box<ExprView>, rhs: Box<ExprView> },
    Eq { span: Span, field: Seq<char>, value: ValueView },
    Ne { span: Span, field: Seq<char>, value: ValueView },
    Gt { span: Span, field: Seq<char>, value: ValueView },
    Gte { span: Span, field: Seq<char>, value: ValueView },
    Lt { span: Span, field: Seq<char>, value: ValueView },
    Lte { span: Span, field: Seq<char>, value: ValueView },
    Like { span: Span, field: Seq<char>, value: ValueView },
    NotLike { span: Span, field: Seq<char>, value: ValueView },
    In { span: Span, field: Seq<char>, value: ValueView },
    NotIn { span: Span, field: Seq<char>, value: ValueView },
    IsNull { span: Span, field: Seq<char> },
    IsNotNull { span: Span, field: Seq<char> },
    Len { span: Span, field: Seq<char>, cmp: Compare, value: ValueView },
    Belong { span: Span, field: Seq<char>, value: ValueView },
    NoBelong { span: Span, field: Seq<char>, value: ValueView },
}

/// The model of a literal; see [`ValueView`].
pub open spec fn value_view(v: Value) -> ValueView
    decreases v,
{
    match v {
        Value::Text(s) => ValueView::Text(s@),
        Value::Number(n) => ValueView::Number(n),
        Value::Bool(b) => ValueView::Bool(b),
        Value::List(items) => ValueView::List(values_view(items@)),
        Value::Len(f) => ValueView::Len(f@),
        Value::Null => ValueView::Null,
    }
}

/// The models of a sequence of literals, element by element.
pub open spec fn values_view(s: Seq<Value>) -> Seq<ValueView>
    decreases s,
{
    if s.len() == 0 {
        Seq::empty()
    } else {
        seq![value_view(s[0])] + values_view(s.subrange(1, s.len() as int))
    }
}

/// Element `i` of `values_view(s)` is the model of element `i` of `s`.
pub proof fn lemma_values_view(s: Seq<Value>)
    ensures
        values_view(s).len() == s.len(),
        forall|i: int| 0 <= i < s.len() ==> values_view(s)[i] == value_view(s[i]),
    decreases s,
{
    if s.len() > 0 {
        lemma_values_view(s.subrange(1, s.len() as int));
    }
}

impl View for Value {
    type V = ValueView;

    open spec fn view(&self) -> ValueView {
        value_view(*self)
    }
}

/// The model of an expression; see [`ExprView`].
pub open spec fn expr_view(e: Expr) -> ExprView
    decreases e,
{
    match e {
        Expr::And { span, lhs, rhs } => ExprView::And {
            span,
            lhs: Box::new(expr_view(*lhs)),
            rhs: Box::new(expr_view(*rhs)),
        },
        Expr::Or { span, lhs, rhs } => ExprView::Or {
            span,
            lhs: Box::new(expr_view(*lhs)),
            rhs: Box::new(expr_view(*rhs)),
        },
        Expr::Eq { span, field, value } => ExprView::Eq { span, field: field@, value: value@ },
        Expr::Ne { span, field, value } => ExprView::Ne { span, field: field@, value: value@ },
        Expr::Gt { span, field, value } => ExprView::Gt { span, field: field@, value: value@ },
        Expr::Gte { span, field, value } => ExprView::Gte { span, field: field@, value: value@ },
        Expr::Lt { span, field, value } => ExprView::Lt { span, field: field@, value: value@ },
        Expr::Lte { span, field, value } => ExprView::Lte { span, field: field@, value: value@ },
        Expr::Like { span, field, value } => ExprView::Like { span, field: field@, value: value@ },
        Expr::NotLike { span, field, value } => ExprView::NotLike {
            span,
            field: field@,
            value: value@,
        },
        Expr::In { span, field, value } => ExprView::In { span, field: field@, value: value@ },
        Expr::NotIn { span, field, value } => ExprView::NotIn {
            span,
            field: field@,
            value: value@,
        },
        Expr::IsNull { span, field } => ExprView::IsNull { span, field: field@ },
        Expr::IsNotNull { span, field } => ExprView::IsNotNull { span, field: field@ },
        Expr::Len { span, field, cmp, value } => ExprView::Len {
            span,
            field: field@,
            cmp,
            value: value@,
        },
        Expr::Belong { span, field, value } => ExprView::Belong {
            span,
            field: field@,
            value: value@,
        },
        Expr::NoBelong { span, field, value } => ExprView::NoBelong {
            span,
            field: field@,
            value: value@,
        },
    }
}

impl View for Expr {
    type V = ExprView;

    open spec fn view(&self) -> ExprView {
        expr_view(*self)
    }
}

} // verus!

verus! {

/// Appending a literal commutes with taking the models.
pub proof fn lemma_values_view_push(s: Seq<Value>, v: Value)
    ensures
        values_view(s.push(v)) == values_view(s).push(value_view(v)),
{
    lemma_values_view(s.push(v));
    lemma_values_view(s);
    assert(values_view(s.push(v)) =~= values_view(s).push(value_view(v)));
}

} // verus!
