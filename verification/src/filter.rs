//! The filter compiler: turns a parsed expression into the document
//! database's native query document.

use vstd::prelude::*;

use crate::cond::{lemma_values_view, values_view, Compare, Expr, ExprView, Value, ValueView};
use crate::condition::{Condition, Filter};
use crate::parse::yacc_parse;
use crate::time::{datetime_secs, is_datetime};
use crate::value::Num;

verus! {

/// The operators the compiler knows, by the backend's names.
#[derive(Clone, Copy, Debug, PartialEq, Eq, Structural)]
pub enum MongoOp {
    Eq,
    Gt,
    Gte,
    Lt,
    Lte,
    Ne,
    Like,
    NotLike,
    In,
    NotIn,
}

/// A literal of the query document: a string, a number, a boolean, an
/// object identifier (24 hexadecimal digits), a UTC timestamp in
/// milliseconds, or null.
#[derive(Debug)]
pub enum QVal {
    S(String),
    N(Num),
    B(bool),
    Oid(String),
    Date(i64),
    Null,
}

/// The model of a [`QVal`].
pub enum QValView {
    S(Seq<char>),
    N(Num),
    B(bool),
    Oid(Seq<char>),
    Date(i64),
    Null,
}

/// The model of a query literal.
pub open spec fn qval_view(v: QVal) -> QValView {
    match v {
        QVal::S(s) => QValView::S(s@),
        QVal::N(n) => QValView::N(n),
        QVal::B(b) => QValView::B(b),
        QVal::Oid(s) => QValView::Oid(s@),
        QVal::Date(t) => QValView::Date(t),
        QVal::Null => QValView::Null,
    }
}

impl View for QVal {
    type V = QValView;

    open spec fn view(&self) -> QValView {
        qval_view(*self)
    }
}

/// A query document: the backend-native form of a filter.
#[derive(Debug)]
pub enum QExpr {
    Empty,
    And(Vec<QExpr>),
    Or(Vec<QExpr>),
    Cmp { field: String, op: Compare, value: QVal },
    InList { field: String, neg: bool, values: Vec<QVal> },
    Regex { field: String, pattern: String },
}

/// The model of a [`QExpr`].
pub enum QExprView {
    Empty,
    And(Seq<QExprView>),
    Or(Seq<QExprView>),
    Cmp { field: Seq<char>, op: Compare, value: QValView },
    InList { field: Seq<char>, neg: bool, values: Seq<QValView> },
    Regex { field: Seq<char>, pattern: Seq<char> },
}

/// The model of a query document.
pub open spec fn qexpr_view(q: QExpr) -> QExprView
    decreases q,
{
    match q {
        QExpr::Empty => QExprView::Empty,
        QExpr::And(items) => QExprView::And(qexprs_view(items@)),
        QExpr::Or(items) => QExprView::Or(qexprs_view(items@)),
        QExpr::Cmp { field, op, value } => QExprView::Cmp { field: field@, op, value: value@ },
        QExpr::InList { field, neg, values } => QExprView::InList {
            field: field@,
            neg,
            values: qvals_view(values@),
        },
        QExpr::Regex { field, pattern } => QExprView::Regex {
            field: field@,
            pattern: pattern@,
        },
    }
}

/// The models of a sequence of query documents.
pub open spec fn qexprs_view(s: Seq<QExpr>) -> Seq<QExprView>
    decreases s,
{
    if s.len() == 0 {
        Seq::empty()
    } else {
        seq![qexpr_view(s[0])] + qexprs_view(s.subrange(1, s.len() as int))
    }
}

/// The models of a sequence of query literals.
pub open spec fn qvals_view(s: Seq<QVal>) -> Seq<QValView>
    decreases s,
{
    if s.len() == 0 {
        Seq::empty()
    } else {
        seq![s[0]@] + qvals_view(s.subrange(1, s.len() as int))
    }
}

/// Element `i` of `qvals_view(s)` is the model of element `i` of `s`.
pub proof fn lemma_qvals_view(s: Seq<QVal>)
    ensures
        qvals_view(s).len() == s.len(),
        forall|i: int| 0 <= i < s.len() ==> qvals_view(s)[i] == s[i]@,
    decreases s,
{
    if s.len() > 0 {
        lemma_qvals_view(s.subrange(1, s.len() as int));
    }
}

impl View for QExpr {
    type V = QExprView;

    open spec fn view(&self) -> QExprView {
        qexpr_view(*self)
    }
}

/// Element `i` of `qexprs_view(s)` is the model of element `i` of `s`.
pub proof fn lemma_qexprs_view(s: Seq<QExpr>)
    ensures
        qexprs_view(s).len() == s.len(),
        forall|i: int| 0 <= i < s.len() ==> qexprs_view(s)[i] == qexpr_view(s[i]),
    decreases s,
{
    if s.len() > 0 {
        lemma_qexprs_view(s.subrange(1, s.len() as int));
    }
}

/// A hexadecimal digit.
pub open spec fn is_hex(c: char) -> bool {
    ('0' <= c && c <= '9') || ('a' <= c && c <= 'f') || ('A' <= c && c <= 'F')
}

/// A well-formed object identifier text: exactly twenty-four hexadecimal
/// digits.
pub open spec fn oid_ok(s: Seq<char>) -> bool {
    s.len() == 24 && (forall|i: int| 0 <= i < 24 ==> is_hex(#[trigger] s[i]))
}

/// The reserved identifier field name.
pub open spec fn id_field() -> Seq<char> {
    seq!['_', 'i', 'd']
}

/// Whether the text is written `ISODate(...)`.
pub open spec fn isodate_shape(s: Seq<char>) -> bool {
    s.len() >= 9 && s.subrange(0, 8) == seq!['I', 'S', 'O', 'D', 'a', 't', 'e', '('] && s[s.len()
        - 1] == ')'
}

/// The text between `ISODate(` and the final `)`.
pub open spec fn isodate_inner(s: Seq<char>) -> Seq<char> {
    s.subrange(8, s.len() - 1)
}

/// What a text literal compiles to: an object identifier when identifier
/// coercion applies, a UTC timestamp for an `ISODate(...)` text, otherwise
/// the string itself; `None` when the identifier or the date is malformed.
pub open spec fn spec_text_qval(t: Seq<char>, convert: bool, field: Seq<char>) -> Option<
    QValView,
> {
    if convert && field == id_field() {
        if oid_ok(t) {
            Some(QValView::Oid(t))
        } else {
            None
        }
    } else if isodate_shape(t) {
        if is_datetime(isodate_inner(t)) {
            Some(QValView::Date((datetime_secs(isodate_inner(t)) * 1000) as i64))
        } else {
            None
        }
    } else {
        Some(QValView::S(t))
    }
}

/// What a comparison's literal compiles to; lists, `len` references and
/// null are refused here.
pub open spec fn spec_cmp_qval(v: ValueView, convert: bool, field: Seq<char>) -> Option<QValView> {
    match v {
        ValueView::Text(t) => spec_text_qval(t, convert, field),
        ValueView::Number(n) => Some(QValView::N(n)),
        ValueView::Bool(b) => Some(QValView::B(b)),
        _ => None,
    }
}

/// The four buckets a list's elements are collected into: object
/// identifiers, strings, numbers and timestamps, in list order.
pub open spec fn spec_buckets(vs: Seq<ValueView>, convert: bool, field: Seq<char>) -> Option<
    (Seq<QValView>, Seq<QValView>, Seq<QValView>, Seq<QValView>),
>
    decreases vs,
{
    if vs.len() == 0 {
        Some((Seq::empty(), Seq::empty(), Seq::empty(), Seq::empty()))
    } else {
        match spec_buckets(vs.subrange(0, vs.len() - 1), convert, field) {
            None => None,
            Some((os, ss, ns, ds)) => match vs[vs.len() - 1] {
                ValueView::Text(t) => match spec_text_qval(t, convert, field) {
                    Some(QValView::Oid(o)) => Some((os.push(QValView::Oid(o)), ss, ns, ds)),
                    Some(QValView::Date(d)) => Some((os, ss, ns, ds.push(QValView::Date(d)))),
                    Some(QValView::S(s)) => Some((os, ss.push(QValView::S(s)), ns, ds)),
                    _ => None,
                },
                ValueView::Number(n) => Some((os, ss, ns.push(QValView::N(n)), ds)),
                _ => None,
            },
        }
    }
}

/// Once a prefix fails to collect, the whole list fails.
pub proof fn lemma_spec_buckets_none(vs: Seq<ValueView>, k: int, convert: bool, field: Seq<char>)
    requires
        0 <= k <= vs.len(),
        spec_buckets(vs.subrange(0, k), convert, field) is None,
    ensures
        spec_buckets(vs, convert, field) is None,
    decreases vs.len() - k,
{
    if k == vs.len() {
        assert(vs.subrange(0, k) =~= vs);
    } else {
        assert(vs.subrange(0, k + 1).subrange(0, k) =~= vs.subrange(0, k));
        lemma_spec_buckets_none(vs, k + 1, convert, field);
    }
}

/// What a membership comparison compiles to: all elements must fall in one
/// bucket among identifiers, strings and numbers; identifiers take
/// precedence over strings, strings over numbers, numbers over timestamps.
pub open spec fn spec_gen_in(
    field: Seq<char>,
    vs: Seq<ValueView>,
    neg: bool,
    convert: bool,
) -> Option<QExprView> {
    match spec_buckets(vs, convert, field) {
        None => None,
        Some((os, ss, ns, ds)) => if (ss.len() > 0 && ns.len() > 0) || (ss.len() > 0 && os.len()
            > 0) || (ns.len() > 0 && os.len() > 0) {
            None
        } else {
            Some(
                QExprView::InList {
                    field,
                    neg,
                    values: if os.len() > 0 {
                        os
                    } else if ss.len() > 0 {
                        ss
                    } else if ns.len() > 0 {
                        ns
                    } else {
                        ds
                    },
                },
            )
        },
    }
}

/// The query document a filter expression compiles to, or nothing when the
/// expression uses an operator or literal the backend form cannot carry:
/// `NotLike`, the null-tests, `len`, the set-containment operators, and
/// list or null literals in plain comparisons.
pub open spec fn spec_compile(e: ExprView, convert: bool) -> Option<QExprView>
    decreases e,
{
    match e {
        ExprView::And { lhs, rhs, .. } => match (
            spec_compile(*lhs, convert),
            spec_compile(*rhs, convert),
        ) {
            (Some(l), Some(r)) => Some(QExprView::And(seq![l, r])),
            _ => None,
        },
        ExprView::Or { lhs, rhs, .. } => match (
            spec_compile(*lhs, convert),
            spec_compile(*rhs, convert),
        ) {
            (Some(l), Some(r)) => Some(QExprView::Or(seq![l, r])),
            _ => None,
        },
        ExprView::Eq { field, value, .. } => spec_gen_cmp(field, value, Compare::Eq, convert),
        ExprView::Ne { field, value, .. } => spec_gen_cmp(field, value, Compare::Ne, convert),
        ExprView::Gt { field, value, .. } => spec_gen_cmp(field, value, Compare::Gt, convert),
        ExprView::Gte { field, value, .. } => spec_gen_cmp(field, value, Compare::Gte, convert),
        ExprView::Lt { field, value, .. } => spec_gen_cmp(field, value, Compare::Lt, convert),
        ExprView::Lte { field, value, .. } => spec_gen_cmp(field, value, Compare::Lte, convert),
        ExprView::Like { field, value, .. } => match value {
            ValueView::Text(t) => Some(QExprView::Regex { field, pattern: t }),
            _ => None,
        },
        ExprView::NotLike { .. } => None,
        ExprView::In { field, value, .. } => match value {
            ValueView::List(vs) => spec_gen_in(field, vs, false, convert),
            _ => None,
        },
        ExprView::NotIn { field, value, .. } => match value {
            ValueView::List(vs) => spec_gen_in(field, vs, true, convert),
            _ => None,
        },
        _ => None,
    }
}

/// One plain comparison's query document.
pub open spec fn spec_gen_cmp(
    field: Seq<char>,
    value: ValueView,
    op: Compare,
    convert: bool,
) -> Option<QExprView> {
    match spec_cmp_qval(value, convert, field) {
        Some(qv) => Some(QExprView::Cmp { field, op, value: qv }),
        None => None,
    }
}

} // verus!

verus! {

/// Appending a query literal commutes with taking the models.
pub proof fn lemma_qvals_view_push(s: Seq<QVal>, v: QVal)
    ensures
        qvals_view(s.push(v)) == qvals_view(s).push(v@),
{
    lemma_qvals_view(s.push(v));
    lemma_qvals_view(s);
    assert(qvals_view(s.push(v)) =~= qvals_view(s).push(v@));
}

/// Whether `c` is a hexadecimal digit.
fn is_hex_exec(c: char) -> (r: bool)
    ensures
        r == is_hex(c),
{
    ('0' <= c && c <= '9') || ('a' <= c && c <= 'f') || ('A' <= c && c <= 'F')
}

/// Whether `s` is a well-formed object identifier text.
fn oid_ok_exec(s: &str) -> (r: bool)
    ensures
        r == oid_ok(s@),
{
    let len = s.unicode_len();
    if len != 24 {
        return false;
    }
    let mut i: usize = 0;
    while i < 24
        invariant
            s@.len() == 24,
            i <= 24,
            forall|k: int| 0 <= k < i ==> is_hex(s@[k]),
        decreases 24 - i,
    {
        if !is_hex_exec(s.get_char(i)) {
            return false;
        }
        i = i + 1;
    }
    true
}

/// Compiles a text literal; see [`spec_text_qval`].
fn text_qval(t: &String, convert: bool, field: &str) -> (r: Option<QVal>)
    ensures
        match r {
            Some(qv) => spec_text_qval(t@, convert, field@) == Some(qv@),
            None => spec_text_qval(t@, convert, field@) is None,
        },
{
    proof {
        reveal_strlit("_id");
        assert("_id"@ =~= id_field());
        reveal_strlit("ISODate(");
        assert("ISODate("@ =~= seq!['I', 'S', 'O', 'D', 'a', 't', 'e', '(']);
    }
    if convert && crate::text::str_eq(field, "_id") {
        if oid_ok_exec(t.as_str()) {
            Some(QVal::Oid(t.clone()))
        } else {
            None
        }
    } else {
        let len = t.as_str().unicode_len();
        let shaped = len >= 9 && crate::text::str_eq(t.as_str().substring_char(0, 8), "ISODate(")
            && t.as_str().get_char(len - 1) == ')';
        if shaped {
            let inner = t.as_str().substring_char(8, len - 1);
            proof {
                assert(inner@ =~= isodate_inner(t@));
            }
            match crate::time::parse_datetime(inner) {
                Some(secs) => Some(QVal::Date(secs * 1000)),
                None => None,
            }
        } else {
            Some(QVal::S(t.clone()))
        }
    }
}

/// Compiles a comparison literal; see [`spec_cmp_qval`].
fn cmp_qval(v: &Value, convert: bool, field: &str) -> (r: Option<QVal>)
    ensures
        match r {
            Some(qv) => spec_cmp_qval(v@, convert, field@) == Some(qv@),
            None => spec_cmp_qval(v@, convert, field@) is None,
        },
{
    match v {
        Value::Text(t) => text_qval(t, convert, field),
        Value::Number(n) => Some(QVal::N(*n)),
        Value::Bool(b) => Some(QVal::B(*b)),
        _ => None,
    }
}

/// Collects a list's elements into the four buckets; see [`spec_buckets`].
fn buckets(vs: &Vec<Value>, convert: bool, field: &str) -> (r: Option<
    (Vec<QVal>, Vec<QVal>, Vec<QVal>, Vec<QVal>),
>)
    ensures
        match r {
            Some((os, ss, ns, ds)) => spec_buckets(values_view(vs@), convert, field@) == Some(
                (qvals_view(os@), qvals_view(ss@), qvals_view(ns@), qvals_view(ds@)),
            ),
            None => spec_buckets(values_view(vs@), convert, field@) is None,
        },
{
    proof {
        lemma_values_view(vs@);
    }
    let mut os: Vec<QVal> = Vec::new();
    let mut ss: Vec<QVal> = Vec::new();
    let mut ns: Vec<QVal> = Vec::new();
    let mut ds: Vec<QVal> = Vec::new();
    let mut i: usize = 0;
    proof {
        assert(values_view(vs@).subrange(0, 0) =~= Seq::<ValueView>::empty());
        assert(qvals_view(os@) =~= Seq::<QValView>::empty());
        assert(qvals_view(ss@) =~= Seq::<QValView>::empty());
        assert(qvals_view(ns@) =~= Seq::<QValView>::empty());
        assert(qvals_view(ds@) =~= Seq::<QValView>::empty());
    }
    while i < vs.len()
        invariant
            i <= vs@.len(),
            spec_buckets(values_view(vs@).subrange(0, i as int), convert, field@) == Some(
                (qvals_view(os@), qvals_view(ss@), qvals_view(ns@), qvals_view(ds@)),
            ),
        decreases vs@.len() - i,
    {
        let ghost pre = values_view(vs@).subrange(0, i as int);
        proof {
            assert(values_view(vs@).subrange(0, i as int + 1) =~= pre.push(
                values_view(vs@)[i as int],
            ));
            assert(values_view(vs@).subrange(0, i as int + 1).subrange(0, i as int) =~= pre);
            assert(values_view(vs@)[i as int] == vs@[i as int]@);
        }
        match &vs[i] {
            Value::Text(t) => {
                match text_qval(t, convert, field) {
                    Some(qv) => {
                        match qv {
                            QVal::Oid(_) => {
                                proof {
                                    lemma_qvals_view_push(os@, qv);
                                }
                                os.push(qv);
                            },
                            QVal::Date(_) => {
                                proof {
                                    lemma_qvals_view_push(ds@, qv);
                                }
                                ds.push(qv);
                            },
                            _ => {
                                proof {
                                    lemma_qvals_view_push(ss@, qv);
                                }
                                ss.push(qv);
                            },
                        }
                    },
                    None => {
                        proof {
                            lemma_spec_buckets_none(values_view(vs@), i as int + 1, convert, field@);
                        }
                        return None;
                    },
                }
            },
            Value::Number(n) => {
                let qv = QVal::N(*n);
                proof {
                    lemma_qvals_view_push(ns@, qv);
                }
                ns.push(qv);
            },
            _ => {
                proof {
                    lemma_spec_buckets_none(values_view(vs@), i as int + 1, convert, field@);
                }
                return None;
            },
        }
        i = i + 1;
    }
    proof {
        assert(values_view(vs@).subrange(0, vs@.len() as int) =~= values_view(vs@));
    }
    Some((os, ss, ns, ds))
}

/// Compiles a membership comparison; see [`spec_gen_in`].
fn gen_in(field: &String, vs: &Vec<Value>, neg: bool, convert: bool) -> (r: Option<QExpr>)
    ensures
        match r {
            Some(q) => spec_gen_in(field@, values_view(vs@), neg, convert) == Some(q@),
            None => spec_gen_in(field@, values_view(vs@), neg, convert) is None,
        },
{
    match buckets(vs, convert, field.as_str()) {
        None => None,
        Some((os, ss, ns, ds)) => {
            proof {
                lemma_qvals_view(os@);
                lemma_qvals_view(ss@);
                lemma_qvals_view(ns@);
                lemma_qvals_view(ds@);
            }
            if (ss.len() > 0 && ns.len() > 0) || (ss.len() > 0 && os.len() > 0) || (ns.len() > 0
                && os.len() > 0) {
                None
            } else {
                let values = if os.len() > 0 {
                    os
                } else if ss.len() > 0 {
                    ss
                } else if ns.len() > 0 {
                    ns
                } else {
                    ds
                };
                Some(QExpr::InList { field: field.clone(), neg, values })
            }
        },
    }
}

/// Compiles one plain comparison; see [`spec_gen_cmp`].
fn gen_cmp(field: &String, value: &Value, op: Compare, convert: bool) -> (r: Option<QExpr>)
    ensures
        match r {
            Some(q) => spec_gen_cmp(field@, value@, op, convert) == Some(q@),
            None => spec_gen_cmp(field@, value@, op, convert) is None,
        },
{
    match cmp_qval(value, convert, field.as_str()) {
        Some(qv) => Some(QExpr::Cmp { field: field.clone(), op, value: qv }),
        None => None,
    }
}

/// Compiles a filter expression into a query document; see [`spec_compile`].
#[verifier::rlimit(100)]
pub fn compile(e: &Expr, convert: bool) -> (r: Option<QExpr>)
    ensures
        match r {
            Some(q) => spec_compile(e@, convert) == Some(q@),
            None => spec_compile(e@, convert) is None,
        },
    decreases *e,
{
    match e {
        Expr::And { lhs, rhs, .. } => {
            match compile(lhs, convert) {
                Some(l) => match compile(rhs, convert) {
                    Some(r2) => {
                        let ghost lv = l@;
                        let ghost rv = r2@;
                        let mut items: Vec<QExpr> = Vec::new();
                        items.push(l);
                        items.push(r2);
                        proof {
                            lemma_qexprs_view(items@);
                            assert(items@.len() == 2);
                            assert(items@[0]@ == lv && items@[1]@ == rv);
                            assert(qexprs_view(items@) =~= seq![lv, rv]);
                        }
                        Some(QExpr::And(items))
                    },
                    None => None,
                },
                None => None,
            }
        },
        Expr::Or { lhs, rhs, .. } => {
            match compile(lhs, convert) {
                Some(l) => match compile(rhs, convert) {
                    Some(r2) => {
                        let ghost lv = l@;
                        let ghost rv = r2@;
                        let mut items: Vec<QExpr> = Vec::new();
                        items.push(l);
                        items.push(r2);
                        proof {
                            lemma_qexprs_view(items@);
                            assert(items@.len() == 2);
                            assert(items@[0]@ == lv && items@[1]@ == rv);
                            assert(qexprs_view(items@) =~= seq![lv, rv]);
                        }
                        Some(QExpr::Or(items))
                    },
                    None => None,
                },
                None => None,
            }
        },
        Expr::Eq { field, value, .. } => gen_cmp(field, value, Compare::Eq, convert),
        Expr::Ne { field, value, .. } => gen_cmp(field, value, Compare::Ne, convert),
        Expr::Gt { field, value, .. } => gen_cmp(field, value, Compare::Gt, convert),
        Expr::Gte { field, value, .. } => gen_cmp(field, value, Compare::Gte, convert),
        Expr::Lt { field, value, .. } => gen_cmp(field, value, Compare::Lt, convert),
        Expr::Lte { field, value, .. } => gen_cmp(field, value, Compare::Lte, convert),
        Expr::Like { field, value, .. } => match value {
            Value::Text(t) => Some(
                QExpr::Regex { field: field.clone(), pattern: t.clone() },
            ),
            _ => None,
        },
        Expr::NotLike { .. } => None,
        Expr::In { field, value, .. } => match value {
            Value::List(vs) => gen_in(field, vs, false, convert),
            _ => None,
        },
        Expr::NotIn { field, value, .. } => match value {
            Value::List(vs) => gen_in(field, vs, true, convert),
            _ => None,
        },
        _ => None,
    }
}

/// The compiled filter of the document-database driver: the query document,
/// the source text it was compiled from, and the identifier-coercion flag.
#[derive(Debug)]
pub struct MongoFilter(pub QExpr, pub String, pub bool);

impl MongoFilter {
    /// An empty filter that matches everything.
    pub fn new() -> (r: MongoFilter)
        ensures
            r.0@ == QExprView::Empty,
            r.1@ == Seq::<char>::empty(),
            r.2 == false,
    {
        MongoFilter(QExpr::Empty, String::new(), false)
    }

    /// Parses and compiles `input`, replacing this filter's document and
    /// remembering the source text.  Fails exactly when the text does not
    /// parse or uses an operator the backend form cannot carry; the filter
    /// is unchanged on failure.
    pub fn parse_filter(&mut self, input: &str) -> (r: Result<(), String>)
        ensures
            match r {
                Ok(()) => {
                    &&& crate::parse::sp_parse(input@) matches Some(e) && spec_compile(
                        e,
                        old(self).2,
                    ) == Some(final(self).0@)
                    &&& final(self).1@ == input@
                    &&& final(self).2 == old(self).2
                },
                Err(_) => {
                    &&& (crate::parse::sp_parse(input@) is None || (crate::parse::sp_parse(input@)
                        matches Some(e) && spec_compile(e, old(self).2) is None))
                    &&& final(self).0@ == old(self).0@
                    &&& final(self).1@ == old(self).1@
                    &&& final(self).2 == old(self).2
                },
            },
    {
        match yacc_parse(input) {
            Ok(e) => match compile(&e, self.2) {
                Some(q) => {
                    self.0 = q;
                    self.1 = input.to_owned();
                    Ok(())
                },
                None => Err(
                    String::from_str("the expression cannot be compiled for the backend: ")
                        .concat(input),
                ),
            },
            Err(msg) => Err(msg),
        }
    }
}

impl Filter for MongoFilter {
    /// Whether identifier coercion is on.
    open spec fn convert_on(&self) -> bool {
        self.2
    }

    /// Turns identifier coercion on for later `parse` calls; the compiled
    /// document and the source text are untouched.
    fn enable_convert(&mut self)
        ensures
            final(self).0@ == old(self).0@,
            final(self).1@ == old(self).1@,
            final(self).2 == true,
    {
        self.2 = true;
    }

    /// Parses and compiles `input`; see [`MongoFilter::parse_filter`].
    fn parse(&mut self, input: &str) -> (r: Result<(), String>) {
        self.parse_filter(input)
    }
}

impl Condition<MongoFilter> {
    /// Parses `input` into this condition's compiled filter.  Succeeds
    /// exactly when the text parses and compiles (under the current
    /// coercion flag); on success the filter holds the compiled document
    /// and the source text, earlier filters replaced, not accumulated; on
    /// failure the filter is unchanged.  Everything else about the
    /// condition is untouched either way.
    pub fn wheres(&mut self, input: &str) -> (r: Result<(), String>)
        ensures
            r is Ok <==> (crate::parse::sp_parse(input@) matches Some(e) && spec_compile(
                e,
                old(self).filter.2,
            ) is Some),
            r is Ok ==> (crate::parse::sp_parse(input@) matches Some(e) && spec_compile(
                e,
                old(self).filter.2,
            ) == Some(final(self).filter.0@) && final(self).filter.1@ == input@),
            r is Err ==> final(self).filter.0@ == old(self).filter.0@ && final(self).filter.1@
                == old(self).filter.1@,
            final(self).filter.2 == old(self).filter.2,
            final(self)@.db == old(self)@.db,
            final(self)@.table == old(self)@.table,
            final(self)@.page == old(self)@.page,
            final(self)@.size == old(self)@.size,
            final(self)@.sorts == old(self)@.sorts,
            final(self)@.fields == old(self)@.fields,
            final(self)@.pageable == old(self)@.pageable,
            final(self)@.update_version == old(self)@.update_version,
    {
        self.filter.parse_filter(input)
    }
}

/// A fresh condition around an empty document-database filter.
pub fn new_mongo_condition() -> (r: Condition<MongoFilter>)
    ensures
        r@.filter.0@ == QExprView::Empty,
        r@.filter.1@ == Seq::<char>::empty(),
        r@.filter.2 == false,
        r@.db == Seq::<char>::empty(),
        r@.table == Seq::<char>::empty(),
        r@.page == 0,
        r@.size == 10,
        r@.pageable == false,
        r@.update_version == true,
{
    Condition::new(MongoFilter::new())
}

} // verus!

verus! {

/// Whether a record value equals a query literal, as the in-memory backend
/// stub reads it: only like-shaped values compare.
pub open spec fn qval_eq_val(rv: crate::value::ValView, qv: QValView) -> bool {
    match qv {
        QValView::S(s) => rv is Str && rv->Str_0 == s,
        QValView::N(n) => rv is Num && crate::value::num_eq(rv->Num_0, n),
        QValView::B(b) => rv is Bool && rv->Bool_0 == b,
        _ => false,
    }
}

/// Ordering under the stub: numbers compare as rationals, strings
/// lexicographically; `lt` is the literal being below the record value.
pub open spec fn qval_lt_val(rv: crate::value::ValView, qv: QValView) -> bool {
    match qv {
        QValView::N(n) => rv is Num && crate::value::num_lt(n, rv->Num_0),
        QValView::S(s) => rv is Str && crate::text::str_lt(s, rv->Str_0),
        _ => false,
    }
}

/// Ordering under the stub, inclusively.
pub open spec fn qval_le_val(rv: crate::value::ValView, qv: QValView) -> bool {
    match qv {
        QValView::N(n) => rv is Num && crate::value::num_le(n, rv->Num_0),
        QValView::S(s) => rv is Str && !crate::text::str_lt(rv->Str_0, s),
        _ => false,
    }
}

/// Ordering under the stub, from above.
pub open spec fn qval_gt_val(rv: crate::value::ValView, qv: QValView) -> bool {
    match qv {
        QValView::N(n) => rv is Num && crate::value::num_lt(rv->Num_0, n),
        QValView::S(s) => rv is Str && crate::text::str_lt(rv->Str_0, s),
        _ => false,
    }
}

/// Ordering under the stub, from above inclusively.
pub open spec fn qval_ge_val(rv: crate::value::ValView, qv: QValView) -> bool {
    match qv {
        QValView::N(n) => rv is Num && crate::value::num_le(rv->Num_0, n),
        QValView::S(s) => rv is Str && !crate::text::str_lt(s, rv->Str_0),
        _ => false,
    }
}

/// One comparison under the stub, by operator; `$ne` stands one level up,
/// since it also matches a missing field.
pub open spec fn qcmp_matches(rv: crate::value::ValView, op: Compare, qv: QValView) -> bool {
    match op {
        Compare::Eq => qval_eq_val(rv, qv),
        Compare::Ne => !qval_eq_val(rv, qv),
        Compare::Gt => qval_lt_val(rv, qv),
        Compare::Gte => qval_le_val(rv, qv),
        Compare::Lt => qval_gt_val(rv, qv),
        Compare::Lte => qval_ge_val(rv, qv),
    }
}

/// Whether some listed query literal equals the record value.
pub open spec fn qlist_has(vs: Seq<QValView>, rv: crate::value::ValView) -> bool {
    exists|i: int| 0 <= i < vs.len() && qval_eq_val(rv, #[trigger] vs[i])
}

/// Whether the record `es` matches the query document `q`, as the
/// in-memory backend stub evaluates it: fields are read by their dotted
/// path, the comparisons need a like-shaped value — except `$ne`, which
/// also matches a missing or differently shaped field — membership reads
/// only string and number values, and a regular-expression predicate
/// matches anywhere in a string field.
pub open spec fn spec_qmatch(es: Seq<(Seq<char>, crate::value::ValView)>, q: QExprView) -> bool
    decreases q,
{
    match q {
        QExprView::Empty => true,
        QExprView::And(items) => qmatch_all(es, items),
        QExprView::Or(items) => qmatch_any(es, items),
        QExprView::Cmp { field, op, value } => if op == Compare::Ne {
            !(match crate::value::spec_get_opt(es, field) {
                Some(rv) => qval_eq_val(rv, value),
                None => false,
            })
        } else {
            match crate::value::spec_get_opt(es, field) {
                Some(rv) => qcmp_matches(rv, op, value),
                None => false,
            }
        },
        QExprView::InList { field, neg, values } => match crate::value::spec_get_opt(es, field) {
            Some(rv) => if neg {
                (rv is Num || rv is Str) && !qlist_has(values, rv)
            } else {
                qlist_has(values, rv)
            },
            None => false,
        },
        QExprView::Regex { field, pattern } => match crate::value::spec_get_opt(es, field) {
            Some(rv) => rv is Str && crate::matchs::regex_match(pattern, rv->Str_0) == Some(true),
            None => false,
        },
    }
}

/// Every listed document matches.
pub open spec fn qmatch_all(
    es: Seq<(Seq<char>, crate::value::ValView)>,
    items: Seq<QExprView>,
) -> bool
    decreases items,
{
    items.len() == 0 || (spec_qmatch(es, items[0]) && qmatch_all(
        es,
        items.subrange(1, items.len() as int),
    ))
}

/// Some listed document matches.
pub open spec fn qmatch_any(
    es: Seq<(Seq<char>, crate::value::ValView)>,
    items: Seq<QExprView>,
) -> bool
    decreases items,
{
    items.len() > 0 && (spec_qmatch(es, items[0]) || qmatch_any(
        es,
        items.subrange(1, items.len() as int),
    ))
}

/// A literal that compiles to itself: no `ISODate(...)` text, down through
/// lists.
pub open spec fn lit_plain(v: ValueView) -> bool
    decreases v,
{
    match v {
        ValueView::Text(t) => !isodate_shape(t),
        ValueView::List(items) => lits_plain(items),
        _ => true,
    }
}

/// Every element of the list is plain.
pub open spec fn lits_plain(items: Seq<ValueView>) -> bool
    decreases items,
{
    items.len() == 0 || (lit_plain(items[0]) && lits_plain(
        items.subrange(1, items.len() as int),
    ))
}

/// An expression whose literals all compile to themselves.
pub open spec fn expr_plain(e: ExprView) -> bool
    decreases e,
{
    match e {
        ExprView::And { lhs, rhs, .. } => expr_plain(*lhs) && expr_plain(*rhs),
        ExprView::Or { lhs, rhs, .. } => expr_plain(*lhs) && expr_plain(*rhs),
        ExprView::Eq { value, .. } => lit_plain(value),
        ExprView::Ne { value, .. } => lit_plain(value),
        ExprView::Gt { value, .. } => lit_plain(value),
        ExprView::Gte { value, .. } => lit_plain(value),
        ExprView::Lt { value, .. } => lit_plain(value),
        ExprView::Lte { value, .. } => lit_plain(value),
        ExprView::In { value, .. } => lit_plain(value),
        ExprView::NotIn { value, .. } => lit_plain(value),
        _ => true,
    }
}

} // verus!

verus! {

/// `lits_plain` holds exactly when every element is plain.
pub proof fn lemma_lits_plain(items: Seq<ValueView>)
    ensures
        lits_plain(items) <==> (forall|i: int|
            0 <= i < items.len() ==> lit_plain(#[trigger] items[i])),
    decreases items,
{
    if items.len() > 0 {
        let tail = items.subrange(1, items.len() as int);
        lemma_lits_plain(tail);
        assert(forall|i: int| 1 <= i < items.len() ==> items[i] == tail[i - 1]);
    }
}

/// Whether some element of the list literal is a number equal to `rn`.
pub open spec fn lit_list_num_has(vs: Seq<ValueView>, rn: crate::value::Num) -> bool {
    exists|k: int|
        0 <= k < vs.len() && (#[trigger] vs[k]) is Number && crate::value::num_eq(
            vs[k]->Number_0,
            rn,
        )
}

/// Whether some element of the list literal is the text `x`.
pub open spec fn lit_list_text_has(vs: Seq<ValueView>, x: Seq<char>) -> bool {
    exists|k: int| 0 <= k < vs.len() && (#[trigger] vs[k]) is Text && vs[k]->Text_0 == x
}

/// What the buckets of a plain, uncoerced list hold: no identifiers and no
/// timestamps; the strings carry exactly the text elements and the numbers
/// exactly the numeric ones.
pub proof fn lemma_buckets_content(vs: Seq<ValueView>, f: Seq<char>, rv: crate::value::ValView)
    requires
        lits_plain(vs),
        spec_buckets(vs, false, f) is Some,
    ensures
        ({
            let b = spec_buckets(vs, false, f)->Some_0;
            &&& b.0.len() == 0
            &&& b.3.len() == 0
            &&& (forall|i: int| 0 <= i < b.1.len() ==> (#[trigger] b.1[i]) is S)
            &&& (forall|i: int| 0 <= i < b.2.len() ==> (#[trigger] b.2[i]) is N)
            &&& (rv is Num ==> (lit_list_num_has(vs, rv->Num_0) <==> qlist_has(b.2, rv)))
            &&& (rv is Str ==> (lit_list_text_has(vs, rv->Str_0) <==> qlist_has(b.1, rv)))
            &&& (rv is Num ==> !qlist_has(b.1, rv))
            &&& (rv is Str ==> !qlist_has(b.2, rv))
        }),
    decreases vs,
{
    lemma_lits_plain(vs);
    if vs.len() == 0 {
    } else {
        let pre = vs.subrange(0, vs.len() - 1);
        lemma_lits_plain(pre);
        assert(forall|i: int| 0 <= i < pre.len() ==> pre[i] == vs[i]);
        lemma_buckets_content(pre, f, rv);
        let bp = spec_buckets(pre, false, f)->Some_0;
        let b = spec_buckets(vs, false, f)->Some_0;
        match vs[vs.len() - 1] {
            ValueView::Text(t) => {
                assert(lit_plain(vs[vs.len() - 1]));
                assert(spec_text_qval(t, false, f) == Some(QValView::S(t)));
                assert(b.1 == bp.1.push(QValView::S(t)));
                assert(forall|i: int| 0 <= i < bp.1.len() ==> b.1[i] == bp.1[i]);
                if rv is Str {
                    if rv->Str_0 == t {
                        assert(vs[vs.len() - 1] is Text && vs[vs.len() - 1]->Text_0 == t);
                        assert(qval_eq_val(rv, b.1[b.1.len() - 1]));
                        assert(lit_list_text_has(vs, rv->Str_0) && qlist_has(b.1, rv));
                    } else {
                        assert(lit_list_text_has(vs, rv->Str_0) <==> lit_list_text_has(
                            pre,
                            rv->Str_0,
                        ));
                        assert(qlist_has(b.1, rv) <==> qlist_has(bp.1, rv));
                    }
                }
                if rv is Num {
                    assert(lit_list_num_has(vs, rv->Num_0) <==> lit_list_num_has(pre, rv->Num_0));
                    assert(b.2 == bp.2);
                }
            },
            ValueView::Number(n) => {
                assert(b.2 == bp.2.push(QValView::N(n)));
                assert(forall|i: int| 0 <= i < bp.2.len() ==> b.2[i] == bp.2[i]);
                if rv is Num {
                    if crate::value::num_eq(n, rv->Num_0) {
                        assert(crate::value::num_eq(rv->Num_0, n));
                        assert(qval_eq_val(rv, b.2[b.2.len() - 1]));
                        assert(vs[vs.len() - 1] is Number && crate::value::num_eq(
                            vs[vs.len() - 1]->Number_0,
                            rv->Num_0,
                        ));
                        assert(lit_list_num_has(vs, rv->Num_0) && qlist_has(b.2, rv));
                    } else {
                        assert(!crate::value::num_eq(rv->Num_0, n));
                        assert(lit_list_num_has(vs, rv->Num_0) <==> lit_list_num_has(
                            pre,
                            rv->Num_0,
                        ));
                        assert(qlist_has(b.2, rv) <==> qlist_has(bp.2, rv));
                    }
                }
                if rv is Str {
                    assert(lit_list_text_has(vs, rv->Str_0) <==> lit_list_text_has(
                        pre,
                        rv->Str_0,
                    ));
                    assert(b.1 == bp.1);
                }
            },
            _ => {
                assert(false);
            },
        }
    }
}

/// **Matcher and compiler agree.**  For any record and any filter
/// expression the compiler accepts, compiled without identifier coercion
/// and free of `ISODate(...)` literals, the in-memory backend stub accepts
/// the compiled query document exactly when the matcher accepts the
/// expression.
///
/// The two exclusions cannot be lifted, because on those literals the two
/// sides genuinely part ways: the matcher compares the text as written —
/// the 24 hexadecimal characters, or the whole `ISODate(...)` text — while
/// the compiled form carries a native identifier or timestamp, which no
/// string or number field of a record ever equals.  A record whose field
/// holds the raw text therefore passes the matcher and fails the backend.
/// What does hold of every record on that side is pinned by
/// [`lemma_coerced_cmp_never_matches`] and
/// [`lemma_coerced_ne_always_matches`].
pub proof fn lemma_compile_agrees(
    es: Seq<(Seq<char>, crate::value::ValView)>,
    e: ExprView,
)
    requires
        expr_plain(e),
        spec_compile(e, false) is Some,
    ensures
        spec_qmatch(es, spec_compile(e, false)->Some_0) == crate::matchs::spec_matches(es, e),
    decreases e,
{
    match e {
        ExprView::And { lhs, rhs, .. } => {
            lemma_compile_agrees(es, *lhs);
            lemma_compile_agrees(es, *rhs);
            let l = spec_compile(*lhs, false)->Some_0;
            let r = spec_compile(*rhs, false)->Some_0;
            assert(seq![l, r][0] == l);
            assert(seq![l, r].subrange(1, 2) =~= seq![r]);
            assert(seq![r].subrange(1, 1) =~= Seq::<QExprView>::empty());
            assert(qmatch_all(es, Seq::<QExprView>::empty()));
            assert(qmatch_all(es, seq![r]) == spec_qmatch(es, r));
            assert(qmatch_all(es, seq![l, r]) == (spec_qmatch(es, l) && spec_qmatch(es, r)));
        },
        ExprView::Or { lhs, rhs, .. } => {
            lemma_compile_agrees(es, *lhs);
            lemma_compile_agrees(es, *rhs);
            let l = spec_compile(*lhs, false)->Some_0;
            let r = spec_compile(*rhs, false)->Some_0;
            assert(seq![l, r][0] == l);
            assert(seq![l, r].subrange(1, 2) =~= seq![r]);
            assert(seq![r].subrange(1, 1) =~= Seq::<QExprView>::empty());
            assert(!qmatch_any(es, Seq::<QExprView>::empty()));
            assert(qmatch_any(es, seq![r]) == spec_qmatch(es, r));
            assert(qmatch_any(es, seq![l, r]) == (spec_qmatch(es, l) || spec_qmatch(es, r)));
        },
        ExprView::In { field, value, .. } => {
            let vs = value->List_0;
            lemma_buckets_content(vs, field, match crate::value::spec_get_opt(es, field) {
                Some(rv) => rv,
                None => crate::value::ValView::Null,
            });
        },
        ExprView::NotIn { field, value, .. } => {
            let vs = value->List_0;
            lemma_buckets_content(vs, field, match crate::value::spec_get_opt(es, field) {
                Some(rv) => rv,
                None => crate::value::ValView::Null,
            });
        },
        _ => {},
    }
}

} // verus!

verus! {

/// A comparison whose literal was coerced to a native identifier or
/// timestamp matches no record under the stub (apart from `$ne`): records
/// hold only null, booleans, numbers, strings, lists and nested records,
/// and none of those equals or orders against a native identifier or
/// timestamp.
pub proof fn lemma_coerced_cmp_never_matches(
    es: Seq<(Seq<char>, crate::value::ValView)>,
    field: Seq<char>,
    op: Compare,
    qv: QValView,
)
    requires
        qv is Oid || qv is Date,
        op != Compare::Ne,
    ensures
        !spec_qmatch(es, QExprView::Cmp { field, op, value: qv }),
{
}

/// The `$ne` form of a coerced comparison matches every record under the
/// stub, for the same reason: the equality it negates never holds.
pub proof fn lemma_coerced_ne_always_matches(
    es: Seq<(Seq<char>, crate::value::ValView)>,
    field: Seq<char>,
    qv: QValView,
)
    requires
        qv is Oid || qv is Date,
    ensures
        spec_qmatch(es, QExprView::Cmp { field, op: Compare::Ne, value: qv }),
{
}

} // verus!

verus! {

/// **Identifier coercion over a whole list.**  Compiling a membership
/// filter on the reserved identifier field with coercion on turns *every*
/// text element into a native identifier, in list order, and succeeds
/// exactly when every element is a well-formed identifier text: one bad
/// element fails the whole compilation.
pub proof fn lemma_id_list_coercion(vs: Seq<ValueView>, neg: bool)
    requires
        forall|i: int| 0 <= i < vs.len() ==> (#[trigger] vs[i]) is Text,
    ensures
        spec_gen_in(id_field(), vs, neg, true) is Some <==> (forall|i: int|
            0 <= i < vs.len() ==> oid_ok((#[trigger] vs[i])->Text_0)),
        spec_gen_in(id_field(), vs, neg, true) matches Some(q) ==> q matches QExprView::InList {
            field,
            neg: n2,
            values,
        } && field == id_field() && n2 == neg && values.len() == vs.len() && (forall|i: int|
            0 <= i < vs.len() ==> values[i] == QValView::Oid(vs[i]->Text_0)),
{
    lemma_id_buckets(vs);
}

/// Under coercion on the identifier field, the buckets of an all-text list
/// are the coerced identifiers alone, in order — or nothing, as soon as one
/// element is not a well-formed identifier text.
proof fn lemma_id_buckets(vs: Seq<ValueView>)
    requires
        forall|i: int| 0 <= i < vs.len() ==> (#[trigger] vs[i]) is Text,
    ensures
        spec_buckets(vs, true, id_field()) is Some <==> (forall|i: int|
            0 <= i < vs.len() ==> oid_ok((#[trigger] vs[i])->Text_0)),
        spec_buckets(vs, true, id_field()) matches Some(b) ==> b.0.len() == vs.len() && b.1.len()
            == 0 && b.2.len() == 0 && b.3.len() == 0 && (forall|i: int|
            0 <= i < vs.len() ==> b.0[i] == QValView::Oid(vs[i]->Text_0)),
    decreases vs,
{
    if vs.len() > 0 {
        let pre = vs.subrange(0, vs.len() - 1);
        assert(forall|i: int| 0 <= i < pre.len() ==> pre[i] == vs[i]);
        lemma_id_buckets(pre);
        match spec_buckets(pre, true, id_field()) {
            Some(bp) => {
                match vs[vs.len() - 1] {
                    ValueView::Text(t) => {
                        if oid_ok(t) {
                            assert(spec_text_qval(t, true, id_field()) == Some(QValView::Oid(t)));
                            let b = spec_buckets(vs, true, id_field())->Some_0;
                            assert(b.0 == bp.0.push(QValView::Oid(t)));
                            assert(forall|i: int| 0 <= i < bp.0.len() ==> b.0[i] == bp.0[i]);
                        } else {
                            assert(spec_text_qval(t, true, id_field()) is None);
                        }
                    },
                    _ => {},
                }
            },
            None => {},
        }
    }
}

} // verus!
