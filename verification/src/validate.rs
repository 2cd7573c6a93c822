//! The validation dialect: expressions checked across a pair of records,
//! the persisted *src* and the pending *tag*.

use vstd::prelude::*;

use crate::cond::{lemma_values_view, values_view, Value, ValueView};
use crate::cond::Span;
use crate::record::val_eq;
use crate::value::{
    lemma_vals_view, num_le, num_lt, num_wf, spec_get, uv_wf, vals_view, vv_eq, vv_wf, Num,
    Unstructed, Val, ValView,
};
use crate::matchs::{num_as_i64, opt_lt};

verus! {

/// A comparison operator of the validation dialect.
#[derive(Clone, Copy, Debug, PartialEq, Eq, Structural)]
pub enum Compare {
    EQ,
    NE,
    GT,
    GTE,
    LT,
    LTE,
}

/// Which record of the pair a cross expression reads.
#[derive(Clone, Copy, Debug, PartialEq, Eq, Structural)]
pub enum Object {
    Src,
    Tag,
}

/// A cross-record comparison: two fields of the two records, or one side's
/// field against a literal.
#[derive(Debug)]
pub enum Model {
    Field { src_field: String, tag_field: String, compare: Compare },
    Value { object: Object, field: String, compare: Compare, value: Value },
}

/// A validation expression: the filter comparisons, the type tests, and the
/// cross-record comparisons.
#[derive(Debug)]
pub enum Validate {
    And { span: Span, lhs: Box<Validate>, rhs: Box<Validate> },
    Or { span: Span, lhs: Box<Validate>, rhs: Box<Validate> },
    Eq { span: Span, field: String, value: Value },
    Ne { span: Span, field: String, value: Value },
    Gt { span: Span, field: String, value: Value },
    Gte { span: Span, field: String, value: Value },
    Lt { span: Span, field: String, value: Value },
    Lte { span: Span, field: String, value: Value },
    In { span: Span, field: String, value: Value },
    NotIn { span: Span, field: String, value: Value },
    IsNull { span: Span, field: String, value: Value },
    IsNotNull { span: Span, field: String, value: Value },
    IsNumber { span: Span, field: String, value: bool },
    IsString { span: Span, field: String, value: bool },
    LenField { span: Span, field: String, compare: Compare, value: Num },
    Corss { span: Span, model: Model },
}

/// A literal carried over to the value world in full: lists map their
/// elements, a `len` reference maps to null.
pub open spec fn lit_to_full(v: ValueView) -> ValView
    decreases v,
{
    match v {
        ValueView::Text(s) => ValView::Str(s),
        ValueView::Number(n) => ValView::Num(n),
        ValueView::Bool(b) => ValView::Bool(b),
        ValueView::List(items) => ValView::List(lits_to_full(items)),
        ValueView::Len(_) => ValView::Null,
        ValueView::Null => ValView::Null,
    }
}

/// The elements of a list literal carried over, in order.
pub open spec fn lits_to_full(s: Seq<ValueView>) -> Seq<ValView>
    decreases s,
{
    if s.len() == 0 {
        Seq::empty()
    } else {
        seq![lit_to_full(s[0])] + lits_to_full(s.subrange(1, s.len() as int))
    }
}

/// Element `i` of `lits_to_full(s)` carries over element `i` of `s`.
pub proof fn lemma_lits_to_full(s: Seq<ValueView>)
    ensures
        lits_to_full(s).len() == s.len(),
        forall|i: int| 0 <= i < s.len() ==> lits_to_full(s)[i] == lit_to_full(s[i]),
    decreases s,
{
    if s.len() > 0 {
        lemma_lits_to_full(s.subrange(1, s.len() as int));
    }
}

/// The validator's ordering comparison: a numeric left side compares
/// rationally against a numeric right side, and outranks a non-numeric
/// right side; a non-numeric left side never compares.
pub open spec fn spec_cmp_num(a: ValView, b: ValView, c: Compare) -> bool {
    match a {
        ValView::Num(x) => match b {
            ValView::Num(y) => match c {
                Compare::GT => num_lt(y, x),
                Compare::GTE => num_le(y, x),
                Compare::LT => num_lt(x, y),
                Compare::LTE => num_le(x, y),
                _ => false,
            },
            _ => c == Compare::GT || c == Compare::GTE,
        },
        _ => false,
    }
}

/// The validator's comparison: equality is semantic equality, the orderings
/// go through [`spec_cmp_num`].
pub open spec fn spec_vcmp(a: ValView, b: ValView, c: Compare) -> bool {
    match c {
        Compare::EQ => vv_eq(a, b),
        Compare::NE => !vv_eq(a, b),
        _ => spec_cmp_num(a, b, c),
    }
}

/// Whether some element of `items` is semantically equal to `x`.
pub open spec fn list_has(items: Seq<ValView>, x: ValView) -> bool {
    exists|j: int| 0 <= j < items.len() && vv_eq(#[trigger] items[j], x)
}

/// The model of a validation expression; cross expressions resolve against
/// the pair, everything else against the *tag* record alone.
pub open spec fn spec_validate(
    src: Option<Seq<(Seq<char>, ValView)>>,
    tag: Seq<(Seq<char>, ValView)>,
    v: Validate,
) -> bool
    decreases v,
{
    match v {
        Validate::Corss { model, .. } => match src {
            Option::None => false,
            Option::Some(src_es) => match model {
                Model::Field { src_field, tag_field, compare } => spec_vcmp(
                    spec_get(src_es, src_field@),
                    spec_get(tag, tag_field@),
                    compare,
                ),
                Model::Value { object, field, compare, value } => spec_vcmp(
                    spec_get(
                        if object == Object::Src {
                            src_es
                        } else {
                            tag
                        },
                        field@,
                    ),
                    lit_to_full(value@),
                    compare,
                ),
            },
        },
        _ => spec_basic(tag, v),
    }
}

/// The single-record part of the validator, node by node; the type tests
/// compare the field's type against the expected flag, so `expect == false`
/// demands the field *not* be of the type.
pub open spec fn spec_basic(tag: Seq<(Seq<char>, ValView)>, v: Validate) -> bool
    decreases v,
{
    match v {
        Validate::And { lhs, rhs, .. } => spec_basic(tag, *lhs) && spec_basic(tag, *rhs),
        Validate::Or { lhs, rhs, .. } => spec_basic(tag, *lhs) || spec_basic(tag, *rhs),
        Validate::Eq { field, value, .. } => vv_eq(lit_to_full(value@), spec_get(tag, field@)),
        Validate::Ne { field, value, .. } => !vv_eq(lit_to_full(value@), spec_get(tag, field@)),
        Validate::Gt { field, value, .. } => spec_cmp_num(
            spec_get(tag, field@),
            lit_to_full(value@),
            Compare::GT,
        ),
        Validate::Gte { field, value, .. } => spec_cmp_num(
            spec_get(tag, field@),
            lit_to_full(value@),
            Compare::GTE,
        ),
        Validate::Lt { field, value, .. } => spec_cmp_num(
            spec_get(tag, field@),
            lit_to_full(value@),
            Compare::LT,
        ),
        Validate::Lte { field, value, .. } => spec_cmp_num(
            spec_get(tag, field@),
            lit_to_full(value@),
            Compare::LTE,
        ),
        Validate::In { field, value, .. } => match lit_to_full(value@) {
            ValView::List(items) => list_has(items, spec_get(tag, field@)),
            _ => false,
        },
        Validate::NotIn { field, value, .. } => match lit_to_full(value@) {
            ValView::List(items) => !list_has(items, spec_get(tag, field@)),
            _ => false,
        },
        Validate::IsNull { field, .. } => spec_get(tag, field@) is Null,
        Validate::IsNotNull { field, .. } => !(spec_get(tag, field@) is Null),
        Validate::IsNumber { field, value, .. } => (spec_get(tag, field@) is Num) == value,
        Validate::IsString { field, value, .. } => (spec_get(tag, field@) is Str) == value,
        Validate::LenField { field, compare, value, .. } => {
            let have = match spec_get(tag, field@) {
                ValView::Str(s) => Some(s.len() as int),
                ValView::List(items) => Some(items.len() as int),
                _ => None::<int>,
            };
            match compare {
                Compare::EQ => have == num_as_i64(value),
                Compare::NE => have != num_as_i64(value),
                Compare::GT => opt_lt(num_as_i64(value), have),
                Compare::GTE => !opt_lt(have, num_as_i64(value)),
                Compare::LT => opt_lt(have, num_as_i64(value)),
                Compare::LTE => !opt_lt(num_as_i64(value), have),
            }
        },
        _ => false,
    }
}

} // verus!

verus! {

/// Well-formedness of a validation expression: every number in it is in
/// bounds.
pub open spec fn vexpr_wf(v: Validate) -> bool
    decreases v,
{
    match v {
        Validate::And { lhs, rhs, .. } => vexpr_wf(*lhs) && vexpr_wf(*rhs),
        Validate::Or { lhs, rhs, .. } => vexpr_wf(*lhs) && vexpr_wf(*rhs),
        Validate::Eq { value, .. } => crate::matchs::lit_wf(value@),
        Validate::Ne { value, .. } => crate::matchs::lit_wf(value@),
        Validate::Gt { value, .. } => crate::matchs::lit_wf(value@),
        Validate::Gte { value, .. } => crate::matchs::lit_wf(value@),
        Validate::Lt { value, .. } => crate::matchs::lit_wf(value@),
        Validate::Lte { value, .. } => crate::matchs::lit_wf(value@),
        Validate::In { value, .. } => crate::matchs::lit_wf(value@),
        Validate::NotIn { value, .. } => crate::matchs::lit_wf(value@),
        Validate::IsNull { .. } => true,
        Validate::IsNotNull { .. } => true,
        Validate::IsNumber { .. } => true,
        Validate::IsString { .. } => true,
        Validate::LenField { value, .. } => num_wf(value),
        Validate::Corss { model, .. } => match model {
            Model::Field { .. } => true,
            Model::Value { value, .. } => crate::matchs::lit_wf(value@),
        },
    }
}

/// A literal carried over in full is well-formed when the literal is.
pub proof fn lemma_lit_to_full_wf(v: ValueView)
    requires
        crate::matchs::lit_wf(v),
    ensures
        vv_wf(lit_to_full(v)),
    decreases v,
{
    match v {
        ValueView::List(items) => {
            crate::matchs::lemma_lits_wf(items);
            lemma_lits_to_full(items);
            crate::value::lemma_vvs_wf(lits_to_full(items));
            assert forall|i: int| 0 <= i < lits_to_full(items).len() implies vv_wf(
                #[trigger] lits_to_full(items)[i],
            ) by {
                lemma_lit_to_full_wf(items[i]);
            }
        },
        _ => {},
    }
}

/// Carries a literal over to the value world in full; see [`lit_to_full`].
fn lit_to_full_exec(v: &Value) -> (r: Val)
    ensures
        r@ == lit_to_full(v@),
    decreases *v,
{
    match v {
        Value::Text(s) => Val::Str(s.clone()),
        Value::Number(n) => Val::Num(*n),
        Value::Bool(b) => Val::Bool(*b),
        Value::List(items) => {
            proof {
                lemma_values_view(items@);
                lemma_lits_to_full(values_view(items@));
            }
            let mut out: Vec<Val> = Vec::new();
            let mut i: usize = 0;
            while i < items.len()
                invariant
                    i <= items@.len(),
                    out@.len() == i,
                    forall|j: int|
                        0 <= j < i ==> out@[j]@ == lit_to_full(#[trigger] values_view(items@)[j]),
                decreases items@.len() - i,
            {
                proof {
                    assert(values_view(items@)[i as int] == items@[i as int]@);
                }
                out.push(lit_to_full_exec(&items[i]));
                i = i + 1;
            }
            proof {
                lemma_vals_view(out@);
                assert(vals_view(out@) =~= lits_to_full(values_view(items@)));
            }
            Val::List(out)
        },
        Value::Len(_) => Val::Null,
        Value::Null => Val::Null,
    }
}

/// The validator's ordering comparison; see [`spec_cmp_num`].
fn cmp_num_exec(a: &Val, b: &Val, c: Compare) -> (r: bool)
    requires
        vv_wf(a@),
        vv_wf(b@),
    ensures
        r == spec_cmp_num(a@, b@, c),
{
    match a {
        Val::Num(x) => match b {
            Val::Num(y) => match c {
                Compare::GT => y.lt(x),
                Compare::GTE => y.le(x),
                Compare::LT => x.lt(y),
                Compare::LTE => x.le(y),
                _ => false,
            },
            _ => c == Compare::GT || c == Compare::GTE,
        },
        _ => false,
    }
}

/// The validator's comparison; see [`spec_vcmp`].
fn vcmp_exec(a: &Val, b: &Val, c: Compare) -> (r: bool)
    requires
        vv_wf(a@),
        vv_wf(b@),
    ensures
        r == spec_vcmp(a@, b@, c),
{
    match c {
        Compare::EQ => val_eq(a, b),
        Compare::NE => !val_eq(a, b),
        _ => cmp_num_exec(a, b, c),
    }
}

/// Evaluates a validation expression against the pair `(src, tag)`; see
/// [`spec_validate`] for the semantics.
pub fn validate_match(src: Option<&Unstructed>, tag: &Unstructed, expr: &Validate) -> (r: bool)
    requires
        (match src {
            Some(u) => uv_wf(u@),
            None => true,
        }),
        uv_wf(tag@),
        vexpr_wf(*expr),
    ensures
        r == spec_validate(
            match src {
                Some(u) => Some(u@),
                None => None,
            },
            tag@,
            *expr,
        ),
{
    match expr {
        Validate::Corss { model, .. } => match src {
            None => false,
            Some(src_rec) => match model {
                Model::Field { src_field, tag_field, compare } => {
                    proof {
                        crate::dict::lemma_spec_get_wf(src_rec@, src_field@);
                        crate::dict::lemma_spec_get_wf(tag@, tag_field@);
                    }
                    let a = src_rec.get(src_field.as_str());
                    let b = tag.get(tag_field.as_str());
                    vcmp_exec(&a, &b, *compare)
                },
                Model::Value { object, field, compare, value } => {
                    proof {
                        crate::dict::lemma_spec_get_wf(src_rec@, field@);
                        crate::dict::lemma_spec_get_wf(tag@, field@);
                        lemma_lit_to_full_wf(value@);
                    }
                    let a = match object {
                        Object::Src => src_rec.get(field.as_str()),
                        Object::Tag => tag.get(field.as_str()),
                    };
                    let b = lit_to_full_exec(value);
                    vcmp_exec(&a, &b, *compare)
                },
            },
        },
        _ => basic_match(tag, expr),
    }
}

/// Whether the expression is a cross-record comparison.
fn is_corss(v: &Validate) -> (r: bool)
    ensures
        r == (*v is Corss),
{
    match v {
        Validate::Corss { .. } => true,
        _ => false,
    }
}

/// The single-record part of the validator; see [`spec_basic`].
#[verifier::rlimit(100)]
fn basic_match(tag: &Unstructed, expr: &Validate) -> (r: bool)
    requires
        uv_wf(tag@),
        vexpr_wf(*expr),
        !(expr is Corss),
    ensures
        r == spec_basic(tag@, *expr),
    decreases *expr,
{
    match expr {
        Validate::And { lhs, rhs, .. } => {
            if is_corss(lhs) || is_corss(rhs) {
                proof {
                    reveal_with_fuel(spec_basic, 2);
                }
                false
            } else {
                basic_match(tag, lhs) && basic_match(tag, rhs)
            }
        },
        Validate::Or { lhs, rhs, .. } => {
            proof {
                reveal_with_fuel(spec_basic, 2);
            }
            let l = if is_corss(lhs) {
                false
            } else {
                basic_match(tag, lhs)
            };
            let r2 = if is_corss(rhs) {
                false
            } else {
                basic_match(tag, rhs)
            };
            l || r2
        },
        Validate::Eq { field, value, .. } => {
            proof {
                crate::dict::lemma_spec_get_wf(tag@, field@);
                lemma_lit_to_full_wf(value@);
            }
            let a = lit_to_full_exec(value);
            let b = tag.get(field.as_str());
            val_eq(&a, &b)
        },
        Validate::Ne { field, value, .. } => {
            proof {
                crate::dict::lemma_spec_get_wf(tag@, field@);
                lemma_lit_to_full_wf(value@);
            }
            let a = lit_to_full_exec(value);
            let b = tag.get(field.as_str());
            !val_eq(&a, &b)
        },
        Validate::Gt { field, value, .. } => cmp_arm(tag, field, value, Compare::GT),
        Validate::Gte { field, value, .. } => cmp_arm(tag, field, value, Compare::GTE),
        Validate::Lt { field, value, .. } => cmp_arm(tag, field, value, Compare::LT),
        Validate::Lte { field, value, .. } => cmp_arm(tag, field, value, Compare::LTE),
        Validate::In { field, value, .. } => in_arm(tag, field, value, false),
        Validate::NotIn { field, value, .. } => in_arm(tag, field, value, true),
        Validate::IsNull { field, .. } => {
            let v = tag.get(field.as_str());
            match v {
                Val::Null => true,
                _ => false,
            }
        },
        Validate::IsNotNull { field, .. } => {
            let v = tag.get(field.as_str());
            match v {
                Val::Null => false,
                _ => true,
            }
        },
        Validate::IsNumber { field, value, .. } => {
            let v = tag.get(field.as_str());
            let is_num = match v {
                Val::Num(_) => true,
                _ => false,
            };
            is_num == *value
        },
        Validate::IsString { field, value, .. } => {
            let v = tag.get(field.as_str());
            let is_str = match v {
                Val::Str(_) => true,
                _ => false,
            };
            is_str == *value
        },
        Validate::LenField { field, compare, value, .. } => {
            let v = tag.get(field.as_str());
            let have: Option<i128> = match &v {
                Val::Str(s) => Some(s.as_str().unicode_len() as i128),
                Val::List(items) => {
                    proof {
                        lemma_vals_view(items@);
                    }
                    Some(items.len() as i128)
                },
                _ => None,
            };
            let want: Option<i128> = match value {
                Num::Int(x) => {
                    if -0x8000_0000_0000_0000i128 <= *x && *x <= 0x7FFF_FFFF_FFFF_FFFFi128 {
                        Some(*x)
                    } else {
                        None
                    }
                },
                Num::Dec { .. } => None,
            };
            match compare {
                Compare::EQ => have == want,
                Compare::NE => have != want,
                Compare::GT => crate::matchs::opt_i128_lt_pub(&want, &have),
                Compare::GTE => !crate::matchs::opt_i128_lt_pub(&have, &want),
                Compare::LT => crate::matchs::opt_i128_lt_pub(&have, &want),
                Compare::LTE => !crate::matchs::opt_i128_lt_pub(&want, &have),
            }
        },
        _ => false,
    }
}

/// One ordering comparison of the *tag* record's field against a literal.
fn cmp_arm(tag: &Unstructed, field: &String, value: &Value, c: Compare) -> (r: bool)
    requires
        uv_wf(tag@),
        crate::matchs::lit_wf(value@),
    ensures
        r == spec_cmp_num(spec_get(tag@, field@), lit_to_full(value@), c),
{
    proof {
        crate::dict::lemma_spec_get_wf(tag@, field@);
        lemma_lit_to_full_wf(value@);
    }
    let a = tag.get(field.as_str());
    let b = lit_to_full_exec(value);
    cmp_num_exec(&a, &b, c)
}

/// One membership test of the *tag* record's field in a list literal.
fn in_arm(tag: &Unstructed, field: &String, value: &Value, neg: bool) -> (r: bool)
    requires
        uv_wf(tag@),
        crate::matchs::lit_wf(value@),
    ensures
        !neg ==> r == (match lit_to_full(value@) {
            ValView::List(items) => list_has(items, spec_get(tag@, field@)),
            _ => false,
        }),
        neg ==> r == (match lit_to_full(value@) {
            ValView::List(items) => !list_has(items, spec_get(tag@, field@)),
            _ => false,
        }),
{
    proof {
        crate::dict::lemma_spec_get_wf(tag@, field@);
        lemma_lit_to_full_wf(value@);
    }
    let x = tag.get(field.as_str());
    let full = lit_to_full_exec(value);
    match &full {
        Val::List(items) => {
            proof {
                lemma_vals_view(items@);
                crate::value::lemma_vvs_wf(vals_view(items@));
                assert(full@ == ValView::List(vals_view(items@)));
            }
            let mut found = false;
            let mut j: usize = 0;
            while j < items.len()
                invariant
                    j <= items@.len(),
                    uv_wf(tag@),
                    vv_wf(x@),
                    vv_wf(full@),
                    full@ == ValView::List(vals_view(items@)),
                    x@ == spec_get(tag@, field@),
                    !found ==> forall|k: int|
                        0 <= k < j ==> !vv_eq(#[trigger] vals_view(items@)[k], x@),
                    found ==> list_has(vals_view(items@), x@),
                decreases items@.len() - j,
            {
                if !found {
                    proof {
                        assert(vals_view(items@)[j as int] == items@[j as int]@);
                        assert(vv_wf(vals_view(items@)[j as int]));
                    }
                    if val_eq(&items[j], &x) {
                        found = true;
                    }
                }
                j = j + 1;
            }
            if neg {
                !found
            } else {
                found
            }
        },
        _ => false,
    }
}

} // verus!
