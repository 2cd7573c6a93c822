//! The in-memory matcher: evaluates a parsed filter expression directly
//! against semi-structured records.

use vstd::prelude::*;

use crate::cond::{lemma_values_view, value_view, values_view, Compare, Expr, ExprView, Value, ValueView};
use crate::record::{clone_record, index_of_key, val_eq};
use crate::text::{str_eq, str_lt, str_lt_exec};
use crate::value::{
    lemma_entries_view, lemma_vals_view, lookup, num_eq, num_le, num_lt, num_wf, vals_view,
    vv_eq, vv_wf, Num, Unstructed, Val, ValView,
};

verus! {

/// What matching the pattern `pat` anywhere in `text` returns: `None` when
/// the pattern is not a valid regular expression, otherwise whether it
/// matches.  The result depends on the two strings alone.
pub uninterp spec fn regex_match(pat: Seq<char>, text: Seq<char>) -> Option<bool>;

/// Relies on `regex::Regex::new` and `regex::Regex::is_match`: whether the
/// pattern compiles, and whether it matches somewhere in the text, depend on
/// the two strings alone.
#[verifier::external_body]
fn regex_is_match(pattern: &str, text: &str) -> (r: Option<bool>)
    ensures
        r == regex_match(pattern@, text@),
{
    match regex::Regex::new(pattern) {
        Ok(re) => Some(re.is_match(text)),
        Err(_) => None,
    }
}

/// Well-formedness of a literal: every number it holds is in bounds.
pub open spec fn lit_wf(v: ValueView) -> bool
    decreases v,
{
    match v {
        ValueView::Number(n) => num_wf(n),
        ValueView::List(items) => lits_wf(items),
        _ => true,
    }
}

/// Well-formedness of every element of a list literal.
pub open spec fn lits_wf(items: Seq<ValueView>) -> bool
    decreases items,
{
    items.len() == 0 || (lit_wf(items[0]) && lits_wf(items.subrange(1, items.len() as int)))
}

/// `lits_wf` holds exactly when every element is well-formed.
pub proof fn lemma_lits_wf(items: Seq<ValueView>)
    ensures
        lits_wf(items) <==> (forall|i: int| 0 <= i < items.len() ==> lit_wf(#[trigger] items[i])),
    decreases items,
{
    if items.len() > 0 {
        let tail = items.subrange(1, items.len() as int);
        lemma_lits_wf(tail);
        assert(forall|i: int| 1 <= i < items.len() ==> items[i] == tail[i - 1]);
    }
}

/// Well-formedness of an expression: every number literal in it is in bounds.
pub open spec fn expr_wf(e: ExprView) -> bool
    decreases e,
{
    match e {
        ExprView::And { lhs, rhs, .. } => expr_wf(*lhs) && expr_wf(*rhs),
        ExprView::Or { lhs, rhs, .. } => expr_wf(*lhs) && expr_wf(*rhs),
        ExprView::Eq { value, .. } => lit_wf(value),
        ExprView::Ne { value, .. } => lit_wf(value),
        ExprView::Gt { value, .. } => lit_wf(value),
        ExprView::Gte { value, .. } => lit_wf(value),
        ExprView::Lt { value, .. } => lit_wf(value),
        ExprView::Lte { value, .. } => lit_wf(value),
        ExprView::Like { value, .. } => lit_wf(value),
        ExprView::NotLike { value, .. } => lit_wf(value),
        ExprView::In { value, .. } => lit_wf(value),
        ExprView::NotIn { value, .. } => lit_wf(value),
        ExprView::IsNull { .. } => true,
        ExprView::IsNotNull { .. } => true,
        ExprView::Len { value, .. } => lit_wf(value),
        ExprView::Belong { value, .. } => lit_wf(value),
        ExprView::NoBelong { value, .. } => lit_wf(value),
    }
}

/// A list literal element carried over to the value world, as the
/// set-containment operators do it: text becomes a string, a number stays a
/// number, anything else becomes null.
pub open spec fn lit_to_vv(v: ValueView) -> ValView {
    match v {
        ValueView::Text(s) => ValView::Str(s),
        ValueView::Number(n) => ValView::Num(n),
        _ => ValView::Null,
    }
}

/// Whether some element of the list literal `vs`, carried to the value
/// world, is semantically equal to `x`.
pub open spec fn lit_list_contains(vs: Seq<ValueView>, x: ValView) -> bool {
    exists|j: int| 0 <= j < vs.len() && vv_eq(x, lit_to_vv(#[trigger] vs[j]))
}

/// The number `n` as a machine integer, when it is an integer in `i64`
/// range; decimals and out-of-range integers have none.
pub open spec fn num_as_i64(n: Num) -> Option<int> {
    match n {
        Num::Int(v) => if -0x8000_0000_0000_0000 <= v <= 0x7FFF_FFFF_FFFF_FFFF {
            Some(v as int)
        } else {
            None
        },
        Num::Dec { .. } => None,
    }
}

/// Strict order on optional integers, with `None` before every `Some`.
pub open spec fn opt_lt(a: Option<int>, b: Option<int>) -> bool {
    match (a, b) {
        (Option::None, Option::None) => false,
        (Option::None, Option::Some(_)) => true,
        (Option::Some(_), Option::None) => false,
        (Option::Some(x), Option::Some(y)) => x < y,
    }
}

/// The length the matcher assigns to a field value: character count of a
/// string, element count of a list, entry count of a record; other shapes
/// have none.
pub open spec fn field_len(v: ValView) -> Option<int> {
    match v {
        ValView::Str(s) => Some(s.len() as int),
        ValView::List(items) => Some(items.len() as int),
        ValView::Obj(es) => Some(es.len() as int),
        _ => None,
    }
}

/// The list of values a field holds; empty when the field is missing or not
/// a list.
pub open spec fn field_list(es: Seq<(Seq<char>, ValView)>, field: Seq<char>) -> Seq<ValView> {
    match crate::value::spec_get_opt(es, field) {
        Option::Some(ValView::List(items)) => items,
        _ => Seq::<ValView>::empty(),
    }
}

/// The `Belong` semantics: the field holds a non-empty list, the literal
/// list is non-empty, and every element of the field appears in the literal
/// list.
pub open spec fn spec_belong(
    es: Seq<(Seq<char>, ValView)>,
    field: Seq<char>,
    vs: Seq<ValueView>,
) -> bool {
    &&& field_list(es, field).len() > 0
    &&& vs.len() > 0
    &&& forall|k: int|
        0 <= k < field_list(es, field).len() ==> lit_list_contains(
            vs,
            #[trigger] field_list(es, field)[k],
        )
}

/// The `NoBelong` semantics: the field holds a non-empty list, the literal
/// list is non-empty, and some element of the field is missing from the
/// literal list.
pub open spec fn spec_no_belong(
    es: Seq<(Seq<char>, ValView)>,
    field: Seq<char>,
    vs: Seq<ValueView>,
) -> bool {
    &&& field_list(es, field).len() > 0
    &&& vs.len() > 0
    &&& exists|k: int|
        0 <= k < field_list(es, field).len() && !lit_list_contains(
            vs,
            #[trigger] field_list(es, field)[k],
        )
}

/// A literal the equality operators compare: text, number or boolean.
pub open spec fn scalar_lit(v: ValueView) -> bool {
    v is Text || v is Number || v is Bool
}

/// Whether the value found at the field equals the scalar literal: the
/// shapes must match and the contents be equal; a missing field equals
/// nothing.
pub open spec fn scalar_eq(rv: Option<ValView>, v: ValueView) -> bool {
    match rv {
        Option::Some(s) => match v {
            ValueView::Text(t) => s is Str && s->Str_0 == t,
            ValueView::Number(t) => s is Num && num_eq(s->Num_0, t),
            ValueView::Bool(t) => s is Bool && s->Bool_0 == t,
            _ => false,
        },
        Option::None => false,
    }
}

/// Whether the record `es` satisfies the expression `e`.
///
/// This is the semantics of the matcher, node by node: `And`/`Or` are
/// Boolean; the comparisons follow the field's dotted path, as the compiled
/// backend form does; `Eq` needs a like-shaped equal value, and `Ne` holds
/// whenever `Eq` does not — on a differing value, a differently shaped one,
/// or a missing field; the orderings need matching shapes; `Like` runs the
/// regular expression; `In`/`NotIn` scan the list for a same-shaped equal
/// element; `IsNull` counts a missing field as null; `Len` measures the
/// field, a missing one measuring zero; `Belong` and `NoBelong` are set
/// containment of the field's elements in the list.
pub open spec fn spec_matches(es: Seq<(Seq<char>, ValView)>, e: ExprView) -> bool
    decreases e,
{
    match e {
        ExprView::And { lhs, rhs, .. } => spec_matches(es, *lhs) && spec_matches(es, *rhs),
        ExprView::Or { lhs, rhs, .. } => spec_matches(es, *lhs) || spec_matches(es, *rhs),
        ExprView::Eq { field, value, .. } => scalar_eq(crate::value::spec_get_opt(es, field), value),
        ExprView::Ne { field, value, .. } => scalar_lit(value) && !scalar_eq(
            crate::value::spec_get_opt(es, field),
            value,
        ),
        ExprView::Gt { field, value, .. } => match crate::value::spec_get_opt(es, field) {
            Option::Some(s) => match value {
                ValueView::Number(t) => s is Num && num_lt(t, s->Num_0),
                ValueView::Text(t) => s is Str && str_lt(t, s->Str_0),
                _ => false,
            },
            Option::None => false,
        },
        ExprView::Gte { field, value, .. } => match crate::value::spec_get_opt(es, field) {
            Option::Some(s) => match value {
                ValueView::Number(t) => s is Num && num_le(t, s->Num_0),
                ValueView::Text(t) => s is Str && !str_lt(s->Str_0, t),
                _ => false,
            },
            Option::None => false,
        },
        ExprView::Lt { field, value, .. } => match crate::value::spec_get_opt(es, field) {
            Option::Some(s) => match value {
                ValueView::Number(t) => s is Num && num_lt(s->Num_0, t),
                ValueView::Text(t) => s is Str && str_lt(s->Str_0, t),
                _ => false,
            },
            Option::None => false,
        },
        ExprView::Lte { field, value, .. } => match crate::value::spec_get_opt(es, field) {
            Option::Some(s) => match value {
                ValueView::Number(t) => s is Num && num_le(s->Num_0, t),
                ValueView::Text(t) => s is Str && !str_lt(t, s->Str_0),
                _ => false,
            },
            Option::None => false,
        },
        ExprView::Like { field, value, .. } => match crate::value::spec_get_opt(es, field) {
            Option::Some(s) => match value {
                ValueView::Text(t) => s is Str && regex_match(t, s->Str_0) == Some(true),
                _ => false,
            },
            Option::None => false,
        },
        ExprView::NotLike { field, value, .. } => match crate::value::spec_get_opt(es, field) {
            Option::Some(s) => match value {
                ValueView::Text(t) => s is Str && regex_match(t, s->Str_0) == Some(false),
                _ => false,
            },
            Option::None => false,
        },
        ExprView::In { field, value, .. } => match value {
            ValueView::List(vs) => match crate::value::spec_get_opt(es, field) {
                Option::Some(s) => match s {
                    ValView::Num(n) => exists|k: int|
                        0 <= k < vs.len() && ((#[trigger] vs[k]) matches ValueView::Number(t)
                            && num_eq(t, n)),
                    ValView::Str(x) => exists|k: int|
                        0 <= k < vs.len() && ((#[trigger] vs[k]) matches ValueView::Text(t)
                            && t == x),
                    _ => false,
                },
                Option::None => false,
            },
            _ => false,
        },
        ExprView::NotIn { field, value, .. } => match value {
            ValueView::List(vs) => match crate::value::spec_get_opt(es, field) {
                Option::Some(s) => match s {
                    ValView::Num(n) => forall|k: int|
                        0 <= k < vs.len() && (#[trigger] vs[k]) is Number ==> !num_eq(
                            vs[k]->Number_0,
                            n,
                        ),
                    ValView::Str(x) => forall|k: int|
                        0 <= k < vs.len() && (#[trigger] vs[k]) is Text ==> vs[k]->Text_0 != x,
                    _ => false,
                },
                Option::None => false,
            },
            _ => false,
        },
        ExprView::IsNull { field, .. } => match crate::value::spec_get_opt(es, field) {
            Option::Some(s) => s is Null,
            Option::None => true,
        },
        ExprView::IsNotNull { field, .. } => match crate::value::spec_get_opt(es, field) {
            Option::Some(s) => !(s is Null),
            Option::None => false,
        },
        ExprView::Len { field, cmp, value, .. } => match value {
            ValueView::Number(n) => {
                let want = num_as_i64(n);
                let have = match crate::value::spec_get_opt(es, field) {
                    Option::Some(s) => field_len(s),
                    Option::None => Some(0int),
                };
                match have {
                    Option::None => false,
                    Option::Some(hn) => match cmp {
                        Compare::Eq => want == Some(hn),
                        Compare::Ne => want != Some(hn),
                        Compare::Gt => opt_lt(want, Some(hn)),
                        Compare::Gte => !opt_lt(Some(hn), want),
                        Compare::Lt => opt_lt(Some(hn), want),
                        Compare::Lte => !opt_lt(want, Some(hn)),
                    },
                }
            },
            _ => false,
        },
        ExprView::Belong { field, value, .. } => match value {
            ValueView::List(vs) => spec_belong(es, field, vs),
            _ => false,
        },
        ExprView::NoBelong { field, value, .. } => match value {
            ValueView::List(vs) => spec_no_belong(es, field, vs),
            _ => true,
        },
    }
}

} // verus!

verus! {

/// An element of a well-formed list literal is well-formed.
proof fn lemma_lit_wf_elem(vs: Seq<ValueView>, j: int)
    requires
        lit_wf(ValueView::List(vs)),
        0 <= j < vs.len(),
    ensures
        lit_wf(vs[j]),
{
    lemma_lits_wf(vs);
}

/// An element of a well-formed list value is well-formed.
proof fn lemma_vv_wf_elem(items: Seq<ValView>, j: int)
    requires
        vv_wf(ValView::List(items)),
        0 <= j < items.len(),
    ensures
        vv_wf(items[j]),
{
    crate::value::lemma_vvs_wf(items);
}

/// A list literal element carried to the value world; see [`lit_to_vv`].
fn lit_to_val(v: &Value) -> (r: Val)
    ensures
        r@ == lit_to_vv(v@),
        crate::value::vv_wf(r@) <== lit_wf(v@),
{
    match v {
        Value::Text(s) => Val::Str(s.clone()),
        Value::Number(n) => Val::Num(*n),
        _ => Val::Null,
    }
}

/// Scans the field's list against the list literal, as the two
/// set-containment operators share it: whether both sides are non-empty,
/// and whether `Belong` holds.
fn belong_scan(unstructed: &Unstructed, field: &String, vs: &Vec<Value>) -> (r: (bool, bool))
    requires
        vv_wf(ValView::Obj(unstructed@)),
        lits_wf(values_view(vs@)),
    ensures
        r.1 == spec_belong(unstructed@, field@, values_view(vs@)),
        (r.0 && !r.1) == spec_no_belong(unstructed@, field@, values_view(vs@)),
{
    proof {
        lemma_values_view(vs@);
        crate::value::lemma_get_opt_wf(unstructed@, field@);
    }
    let empty_items: Vec<Val> = Vec::new();
    let ghost lhs_spec = field_list(unstructed@, field@);
    proof {
        assert(vals_view(empty_items@) =~= Seq::<ValView>::empty());
    }
    let found = crate::record::dotted_lookup(unstructed, field.as_str());
    let items: &Vec<Val>;
    match found {
        Some(s) => match s {
            Val::List(l) => {
                proof {
                    assert(lhs_spec == vals_view(l@));
                    assert(vv_wf(ValView::List(vals_view(l@))));
                }
                items = l;
            },
            _ => {
                proof {
                    assert(lhs_spec =~= Seq::<ValView>::empty());
                }
                items = &empty_items;
            },
        },
        None => {
            proof {
                assert(lhs_spec =~= Seq::<ValView>::empty());
            }
            items = &empty_items;
        },
    }
    proof {
        lemma_vals_view(items@);
        assert(lhs_spec == vals_view(items@));
        assert(vv_wf(ValView::List(vals_view(items@))));
    }
    if items.len() == 0 || vs.len() == 0 {
        return (false, false);
    }
    let mut k: usize = 0;
    while k < items.len()
        invariant
            k <= items@.len(),
            forall|kk: int|
                0 <= kk < k ==> lit_list_contains(
                    values_view(vs@),
                    #[trigger] vals_view(items@)[kk],
                ),
        decreases items@.len() - k,
    {
        let mut hit = false;
        let mut j: usize = 0;
        while j < vs.len()
            invariant
                j <= vs@.len(),
                k < items@.len(),
                !hit ==> forall|jj: int|
                    0 <= jj < j ==> !vv_eq(
                        vals_view(items@)[k as int],
                        lit_to_vv(#[trigger] values_view(vs@)[jj]),
                    ),
                hit ==> lit_list_contains(values_view(vs@), vals_view(items@)[k as int]),
            decreases vs@.len() - j,
        {
            if !hit {
                proof {
                    lemma_lit_wf_elem(values_view(vs@), j as int);
                    assert(values_view(vs@)[j as int] == vs@[j as int]@);
                    lemma_vv_wf_elem(vals_view(items@), k as int);
                    assert(vals_view(items@)[k as int] == items@[k as int]@);
                }
                let cand = lit_to_val(&vs[j]);
                if val_eq(&items[k], &cand) {
                    hit = true;
                }
            }
            j = j + 1;
        }
        if !hit {
            proof {
                assert(forall|jj: int|
                    0 <= jj < values_view(vs@).len() ==> !vv_eq(
                        vals_view(items@)[k as int],
                        lit_to_vv(#[trigger] values_view(vs@)[jj]),
                    ));
                assert(!lit_list_contains(values_view(vs@), lhs_spec[k as int]));
                assert(exists|kk: int|
                    0 <= kk < lhs_spec.len() && !lit_list_contains(
                        values_view(vs@),
                        #[trigger] lhs_spec[kk],
                    ));
            }
            return (true, false);
        }
        k = k + 1;
    }
    (true, true)
}

/// Whether the record satisfies the expression; the executable matcher.
/// See [`spec_matches`] for the semantics, node by node.
#[verifier::rlimit(100)]
pub fn filter(unstructed: &Unstructed, expr: &Expr) -> (r: bool)
    requires
        vv_wf(ValView::Obj(unstructed@)),
        expr_wf(expr@),
    ensures
        r == spec_matches(unstructed@, expr@),
    decreases *expr,
{
    match expr {
        Expr::And { lhs, rhs, .. } => filter(unstructed, lhs) && filter(unstructed, rhs),
        Expr::Or { lhs, rhs, .. } => filter(unstructed, lhs) || filter(unstructed, rhs),
        Expr::Eq { field, value, .. } => {
            proof {
                crate::value::lemma_get_opt_wf(unstructed@, field@);
            }
            match crate::record::dotted_lookup(unstructed, field.as_str()) {
                Some(s) => match value {
                    Value::Text(t) => match s {
                        Val::Str(x) => str_eq(x.as_str(), t.as_str()),
                        _ => false,
                    },
                    Value::Number(t) => match s {
                        Val::Num(n) => n.eq_num(t),
                        _ => false,
                    },
                    Value::Bool(t) => match s {
                        Val::Bool(b) => b == t,
                        _ => false,
                    },
                    _ => false,
                },
                None => false,
            }
        },
        Expr::Ne { field, value, .. } => {
            proof {
                crate::value::lemma_get_opt_wf(unstructed@, field@);
            }
            match value {
                Value::Text(_) | Value::Number(_) | Value::Bool(_) => {
                    match crate::record::dotted_lookup(unstructed, field.as_str()) {
                        Some(s) => match value {
                            Value::Text(t) => match s {
                                Val::Str(x) => !str_eq(x.as_str(), t.as_str()),
                                _ => true,
                            },
                            Value::Number(t) => match s {
                                Val::Num(n) => !n.eq_num(t),
                                _ => true,
                            },
                            Value::Bool(t) => match s {
                                Val::Bool(b) => b != t,
                                _ => true,
                            },
                            _ => true,
                        },
                        None => true,
                    }
                },
                _ => false,
            }
        },
        Expr::Gt { field, value, .. } => {
            proof {
                crate::value::lemma_get_opt_wf(unstructed@, field@);
            }
            match crate::record::dotted_lookup(unstructed, field.as_str()) {
                Some(s) => match value {
                    Value::Number(t) => match s {
                        Val::Num(n) => t.lt(n),
                        _ => false,
                    },
                    Value::Text(t) => match s {
                        Val::Str(x) => str_lt_exec(t.as_str(), x.as_str()),
                        _ => false,
                    },
                    _ => false,
                },
                None => false,
            }
        },
        Expr::Gte { field, value, .. } => {
            proof {
                crate::value::lemma_get_opt_wf(unstructed@, field@);
            }
            match crate::record::dotted_lookup(unstructed, field.as_str()) {
                Some(s) => match value {
                    Value::Number(t) => match s {
                        Val::Num(n) => t.le(n),
                        _ => false,
                    },
                    Value::Text(t) => match s {
                        Val::Str(x) => !str_lt_exec(x.as_str(), t.as_str()),
                        _ => false,
                    },
                    _ => false,
                },
                None => false,
            }
        },
        Expr::Lt { field, value, .. } => {
            proof {
                crate::value::lemma_get_opt_wf(unstructed@, field@);
            }
            match crate::record::dotted_lookup(unstructed, field.as_str()) {
                Some(s) => match value {
                    Value::Number(t) => match s {
                        Val::Num(n) => n.lt(t),
                        _ => false,
                    },
                    Value::Text(t) => match s {
                        Val::Str(x) => str_lt_exec(x.as_str(), t.as_str()),
                        _ => false,
                    },
                    _ => false,
                },
                None => false,
            }
        },
        Expr::Lte { field, value, .. } => {
            proof {
                crate::value::lemma_get_opt_wf(unstructed@, field@);
            }
            match crate::record::dotted_lookup(unstructed, field.as_str()) {
                Some(s) => match value {
                    Value::Number(t) => match s {
                        Val::Num(n) => n.le(t),
                        _ => false,
                    },
                    Value::Text(t) => match s {
                        Val::Str(x) => !str_lt_exec(t.as_str(), x.as_str()),
                        _ => false,
                    },
                    _ => false,
                },
                None => false,
            }
        },
        Expr::Like { field, value, .. } => {
            match crate::record::dotted_lookup(unstructed, field.as_str()) {
                Some(s) => match value {
                    Value::Text(t) => match s {
                        Val::Str(x) => regex_is_match(t.as_str(), x.as_str()) == Some(true),
                        _ => false,
                    },
                    _ => false,
                },
                None => false,
            }
        },
        Expr::NotLike { field, value, .. } => {
            match crate::record::dotted_lookup(unstructed, field.as_str()) {
                Some(s) => match value {
                    Value::Text(t) => match s {
                        Val::Str(x) => regex_is_match(t.as_str(), x.as_str()) == Some(false),
                        _ => false,
                    },
                    _ => false,
                },
                None => false,
            }
        },
        Expr::In { field, value, .. } => match value {
            Value::List(vs) => {
                proof {
                    lemma_values_view(vs@);
                }
                match crate::record::dotted_lookup(unstructed, field.as_str()) {
                    Some(s) => match s {
                        Val::Num(n) => {
                            proof {
                                crate::value::lemma_get_opt_wf(unstructed@, field@);
                            }
                            let mut k: usize = 0;
                            while k < vs.len()
                                invariant
                                    k <= vs@.len(),
                                    forall|j: int|
                                        0 <= j < k ==> !((#[trigger] values_view(vs@)[j])
                                            matches ValueView::Number(t) && num_eq(t, *n)),
                                decreases vs@.len() - k,
                            {
                                proof {
                                    assert(value_view(*value) == ValueView::List(values_view(vs@)));
                                    lemma_lit_wf_elem(values_view(vs@), k as int);
                                    assert(values_view(vs@)[k as int] == vs@[k as int]@);
                                }
                                match &vs[k] {
                                    Value::Number(t) => {
                                        if t.eq_num(n) {
                                            return true;
                                        }
                                    },
                                    _ => {},
                                }
                                k = k + 1;
                            }
                            false
                        },
                        Val::Str(x) => {
                            let mut k: usize = 0;
                            while k < vs.len()
                                invariant
                                    k <= vs@.len(),
                                    forall|j: int|
                                        0 <= j < k ==> !((#[trigger] values_view(vs@)[j])
                                            matches ValueView::Text(t) && t == x@),
                                decreases vs@.len() - k,
                            {
                                proof {
                                    assert(values_view(vs@)[k as int] == vs@[k as int]@);
                                }
                                match &vs[k] {
                                    Value::Text(t) => {
                                        if str_eq(t.as_str(), x.as_str()) {
                                            return true;
                                        }
                                    },
                                    _ => {},
                                }
                                k = k + 1;
                            }
                            false
                        },
                        _ => false,
                    },
                    None => false,
                }
            },
            _ => false,
        },
        Expr::NotIn { field, value, .. } => match value {
            Value::List(vs) => {
                proof {
                    lemma_values_view(vs@);
                }
                match crate::record::dotted_lookup(unstructed, field.as_str()) {
                    Some(s) => match s {
                        Val::Num(n) => {
                            proof {
                                crate::value::lemma_get_opt_wf(unstructed@, field@);
                            }
                            let mut k: usize = 0;
                            while k < vs.len()
                                invariant
                                    k <= vs@.len(),
                                    forall|j: int|
                                        0 <= j < k ==> ((#[trigger] values_view(vs@)[j]) is Number
                                            ==> !num_eq(values_view(vs@)[j]->Number_0, *n)),
                                decreases vs@.len() - k,
                            {
                                proof {
                                    assert(value_view(*value) == ValueView::List(values_view(vs@)));
                                    lemma_lit_wf_elem(values_view(vs@), k as int);
                                    assert(values_view(vs@)[k as int] == vs@[k as int]@);
                                }
                                match &vs[k] {
                                    Value::Number(t) => {
                                        if t.eq_num(n) {
                                            return false;
                                        }
                                    },
                                    _ => {},
                                }
                                k = k + 1;
                            }
                            true
                        },
                        Val::Str(x) => {
                            let mut k: usize = 0;
                            while k < vs.len()
                                invariant
                                    k <= vs@.len(),
                                    forall|j: int|
                                        0 <= j < k ==> ((#[trigger] values_view(vs@)[j]) is Text
                                            ==> values_view(vs@)[j]->Text_0 != x@),
                                decreases vs@.len() - k,
                            {
                                proof {
                                    assert(values_view(vs@)[k as int] == vs@[k as int]@);
                                }
                                match &vs[k] {
                                    Value::Text(t) => {
                                        if str_eq(t.as_str(), x.as_str()) {
                                            return false;
                                        }
                                    },
                                    _ => {},
                                }
                                k = k + 1;
                            }
                            true
                        },
                        _ => false,
                    },
                    None => false,
                }
            },
            _ => false,
        },
        Expr::IsNull { field, .. } => match crate::record::dotted_lookup(unstructed, field.as_str()) {
            Some(s) => match s {
                Val::Null => true,
                _ => false,
            },
            None => true,
        },
        Expr::IsNotNull { field, .. } => match crate::record::dotted_lookup(unstructed, field.as_str()) {
            Some(s) => match s {
                Val::Null => false,
                _ => true,
            },
            None => false,
        },
        Expr::Len { field, cmp, value, .. } => match value {
            Value::Number(n) => {
                let want: Option<i128> = match n {
                    Num::Int(v) => {
                        if -0x8000_0000_0000_0000i128 <= *v && *v <= 0x7FFF_FFFF_FFFF_FFFFi128 {
                            Some(*v)
                        } else {
                            None
                        }
                    },
                    Num::Dec { .. } => None,
                };
                let found = crate::record::dotted_lookup(unstructed, field.as_str());
                let have: Option<i128> = match found {
                    Some(s) => match s {
                        Val::Str(x) => Some(x.as_str().unicode_len() as i128),
                        Val::List(items) => {
                            proof {
                                lemma_vals_view(items@);
                            }
                            Some(items.len() as i128)
                        },
                        Val::Obj(m) => {
                            proof {
                                lemma_entries_view(m.entries@);
                            }
                            Some(m.entries.len() as i128)
                        },
                        _ => None,
                    },
                    None => Some(0),
                };
                match have {
                    None => false,
                    Some(hn) => match cmp {
                        Compare::Eq => want == Some(hn),
                        Compare::Ne => want != Some(hn),
                        Compare::Gt => opt_i128_lt_pub(&want, &Some(hn)),
                        Compare::Gte => !opt_i128_lt_pub(&Some(hn), &want),
                        Compare::Lt => opt_i128_lt_pub(&Some(hn), &want),
                        Compare::Lte => !opt_i128_lt_pub(&want, &Some(hn)),
                    },
                }
            },
            _ => false,
        },
        Expr::Belong { field, value, .. } => match value {
            Value::List(vs) => {
                proof {
                    assert(value_view(*value) == ValueView::List(values_view(vs@)));
                }
                belong_scan(unstructed, field, vs).1
            },
            _ => false,
        },
        Expr::NoBelong { field, value, .. } => match value {
            Value::List(vs) => {
                proof {
                    assert(value_view(*value) == ValueView::List(values_view(vs@)));
                }
                let (lens_ok, all_in) = belong_scan(unstructed, field, vs);
                lens_ok && !all_in
            },
            _ => true,
        },
    }
}

/// Strict order on optional integers, with `None` before every `Some`.
pub fn opt_i128_lt_pub(a: &Option<i128>, b: &Option<i128>) -> (r: bool)
    ensures
        r == opt_lt(
            match a {
                Some(x) => Some(*x as int),
                None => None,
            },
            match b {
                Some(y) => Some(*y as int),
                None => None,
            },
        ),
{
    match (a, b) {
        (None, None) => false,
        (None, Some(_)) => true,
        (Some(_), None) => false,
        (Some(x), Some(y)) => x < y,
    }
}

} // verus!

verus! {

/// The models of a sequence of records, element by element.
pub open spec fn recs_view(s: Seq<Unstructed>) -> Seq<Seq<(Seq<char>, ValView)>>
    decreases s,
{
    if s.len() == 0 {
        Seq::empty()
    } else {
        seq![s[0]@] + recs_view(s.subrange(1, s.len() as int))
    }
}

/// Element `i` of `recs_view(s)` is the model of record `i` of `s`.
pub proof fn lemma_recs_view(s: Seq<Unstructed>)
    ensures
        recs_view(s).len() == s.len(),
        forall|i: int| 0 <= i < s.len() ==> recs_view(s)[i] == s[i]@,
    decreases s,
{
    if s.len() > 0 {
        lemma_recs_view(s.subrange(1, s.len() as int));
    }
}

/// The records that satisfy `e`, kept in their original order.
pub open spec fn spec_matchs(
    rs: Seq<Seq<(Seq<char>, ValView)>>,
    e: ExprView,
) -> Seq<Seq<(Seq<char>, ValView)>>
    decreases rs,
{
    if rs.len() == 0 {
        Seq::empty()
    } else {
        (if spec_matches(rs[0], e) {
            seq![rs[0]]
        } else {
            Seq::empty()
        }) + spec_matchs(rs.subrange(1, rs.len() as int), e)
    }
}

/// Filtering distributes over appending one record at the end.
pub proof fn lemma_spec_matchs_push(
    rs: Seq<Seq<(Seq<char>, ValView)>>,
    x: Seq<(Seq<char>, ValView)>,
    e: ExprView,
)
    ensures
        spec_matchs(rs.push(x), e) == spec_matchs(rs, e) + (if spec_matches(x, e) {
            seq![x]
        } else {
            Seq::empty()
        }),
    decreases rs,
{
    if rs.len() == 0 {
        reveal_with_fuel(spec_matchs, 3);
        assert(rs.push(x)[0] == x);
        assert(rs.push(x).subrange(1, 1) =~= Seq::empty());
        assert(rs.push(x).subrange(1, 1) =~= rs);
        assert(spec_matchs(rs.push(x), e) =~= spec_matchs(rs, e) + (if spec_matches(x, e) {
            seq![x]
        } else {
            Seq::empty()
        }));
    } else {
        let tail = rs.subrange(1, rs.len() as int);
        lemma_spec_matchs_push(tail, x, e);
        assert(rs.push(x)[0] == rs[0]);
        assert(rs.push(x).subrange(1, rs.len() as int + 1) =~= tail.push(x));
        assert(spec_matchs(rs.push(x), e) =~= spec_matchs(rs, e) + (if spec_matches(x, e) {
            seq![x]
        } else {
            Seq::empty()
        }));
    }
}

/// Keeps exactly the records that satisfy the expression, in their original
/// order.
pub fn matchs(unstructeds: &mut Vec<Unstructed>, expr: &Expr)
    requires
        forall|i: int|
            0 <= i < old(unstructeds)@.len() ==> crate::value::uv_wf(
                (#[trigger] old(unstructeds)@[i])@,
            ),
        expr_wf(expr@),
    ensures
        recs_view(final(unstructeds)@) == spec_matchs(recs_view(old(unstructeds)@), expr@),
{
    let mut out: Vec<Unstructed> = Vec::new();
    let mut i: usize = 0;
    proof {
        lemma_recs_view(unstructeds@);
        assert(unstructeds@.subrange(0, 0) =~= Seq::empty());
        assert(recs_view(out@) =~= spec_matchs(recs_view(unstructeds@.subrange(0, 0)), expr@));
    }
    while i < unstructeds.len()
        invariant
            i <= unstructeds@.len(),
            unstructeds@ == old(unstructeds)@,
            recs_view(out@) == spec_matchs(recs_view(unstructeds@.subrange(0, i as int)), expr@),
        decreases unstructeds@.len() - i,
    {
        let ghost pre = unstructeds@.subrange(0, i as int);
        let ghost pre_out = out@;
        if filter(&unstructeds[i], expr) {
            out.push(clone_record(&unstructeds[i]));
        }
        i = i + 1;
        proof {
            lemma_recs_view(pre);
            lemma_recs_view(pre.push(unstructeds@[i - 1]));
            lemma_recs_view(pre_out);
            lemma_recs_view(out@);
            assert(unstructeds@.subrange(0, i as int) =~= pre.push(unstructeds@[i - 1]));
            assert(recs_view(pre.push(unstructeds@[i - 1])) =~= recs_view(pre).push(
                unstructeds@[i - 1]@,
            ));
            lemma_spec_matchs_push(recs_view(pre), unstructeds@[i - 1]@, expr@);
            assert(recs_view(out@) =~= recs_view(pre_out) + (if spec_matches(
                unstructeds@[i - 1]@,
                expr@,
            ) {
                seq![unstructeds@[i - 1]@]
            } else {
                Seq::empty()
            }));
        }
    }
    proof {
        assert(unstructeds@.subrange(0, unstructeds@.len() as int) =~= unstructeds@);
    }
    *unstructeds = out;
}

} // verus!

verus! {

/// A well-formed element appended to a well-formed list keeps it well-formed.
pub proof fn lemma_lits_wf_push(vs: Seq<ValueView>, v: ValueView)
    requires
        lits_wf(vs),
        lit_wf(v),
    ensures
        lits_wf(vs.push(v)),
{
    lemma_lits_wf(vs);
    lemma_lits_wf(vs.push(v));
    assert(forall|i: int| 0 <= i < vs.len() ==> vs.push(v)[i] == vs[i]);
    assert(vs.push(v)[vs.len() as int] == v);
}

} // verus!

verus! {

/// **Matcher consistency.**  A batch holding one record keeps that record
/// exactly when the record satisfies the expression: filtering a singleton
/// answers the same question as evaluating the expression against the
/// record.
pub proof fn lemma_matcher_consistency(r: Seq<(Seq<char>, ValView)>, e: ExprView)
    ensures
        spec_matchs(seq![r], e) == (if spec_matches(r, e) {
            seq![r]
        } else {
            Seq::<Seq<(Seq<char>, ValView)>>::empty()
        }),
{
    assert(seq![r][0] == r);
    assert(seq![r].subrange(1, 1) =~= Seq::<Seq<(Seq<char>, ValView)>>::empty());
    assert(spec_matchs(Seq::<Seq<(Seq<char>, ValView)>>::empty(), e) =~= Seq::<
        Seq<(Seq<char>, ValView)>,
    >::empty());
    if spec_matches(r, e) {
        assert(spec_matchs(seq![r], e) =~= seq![r]);
    } else {
        assert(spec_matchs(seq![r], e) =~= Seq::<Seq<(Seq<char>, ValView)>>::empty());
    }
}

} // verus!
