//! The dynamic value model: numbers, values and semi-structured records.

use vstd::prelude::*;

verus! {

/// A numeric value.
///
/// `Int` holds an integer; `Dec` holds a number that was written with a
/// fractional part and denotes the rational `mant / 10^scale`.  The two forms
/// are kept apart so that a decimal never tests *equal* to an integer under
/// [`num_eq`], while the ordering operators compare the denoted rationals.
#[derive(Clone, Copy, Debug, PartialEq, Eq, Structural)]
pub enum Num {
    Int(i128),
    Dec { mant: i64, scale: u32 },
}

/// `10^e`, in unbounded arithmetic.
pub open spec fn pow10(e: nat) -> int
    decreases e,
{
    if e == 0 {
        1
    } else {
        10 * pow10((e - 1) as nat)
    }
}

/// The numerator of the rational a `Num` denotes.
pub open spec fn num_mant(n: Num) -> int {
    match n {
        Num::Int(v) => v as int,
        Num::Dec { mant, .. } => mant as int,
    }
}

/// The power-of-ten denominator exponent of the rational a `Num` denotes.
pub open spec fn num_scale(n: Num) -> nat {
    match n {
        Num::Int(_) => 0,
        Num::Dec { scale, .. } => scale as nat,
    }
}

/// Bounds that every number held by a record or a parsed filter satisfies:
/// integers fit the range covered by `i64` and `u64` together, and decimals
/// keep at most eighteen digits of mantissa and eighteen fractional places.
pub open spec fn num_wf(n: Num) -> bool {
    match n {
        Num::Int(v) => -0x8000_0000_0000_0000 <= v <= 0xFFFF_FFFF_FFFF_FFFF,
        Num::Dec { mant, scale } => {
            &&& scale <= 18
            &&& -1_000_000_000_000_000_000 < mant < 1_000_000_000_000_000_000
        },
    }
}

/// `a < b` as rationals: `ma / 10^sa < mb / 10^sb  <==>  ma * 10^sb < mb * 10^sa`.
pub open spec fn num_lt(a: Num, b: Num) -> bool {
    num_mant(a) * pow10(num_scale(b)) < num_mant(b) * pow10(num_scale(a))
}

/// `a <= b` as rationals.
pub open spec fn num_le(a: Num, b: Num) -> bool {
    num_mant(a) * pow10(num_scale(b)) <= num_mant(b) * pow10(num_scale(a))
}

/// Number equality as the matcher applies it: an integer is never equal to a
/// decimal, and two numbers of the same form are equal when they denote the
/// same rational.
pub open spec fn num_eq(a: Num, b: Num) -> bool {
    &&& (a is Int <==> b is Int)
    &&& num_mant(a) * pow10(num_scale(b)) == num_mant(b) * pow10(num_scale(a))
}

proof fn lemma_pow10_pos(e: nat)
    ensures
        pow10(e) >= 1,
    decreases e,
{
    if e > 0 {
        lemma_pow10_pos((e - 1) as nat);
    }
}

proof fn lemma_pow10_mono(a: nat, b: nat)
    requires
        a <= b,
    ensures
        pow10(a) <= pow10(b),
    decreases b,
{
    if a < b {
        lemma_pow10_mono(a, (b - 1) as nat);
        lemma_pow10_pos((b - 1) as nat);
    }
}

proof fn lemma_pow10_bounds(e: nat)
    requires
        e <= 18,
    ensures
        1 <= pow10(e) <= 1_000_000_000_000_000_000,
{
    lemma_pow10_pos(e);
    lemma_pow10_mono(e, 18);
    assert(pow10(18) == 1_000_000_000_000_000_000) by {
        reveal_with_fuel(pow10, 19);
    }
}

proof fn lemma_mul_bound(x: int, y: int, xb: int, yb: int)
    by (nonlinear_arith)
    requires
        -xb <= x <= xb,
        0 <= y <= yb,
        0 <= xb,
    ensures
        -(xb * yb) <= x * y <= xb * yb,
{
}

impl Num {
    /// `10^e` as an `i128`.
    pub fn pow10_i128(e: u32) -> (r: i128)
        requires
            e <= 18,
        ensures
            r == pow10(e as nat),
            1 <= r <= 1_000_000_000_000_000_000,
    {
        proof {
            lemma_pow10_bounds(e as nat);
        }
        let mut r: i128 = 1;
        let mut i: u32 = 0;
        while i < e
            invariant
                i <= e <= 18,
                r == pow10(i as nat),
                1 <= r <= 1_000_000_000_000_000_000,
            decreases e - i,
        {
            proof {
                lemma_pow10_bounds((i + 1) as nat);
            }
            r = r * 10;
            i = i + 1;
        }
        r
    }

    /// The two cross products `ma * 10^sb` and `mb * 10^sa` that compare
    /// `self` and `other` as rationals.
    fn cross(&self, other: &Num) -> (r: (i128, i128))
        requires
            num_wf(*self),
            num_wf(*other),
        ensures
            r.0 == num_mant(*self) * pow10(num_scale(*other)),
            r.1 == num_mant(*other) * pow10(num_scale(*self)),
    {
        let (ma, sa): (i128, u32) = match *self {
            Num::Int(v) => (v, 0),
            Num::Dec { mant, scale } => (mant as i128, scale),
        };
        let (mb, sb): (i128, u32) = match *other {
            Num::Int(v) => (v, 0),
            Num::Dec { mant, scale } => (mant as i128, scale),
        };
        let pa = Self::pow10_i128(sa);
        let pb = Self::pow10_i128(sb);
        proof {
            lemma_mul_bound(ma as int, pb as int, 0x1_0000_0000_0000_0000, 1_000_000_000_000_000_000);
            lemma_mul_bound(mb as int, pa as int, 0x1_0000_0000_0000_0000, 1_000_000_000_000_000_000);
        }
        (ma * pb, mb * pa)
    }

    /// Whether `self` denotes a strictly smaller rational than `other`.
    pub fn lt(&self, other: &Num) -> (r: bool)
        requires
            num_wf(*self),
            num_wf(*other),
        ensures
            r == num_lt(*self, *other),
    {
        let (x, y) = self.cross(other);
        x < y
    }

    /// Whether `self` denotes a rational no greater than `other`.
    pub fn le(&self, other: &Num) -> (r: bool)
        requires
            num_wf(*self),
            num_wf(*other),
        ensures
            r == num_le(*self, *other),
    {
        let (x, y) = self.cross(other);
        x <= y
    }

    /// Number equality as the matcher applies it; see [`num_eq`].
    pub fn eq_num(&self, other: &Num) -> (r: bool)
        requires
            num_wf(*self),
            num_wf(*other),
        ensures
            r == num_eq(*self, *other),
    {
        let same_form = match (self, other) {
            (Num::Int(_), Num::Int(_)) => true,
            (Num::Dec { .. }, Num::Dec { .. }) => true,
            _ => false,
        };
        if !same_form {
            return false;
        }
        let (x, y) = self.cross(other);
        x == y
    }

    /// Builds the decimal `mant / 10^scale`; `None` when it falls outside the
    /// well-formedness bounds.
    pub fn dec(mant: i64, scale: u32) -> (r: Option<Num>)
        ensures
            r == if -1_000_000_000_000_000_000 < mant < 1_000_000_000_000_000_000 && scale <= 18 {
                Some(Num::Dec { mant, scale })
            } else {
                None::<Num>
            },
            r matches Some(n) ==> num_wf(n),
    {
        if -1_000_000_000_000_000_000 < mant && mant < 1_000_000_000_000_000_000 && scale <= 18 {
            Some(Num::Dec { mant, scale })
        } else {
            None
        }
    }

    /// The integer `v` as a `Num`.
    pub fn from_i64(v: i64) -> (r: Num)
        ensures
            r == Num::Int(v as i128),
            num_wf(r),
    {
        Num::Int(v as i128)
    }

    /// The integer `v` as a `Num`.
    pub fn from_u64(v: u64) -> (r: Num)
        ensures
            r == Num::Int(v as i128),
            num_wf(r),
    {
        Num::Int(v as i128)
    }
}

} // verus!

verus! {

/// A dynamically typed value of a semi-structured record: null, boolean,
/// number, string, list, or nested record.
#[derive(Debug)]
pub enum Val {
    Null,
    Bool(bool),
    Num(Num),
    Str(String),
    List(Vec<Val>),
    Obj(Unstructed),
}

/// A semi-structured record: a mapping from string keys to dynamically typed
/// values, kept in insertion order.
#[derive(Debug)]
pub struct Unstructed {
    pub entries: Vec<(String, Val)>,
}

/// The mathematical shape of a [`Val`]: strings become character sequences,
/// lists and records become sequences.  Contracts in this crate speak about
/// values through this model.
pub enum ValView {
    Null,
    Bool(bool),
    Num(Num),
    Str(Seq<char>),
    List(Seq<ValView>),
    Obj(Seq<(Seq<char>, ValView)>),
}

/// The model of a value; see [`ValView`].
pub open spec fn val_view(v: Val) -> ValView
    decreases v,
{
    match v {
        Val::Null => ValView::Null,
        Val::Bool(b) => ValView::Bool(b),
        Val::Num(n) => ValView::Num(n),
        Val::Str(s) => ValView::Str(s@),
        Val::List(items) => ValView::List(vals_view(items@)),
        Val::Obj(m) => ValView::Obj(entries_view(m.entries@)),
    }
}

/// The models of a sequence of values, element by element.
pub open spec fn vals_view(s: Seq<Val>) -> Seq<ValView>
    decreases s,
{
    if s.len() == 0 {
        Seq::empty()
    } else {
        seq![val_view(s[0])] + vals_view(s.subrange(1, s.len() as int))
    }
}

/// The models of a sequence of record entries, element by element.
pub open spec fn entries_view(s: Seq<(String, Val)>) -> Seq<(Seq<char>, ValView)>
    decreases s,
{
    if s.len() == 0 {
        Seq::empty()
    } else {
        seq![(s[0].0@, val_view(s[0].1))] + entries_view(s.subrange(1, s.len() as int))
    }
}

/// Element `i` of `vals_view(s)` is the model of element `i` of `s`.
pub proof fn lemma_vals_view(s: Seq<Val>)
    ensures
        vals_view(s).len() == s.len(),
        forall|i: int| 0 <= i < s.len() ==> vals_view(s)[i] == val_view(s[i]),
    decreases s,
{
    if s.len() > 0 {
        lemma_vals_view(s.subrange(1, s.len() as int));
    }
}

/// Element `i` of `entries_view(s)` is the key and the model of entry `i` of `s`.
pub proof fn lemma_entries_view(s: Seq<(String, Val)>)
    ensures
        entries_view(s).len() == s.len(),
        forall|i: int|
            0 <= i < s.len() ==> entries_view(s)[i] == (s[i].0@, val_view(s[i].1)),
    decreases s,
{
    if s.len() > 0 {
        lemma_entries_view(s.subrange(1, s.len() as int));
    }
}

impl View for Val {
    type V = ValView;

    open spec fn view(&self) -> ValView {
        val_view(*self)
    }
}

impl View for Unstructed {
    type V = Seq<(Seq<char>, ValView)>;

    open spec fn view(&self) -> Seq<(Seq<char>, ValView)> {
        entries_view(self.entries@)
    }
}

} // verus!

verus! {

/// No two entries of a record model share a key.
pub open spec fn keys_unique(es: Seq<(Seq<char>, ValView)>) -> bool {
    forall|i: int, j: int| 0 <= i < j < es.len() ==> es[i].0 != es[j].0
}

/// Well-formedness of a value model: numbers are in bounds and every nested
/// record has pairwise distinct keys.
pub open spec fn vv_wf(v: ValView) -> bool
    decreases v,
{
    match v {
        ValView::Num(n) => num_wf(n),
        ValView::List(items) => vvs_wf(items),
        ValView::Obj(es) => keys_unique(es) && ventries_wf(es),
        _ => true,
    }
}

/// Well-formedness of every element of a sequence of value models.
pub open spec fn vvs_wf(items: Seq<ValView>) -> bool
    decreases items,
{
    items.len() == 0 || (vv_wf(items[0]) && vvs_wf(items.subrange(1, items.len() as int)))
}

/// Well-formedness of every value of a sequence of record entries.
pub open spec fn ventries_wf(es: Seq<(Seq<char>, ValView)>) -> bool
    decreases es,
{
    es.len() == 0 || (vv_wf(es[0].1) && ventries_wf(es.subrange(1, es.len() as int)))
}

/// `vvs_wf` holds exactly when every element is well-formed.
pub proof fn lemma_vvs_wf(items: Seq<ValView>)
    ensures
        vvs_wf(items) <==> (forall|i: int| 0 <= i < items.len() ==> vv_wf(#[trigger] items[i])),
    decreases items,
{
    if items.len() > 0 {
        let tail = items.subrange(1, items.len() as int);
        lemma_vvs_wf(tail);
        assert(forall|i: int| 1 <= i < items.len() ==> items[i] == tail[i - 1]);
    }
}

/// `ventries_wf` holds exactly when every entry's value is well-formed.
pub proof fn lemma_ventries_wf(es: Seq<(Seq<char>, ValView)>)
    ensures
        ventries_wf(es) <==> (forall|i: int| 0 <= i < es.len() ==> vv_wf(#[trigger] es[i].1)),
    decreases es,
{
    if es.len() > 0 {
        let tail = es.subrange(1, es.len() as int);
        lemma_ventries_wf(tail);
        assert(forall|i: int| 1 <= i < es.len() ==> es[i] == tail[i - 1]);
    }
}

/// Well-formedness of a record model.
pub open spec fn uv_wf(es: Seq<(Seq<char>, ValView)>) -> bool {
    vv_wf(ValView::Obj(es))
}

/// Semantic equality of two value models, as the matcher and the structural
/// merge apply it: numbers compare by [`num_eq`], lists and records element
/// by element in order.
pub open spec fn vv_eq(a: ValView, b: ValView) -> bool
    decreases a,
{
    match (a, b) {
        (ValView::Null, ValView::Null) => true,
        (ValView::Bool(x), ValView::Bool(y)) => x == y,
        (ValView::Num(x), ValView::Num(y)) => num_eq(x, y),
        (ValView::Str(x), ValView::Str(y)) => x == y,
        (ValView::List(x), ValView::List(y)) => vvs_eq(x, y),
        (ValView::Obj(x), ValView::Obj(y)) => ventries_eq(x, y),
        _ => false,
    }
}

/// Semantic equality of two sequences of value models, element by element.
pub open spec fn vvs_eq(x: Seq<ValView>, y: Seq<ValView>) -> bool
    decreases x,
{
    &&& x.len() == y.len()
    &&& (x.len() == 0 || (vv_eq(x[0], y[0]) && vvs_eq(
        x.subrange(1, x.len() as int),
        y.subrange(1, y.len() as int),
    )))
}

/// Semantic equality of two sequences of record entries: equal keys and
/// equal values, in order.
pub open spec fn ventries_eq(x: Seq<(Seq<char>, ValView)>, y: Seq<(Seq<char>, ValView)>) -> bool
    decreases x,
{
    &&& x.len() == y.len()
    &&& (x.len() == 0 || (x[0].0 == y[0].0 && vv_eq(x[0].1, y[0].1) && ventries_eq(
        x.subrange(1, x.len() as int),
        y.subrange(1, y.len() as int),
    )))
}

/// `vvs_eq` holds exactly when the sequences have equal length and equal
/// elements.
pub proof fn lemma_vvs_eq(x: Seq<ValView>, y: Seq<ValView>)
    ensures
        vvs_eq(x, y) <==> (x.len() == y.len() && forall|i: int|
            0 <= i < x.len() ==> vv_eq(#[trigger] x[i], y[i])),
    decreases x,
{
    if x.len() > 0 && x.len() == y.len() {
        let xt = x.subrange(1, x.len() as int);
        let yt = y.subrange(1, y.len() as int);
        lemma_vvs_eq(xt, yt);
        assert(forall|i: int| 1 <= i < x.len() ==> x[i] == xt[i - 1]);
        assert(forall|i: int| 1 <= i < y.len() ==> y[i] == yt[i - 1]);
    }
}

/// `ventries_eq` holds exactly when the sequences have equal length and
/// equal entries.
pub proof fn lemma_ventries_eq(x: Seq<(Seq<char>, ValView)>, y: Seq<(Seq<char>, ValView)>)
    ensures
        ventries_eq(x, y) <==> (x.len() == y.len() && forall|i: int|
            0 <= i < x.len() ==> (#[trigger] x[i]).0 == y[i].0 && vv_eq(x[i].1, y[i].1)),
    decreases x,
{
    if x.len() > 0 && x.len() == y.len() {
        let xt = x.subrange(1, x.len() as int);
        let yt = y.subrange(1, y.len() as int);
        lemma_ventries_eq(xt, yt);
        assert(forall|i: int| 1 <= i < x.len() ==> x[i] == xt[i - 1]);
        assert(forall|i: int| 1 <= i < y.len() ==> y[i] == yt[i - 1]);
    }
}

/// The index of the first entry with key `k`, or `-1` if there is none.
pub open spec fn key_idx(es: Seq<(Seq<char>, ValView)>, k: Seq<char>) -> int
    decreases es,
{
    if es.len() == 0 {
        -1
    } else if es[0].0 == k {
        0
    } else {
        let r = key_idx(es.subrange(1, es.len() as int), k);
        if r < 0 {
            -1
        } else {
            1 + r
        }
    }
}

/// The value stored under key `k`, if any.
pub open spec fn lookup(es: Seq<(Seq<char>, ValView)>, k: Seq<char>) -> Option<ValView> {
    if key_idx(es, k) >= 0 {
        Some(es[key_idx(es, k)].1)
    } else {
        None
    }
}

/// What `key_idx` finds: the first matching position, or that none matches.
pub proof fn lemma_key_idx(es: Seq<(Seq<char>, ValView)>, k: Seq<char>)
    ensures
        key_idx(es, k) >= 0 ==> {
            &&& key_idx(es, k) < es.len()
            &&& es[key_idx(es, k)].0 == k
            &&& forall|j: int| 0 <= j < key_idx(es, k) ==> es[j].0 != k
        },
        key_idx(es, k) < 0 ==> forall|j: int| 0 <= j < es.len() ==> es[j].0 != k,
    decreases es,
{
    if es.len() > 0 && es[0].0 != k {
        let tail = es.subrange(1, es.len() as int);
        lemma_key_idx(tail, k);
        assert(forall|j: int| 1 <= j < es.len() ==> es[j] == tail[j - 1]);
    }
}

/// The position of the first `'.'` in a path, or the path's length if there
/// is none.
pub open spec fn dot_pos(p: Seq<char>) -> nat
    decreases p,
{
    if p.len() == 0 {
        0
    } else if p[0] == '.' {
        0
    } else {
        1 + dot_pos(p.subrange(1, p.len() as int))
    }
}

/// The path segment before the first dot.
pub open spec fn path_head(p: Seq<char>) -> Seq<char> {
    if dot_pos(p) <= p.len() {
        p.subrange(0, dot_pos(p) as int)
    } else {
        p
    }
}

/// What follows the first dot; empty when the path has no dot.
pub open spec fn path_rest(p: Seq<char>) -> Seq<char> {
    if dot_pos(p) < p.len() {
        p.subrange(dot_pos(p) as int + 1, p.len() as int)
    } else {
        Seq::empty()
    }
}

/// `dot_pos` lies within the path and marks the first dot.
pub proof fn lemma_dot_pos(p: Seq<char>)
    ensures
        dot_pos(p) <= p.len(),
        forall|i: int| 0 <= i < dot_pos(p) ==> p[i] != '.',
        dot_pos(p) < p.len() ==> p[dot_pos(p) as int] == '.',
    decreases p,
{
    if p.len() > 0 && p[0] != '.' {
        let tail = p.subrange(1, p.len() as int);
        lemma_dot_pos(tail);
        assert(forall|i: int| 1 <= i < p.len() ==> p[i] == tail[i - 1]);
    }
}

/// The value found by following the dotted path `p` through `es`: a missing
/// key, or a path that descends through anything but a nested record,
/// resolves to null.
pub open spec fn spec_get(es: Seq<(Seq<char>, ValView)>, p: Seq<char>) -> ValView
    decreases p.len(),
{
    let h = path_head(p);
    let r = path_rest(p);
    match lookup(es, h) {
        Option::None => ValView::Null,
        Option::Some(v) => if r.len() == 0 {
            v
        } else {
            match v {
                ValView::Obj(es2) => spec_get(es2, r),
                _ => ValView::Null,
            }
        },
    }
}

/// The record after storing `v` at the dotted path `p`: the leaf is inserted
/// or replaced, a missing or non-record interior segment is replaced by an
/// empty record before descending.
pub open spec fn spec_set(
    es: Seq<(Seq<char>, ValView)>,
    p: Seq<char>,
    v: ValView,
) -> Seq<(Seq<char>, ValView)>
    decreases p.len(),
{
    let h = path_head(p);
    let r = path_rest(p);
    if r.len() == 0 {
        let j = key_idx(es, p);
        if j >= 0 {
            es.update(j, (p, v))
        } else {
            es.push((p, v))
        }
    } else {
        let i = key_idx(es, h);
        if i >= 0 {
            match es[i].1 {
                ValView::Obj(es2) => es.update(i, (h, ValView::Obj(spec_set(es2, r, v)))),
                _ => es.update(i, (h, ValView::Obj(spec_set(Seq::empty(), r, v)))),
            }
        } else {
            es.push((h, ValView::Obj(spec_set(Seq::empty(), r, v))))
        }
    }
}

/// The record after removing the dotted path `p`: a no-op when the path is
/// absent, otherwise only the terminal segment is removed.
pub open spec fn spec_remove(
    es: Seq<(Seq<char>, ValView)>,
    p: Seq<char>,
) -> Seq<(Seq<char>, ValView)>
    decreases p.len(),
{
    let h = path_head(p);
    let r = path_rest(p);
    let i = key_idx(es, h);
    if i < 0 {
        es
    } else if r.len() == 0 {
        es.remove(i)
    } else {
        match es[i].1 {
            ValView::Obj(es2) => es.update(i, (h, ValView::Obj(spec_remove(es2, r)))),
            _ => es,
        }
    }
}

} // verus!

verus! {

/// `10^e` stays within `10^20` while `e` is at most twenty.
pub proof fn lemma_pow10_le20()
    ensures
        pow10(20) == 0x56BC75E2D63100000,
        pow10(18) == 1_000_000_000_000_000_000,
{
    assert(pow10(20) == 0x56BC75E2D63100000 && pow10(18) == 1_000_000_000_000_000_000) by {
        reveal_with_fuel(pow10, 21);
    }
}

/// `pow10` is monotonic.
pub proof fn lemma_pow10_mono_pub(a: nat, b: nat)
    requires
        a <= b,
    ensures
        pow10(a) <= pow10(b),
        pow10(a) >= 1,
{
    lemma_pow10_mono(a, b);
    lemma_pow10_pos(a);
}

} // verus!

verus! {

/// `10^a * 10^b == 10^(a+b)`.
pub proof fn lemma_pow10_add(a: nat, b: nat)
    ensures
        pow10(a) * pow10(b) == pow10(a + b),
    decreases a,
{
    if a == 0 {
    } else {
        lemma_pow10_add((a - 1) as nat, b);
        lemma_mul_assoc_10(pow10((a - 1) as nat), pow10(b));
    }
}

proof fn lemma_mul_assoc_10(u: int, v: int)
    by (nonlinear_arith)
    ensures
        (10 * u) * v == 10 * (u * v),
{
}

/// Multiplying both sides of `x < b` by a positive `p` keeps the order.
pub proof fn lemma_mul_lt_right(x: int, b: int, p: int)
    by (nonlinear_arith)
    requires
        0 <= x < b,
        0 < p,
    ensures
        x * p <= (b - 1) * p,
        (b - 1) * p == b * p - p,
{
}

} // verus!

verus! {

/// Semantic equality is reflexive.
pub proof fn lemma_vv_eq_refl(v: ValView)
    ensures
        vv_eq(v, v),
    decreases v,
{
    match v {
        ValView::List(items) => {
            lemma_vvs_eq(items, items);
            assert forall|i: int| 0 <= i < items.len() implies vv_eq(
                #[trigger] items[i],
                items[i],
            ) by {
                lemma_vv_eq_refl(items[i]);
            }
        },
        ValView::Obj(es) => {
            lemma_ventries_eq(es, es);
            assert forall|i: int| 0 <= i < es.len() implies (#[trigger] es[i]).0 == es[i].0
                && vv_eq(es[i].1, es[i].1) by {
                lemma_vv_eq_refl(es[i].1);
            }
        },
        _ => {},
    }
}

/// A dotted path in plain form: segments split by single dots, none of them
/// empty.
pub open spec fn path_ok(p: Seq<char>) -> bool
    decreases p.len(),
{
    if path_rest(p).len() == 0 {
        p.len() > 0 && dot_pos(p) == p.len()
    } else {
        path_head(p).len() > 0 && path_ok(path_rest(p))
    }
}

/// Replacing the first entry holding `k` makes `k` look up the new value.
proof fn lemma_lookup_update(es: Seq<(Seq<char>, ValView)>, k: Seq<char>, v: ValView)
    requires
        key_idx(es, k) >= 0,
    ensures
        lookup(es.update(key_idx(es, k), (k, v)), k) == Some(v),
{
    let j = key_idx(es, k);
    lemma_key_idx(es, k);
    let out = es.update(j, (k, v));
    lemma_key_idx(out, k);
    assert(out[j].0 == k);
    assert(forall|m: int| 0 <= m < j ==> out[m] == es[m]);
    assert(key_idx(out, k) == j);
}

/// Appending an entry with an absent key makes that key look up its value.
proof fn lemma_lookup_push(es: Seq<(Seq<char>, ValView)>, k: Seq<char>, v: ValView)
    requires
        key_idx(es, k) < 0,
    ensures
        lookup(es.push((k, v)), k) == Some(v),
{
    lemma_key_idx(es, k);
    let out = es.push((k, v));
    lemma_key_idx(out, k);
    assert(out[es.len() as int].0 == k);
    assert(forall|m: int| 0 <= m < es.len() ==> out[m] == es[m]);
    assert(key_idx(out, k) == es.len());
}

/// What was stored at a plain dotted path is what the path then holds.
pub proof fn lemma_get_set(es: Seq<(Seq<char>, ValView)>, p: Seq<char>, v: ValView)
    requires
        path_ok(p),
    ensures
        spec_get(spec_set(es, p, v), p) == v,
    decreases p.len(),
{
    lemma_dot_pos(p);
    let h = path_head(p);
    let r = path_rest(p);
    if r.len() == 0 {
        assert(h =~= p);
        let j = key_idx(es, p);
        if j >= 0 {
            lemma_lookup_update(es, p, v);
        } else {
            lemma_lookup_push(es, p, v);
        }
    } else {
        let i = key_idx(es, h);
        lemma_key_idx(es, h);
        if i >= 0 {
            match es[i].1 {
                ValView::Obj(es2) => {
                    lemma_get_set(es2, r, v);
                    lemma_lookup_update(es, h, ValView::Obj(spec_set(es2, r, v)));
                },
                _ => {
                    lemma_get_set(Seq::empty(), r, v);
                    lemma_lookup_update(es, h, ValView::Obj(spec_set(Seq::empty(), r, v)));
                },
            }
        } else {
            lemma_get_set(Seq::empty(), r, v);
            lemma_lookup_push(es, h, ValView::Obj(spec_set(Seq::empty(), r, v)));
        }
    }
}

} // verus!

verus! {

/// Storing twice at the same plain path keeps only the second value.
pub proof fn lemma_set_set(es: Seq<(Seq<char>, ValView)>, p: Seq<char>, v1: ValView, v2: ValView)
    requires
        path_ok(p),
    ensures
        spec_set(spec_set(es, p, v1), p, v2) == spec_set(es, p, v2),
    decreases p.len(),
{
    lemma_dot_pos(p);
    let h = path_head(p);
    let r = path_rest(p);
    if r.len() == 0 {
        assert(h =~= p);
        let j = key_idx(es, p);
        lemma_key_idx(es, p);
        if j >= 0 {
            let out = es.update(j, (p, v1));
            lemma_key_idx(out, p);
            assert(forall|m: int| 0 <= m < j ==> out[m] == es[m]);
            assert(out[j].0 == p);
            assert(forall|m: int| 0 <= m < j ==> out[m].0 != p);
            assert(key_idx(out, p) == j);
            assert(out.update(j, (p, v2)) =~= es.update(j, (p, v2)));
        } else {
            let out = es.push((p, v1));
            lemma_key_idx(out, p);
            assert(forall|m: int| 0 <= m < es.len() ==> out[m] == es[m]);
            assert(out[es.len() as int].0 == p);
            assert(forall|m: int| 0 <= m < es.len() ==> out[m].0 != p);
            assert(key_idx(out, p) == es.len());
            assert(out.update(es.len() as int, (p, v2)) =~= es.push((p, v2)));
        }
    } else {
        let i = key_idx(es, h);
        lemma_key_idx(es, h);
        if i >= 0 {
            let inner = match es[i].1 {
                ValView::Obj(es2) => es2,
                _ => Seq::<(Seq<char>, ValView)>::empty(),
            };
            lemma_set_set(inner, r, v1, v2);
            let out = es.update(i, (h, ValView::Obj(spec_set(inner, r, v1))));
            lemma_key_idx(out, h);
            assert(forall|m: int| 0 <= m < i ==> out[m] == es[m]);
            assert(out[i].0 == h);
            assert(forall|m: int| 0 <= m < i ==> out[m].0 != h);
            assert(key_idx(out, h) == i);
            assert(out.update(i, (h, ValView::Obj(spec_set(spec_set(inner, r, v1), r, v2))))
                =~= es.update(i, (h, ValView::Obj(spec_set(inner, r, v2)))));
        } else {
            lemma_set_set(Seq::empty(), r, v1, v2);
            let out = es.push((h, ValView::Obj(spec_set(Seq::empty(), r, v1))));
            lemma_key_idx(out, h);
            assert(forall|m: int| 0 <= m < es.len() ==> out[m] == es[m]);
            assert(out[es.len() as int].0 == h);
            assert(forall|m: int| 0 <= m < es.len() ==> out[m].0 != h);
            assert(key_idx(out, h) == es.len());
            assert(out.update(
                es.len() as int,
                (h, ValView::Obj(spec_set(spec_set(Seq::empty(), r, v1), r, v2))),
            ) =~= es.push((h, ValView::Obj(spec_set(Seq::empty(), r, v2)))));
        }
    }
}

} // verus!

verus! {

/// The value found by following the dotted path `p` through `es`, kept
/// apart from an explicit null: `None` when a segment is missing or the
/// path descends through anything but a nested record, `Some(v)` otherwise
/// (so an explicit null comes back as `Some(Null)`).
pub open spec fn spec_get_opt(es: Seq<(Seq<char>, ValView)>, p: Seq<char>) -> Option<ValView>
    decreases p.len(),
{
    match lookup(es, path_head(p)) {
        Option::None => Option::None,
        Option::Some(v) => if path_rest(p).len() == 0 {
            Some(v)
        } else {
            match v {
                ValView::Obj(es2) => spec_get_opt(es2, path_rest(p)),
                _ => Option::None,
            }
        },
    }
}

/// `spec_get` is `spec_get_opt` with the missing cases collapsed to null.
pub proof fn lemma_get_opt_get(es: Seq<(Seq<char>, ValView)>, p: Seq<char>)
    ensures
        spec_get(es, p) == (match spec_get_opt(es, p) {
            Option::Some(v) => v,
            Option::None => ValView::Null,
        }),
    decreases p.len(),
{
    match lookup(es, path_head(p)) {
        Option::Some(v) => {
            if path_rest(p).len() > 0 {
                match v {
                    ValView::Obj(es2) => {
                        lemma_get_opt_get(es2, path_rest(p));
                    },
                    _ => {},
                }
            }
        },
        Option::None => {},
    }
}

/// The value a well-formed record holds at any path is well-formed.
pub proof fn lemma_get_opt_wf(es: Seq<(Seq<char>, ValView)>, p: Seq<char>)
    requires
        uv_wf(es),
    ensures
        spec_get_opt(es, p) matches Some(v) ==> vv_wf(v),
    decreases p.len(),
{
    lemma_key_idx(es, path_head(p));
    lemma_ventries_wf(es);
    if key_idx(es, path_head(p)) >= 0 {
        let v = es[key_idx(es, path_head(p))].1;
        if path_rest(p).len() > 0 {
            match v {
                ValView::Obj(es2) => {
                    lemma_get_opt_wf(es2, path_rest(p));
                },
                _ => {},
            }
        }
    }
}

} // verus!

verus! {

/// Two plain dotted paths that share no route: they part at some segment,
/// so neither addresses a point inside the other's subtree.
pub open spec fn paths_disjoint(p: Seq<char>, q: Seq<char>) -> bool
    decreases p.len(),
{
    if path_head(p) != path_head(q) {
        true
    } else if path_rest(p).len() == 0 || path_rest(q).len() == 0 {
        false
    } else {
        paths_disjoint(path_rest(p), path_rest(q))
    }
}

/// Replacing an entry whose key is not `q` leaves `q`'s lookup alone.
proof fn lemma_lookup_update_other(
    es: Seq<(Seq<char>, ValView)>,
    i: int,
    pair: (Seq<char>, ValView),
    q: Seq<char>,
)
    requires
        0 <= i < es.len(),
        es[i].0 != q,
        pair.0 != q,
    ensures
        lookup(es.update(i, pair), q) == lookup(es, q),
{
    let out = es.update(i, pair);
    lemma_key_idx(es, q);
    lemma_key_idx(out, q);
    assert(forall|m: int| 0 <= m < es.len() && m != i ==> out[m] == es[m]);
    if key_idx(es, q) >= 0 {
        let j = key_idx(es, q);
        assert(out[j].0 == q);
        assert(forall|m: int| 0 <= m < j ==> out[m].0 != q);
        assert(key_idx(out, q) == j);
    } else {
        assert(forall|m: int| 0 <= m < out.len() ==> out[m].0 != q);
        assert(key_idx(out, q) < 0);
    }
}

/// Appending an entry whose key is not `q` leaves `q`'s lookup alone.
proof fn lemma_lookup_push_other(
    es: Seq<(Seq<char>, ValView)>,
    pair: (Seq<char>, ValView),
    q: Seq<char>,
)
    requires
        pair.0 != q,
    ensures
        lookup(es.push(pair), q) == lookup(es, q),
{
    let out = es.push(pair);
    lemma_key_idx(es, q);
    lemma_key_idx(out, q);
    assert(forall|m: int| 0 <= m < es.len() ==> out[m] == es[m]);
    if key_idx(es, q) >= 0 {
        let j = key_idx(es, q);
        assert(out[j].0 == q);
        assert(forall|m: int| 0 <= m < j ==> out[m].0 != q);
        assert(key_idx(out, q) == j);
    } else {
        assert(forall|m: int| 0 <= m < out.len() ==> out[m].0 != q);
        assert(key_idx(out, q) < 0);
    }
}

/// Storing at one plain path never disturbs what a disjoint path holds.
pub proof fn lemma_set_frame(
    es: Seq<(Seq<char>, ValView)>,
    p: Seq<char>,
    v: ValView,
    q: Seq<char>,
)
    requires
        path_ok(p),
        paths_disjoint(p, q),
    ensures
        spec_get_opt(spec_set(es, p, v), q) == spec_get_opt(es, q),
    decreases p.len(),
{
    lemma_dot_pos(p);
    let h = path_head(p);
    let r = path_rest(p);
    let qh = path_head(q);
    if r.len() == 0 {
        assert(h =~= p);
        // the leaf key is `p` itself and differs from `q`'s first segment
        let j = key_idx(es, p);
        lemma_key_idx(es, p);
        if j >= 0 {
            lemma_lookup_update_other(es, j, (p, v), qh);
        } else {
            lemma_lookup_push_other(es, (p, v), qh);
        }
    } else {
        let i = key_idx(es, h);
        lemma_key_idx(es, h);
        if h != qh {
            if i >= 0 {
                match es[i].1 {
                    ValView::Obj(es2) => {
                        lemma_lookup_update_other(
                            es,
                            i,
                            (h, ValView::Obj(spec_set(es2, r, v))),
                            qh,
                        );
                    },
                    _ => {
                        lemma_lookup_update_other(
                            es,
                            i,
                            (h, ValView::Obj(spec_set(Seq::empty(), r, v))),
                            qh,
                        );
                    },
                }
            } else {
                lemma_lookup_push_other(es, (h, ValView::Obj(spec_set(Seq::empty(), r, v))), qh);
            }
        } else {
            // same first segment: the rests are disjoint
            let rq = path_rest(q);
            lemma_set_frame(Seq::empty(), r, v, rq);
            if i >= 0 {
                let inner = match es[i].1 {
                    ValView::Obj(es2) => es2,
                    _ => Seq::<(Seq<char>, ValView)>::empty(),
                };
                lemma_set_frame(inner, r, v, rq);
                let newpair = (h, ValView::Obj(spec_set(inner, r, v)));
                let out = es.update(i, newpair);
                lemma_key_idx(out, qh);
                assert(forall|m: int| 0 <= m < i ==> out[m] == es[m]);
                assert(out[i].0 == qh);
                assert(forall|m: int| 0 <= m < i ==> out[m].0 != qh);
                assert(key_idx(out, qh) == i);
                match es[i].1 {
                    ValView::Obj(es2) => {
                        assert(spec_get_opt(es, q) == spec_get_opt(es2, rq));
                        assert(spec_get_opt(out, q) == spec_get_opt(spec_set(es2, r, v), rq));
                    },
                    _ => {
                        assert(spec_get_opt(es, q) is None);
                        assert(spec_get_opt(out, q) == spec_get_opt(
                            spec_set(Seq::empty(), r, v),
                            rq,
                        ));
                        assert(spec_get_opt(Seq::<(Seq<char>, ValView)>::empty(), rq) is None);
                    },
                }
            } else {
                let newpair = (h, ValView::Obj(spec_set(Seq::empty(), r, v)));
                let out = es.push(newpair);
                lemma_key_idx(out, qh);
                assert(forall|m: int| 0 <= m < es.len() ==> out[m] == es[m]);
                assert(out[es.len() as int].0 == qh);
                assert(forall|m: int| 0 <= m < es.len() ==> out[m].0 != qh);
                assert(key_idx(out, qh) == es.len());
                assert(spec_get_opt(es, q) is None);
                assert(spec_get_opt(out, q) == spec_get_opt(spec_set(Seq::empty(), r, v), rq));
                assert(spec_get_opt(Seq::<(Seq<char>, ValView)>::empty(), rq) is None);
            }
        }
    }
}

} // verus!
