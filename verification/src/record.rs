//! Executable operations on semi-structured records.

use vstd::prelude::*;

use crate::text::str_eq;
use crate::value::{
    entries_view, key_idx, lemma_entries_view, lemma_key_idx, lemma_vals_view, num_eq, num_wf,
    vals_view, val_view, vv_eq, vv_wf, Num, Unstructed, Val, ValView,
};

verus! {

/// Pushing an entry commutes with taking the model.
pub proof fn lemma_entries_view_push(s: Seq<(String, Val)>, k: String, v: Val)
    ensures
        entries_view(s.push((k, v))) == entries_view(s).push((k@, val_view(v))),
{
    lemma_entries_view(s.push((k, v)));
    lemma_entries_view(s);
    assert(entries_view(s.push((k, v))) =~= entries_view(s).push((k@, val_view(v))));
}

/// Updating an entry commutes with taking the model.
pub proof fn lemma_entries_view_update(s: Seq<(String, Val)>, i: int, k: String, v: Val)
    requires
        0 <= i < s.len(),
    ensures
        entries_view(s.update(i, (k, v))) == entries_view(s).update(i, (k@, val_view(v))),
{
    lemma_entries_view(s.update(i, (k, v)));
    lemma_entries_view(s);
    assert(entries_view(s.update(i, (k, v))) =~= entries_view(s).update(i, (k@, val_view(v))));
}

/// Removing an entry commutes with taking the model.
pub proof fn lemma_entries_view_remove(s: Seq<(String, Val)>, i: int)
    requires
        0 <= i < s.len(),
    ensures
        entries_view(s.remove(i)) == entries_view(s).remove(i),
{
    lemma_entries_view(s.remove(i));
    lemma_entries_view(s);
    assert(entries_view(s.remove(i)) =~= entries_view(s).remove(i));
}

/// A deep copy of a value, equal to the original under the model.
pub fn clone_val(v: &Val) -> (r: Val)
    ensures
        r@ == v@,
    decreases *v,
{
    match v {
        Val::Null => Val::Null,
        Val::Bool(b) => Val::Bool(*b),
        Val::Num(n) => Val::Num(*n),
        Val::Str(s) => Val::Str(s.clone()),
        Val::List(items) => {
            let mut out: Vec<Val> = Vec::new();
            let mut i: usize = 0;
            while i < items.len()
                invariant
                    i <= items@.len(),
                    out@.len() == i,
                    forall|j: int| 0 <= j < i ==> out@[j]@ == items@[j]@,
                decreases items@.len() - i,
            {
                out.push(clone_val(&items[i]));
                i = i + 1;
            }
            proof {
                lemma_vals_view(out@);
                lemma_vals_view(items@);
                assert(vals_view(out@) =~= vals_view(items@));
            }
            Val::List(out)
        },
        Val::Obj(m) => Val::Obj(clone_record(m)),
    }
}

/// A deep copy of a record, equal to the original under the model.
pub fn clone_record(m: &Unstructed) -> (r: Unstructed)
    ensures
        r@ == m@,
    decreases *m,
{
    let mut out: Vec<(String, Val)> = Vec::new();
    let mut i: usize = 0;
    while i < m.entries.len()
        invariant
            i <= m.entries@.len(),
            out@.len() == i,
            forall|j: int|
                0 <= j < i ==> out@[j].0@ == m.entries@[j].0@ && out@[j].1@ == m.entries@[j].1@,
        decreases m.entries@.len() - i,
    {
        let key = m.entries[i].0.clone();
        let val = clone_val(&m.entries[i].1);
        out.push((key, val));
        i = i + 1;
    }
    proof {
        lemma_entries_view(out@);
        lemma_entries_view(m.entries@);
        assert(entries_view(out@) =~= entries_view(m.entries@));
    }
    Unstructed { entries: out }
}

impl Clone for Val {
    /// A deep copy, equal to the original under the model.
    fn clone(&self) -> (r: Self)
        ensures
            r@ == self@,
    {
        clone_val(self)
    }
}

impl Clone for Unstructed {
    /// A deep copy, equal to the original under the model.
    fn clone(&self) -> (r: Self)
        ensures
            r@ == self@,
    {
        clone_record(self)
    }
}

} // verus!

verus! {

/// Semantic equality of two values; see [`vv_eq`].
pub fn val_eq(a: &Val, b: &Val) -> (r: bool)
    requires
        vv_wf(a@),
        vv_wf(b@),
    ensures
        r == vv_eq(a@, b@),
    decreases *a,
{
    match (a, b) {
        (Val::Null, Val::Null) => true,
        (Val::Bool(x), Val::Bool(y)) => x == y,
        (Val::Num(x), Val::Num(y)) => x.eq_num(y),
        (Val::Str(x), Val::Str(y)) => str_eq(x.as_str(), y.as_str()),
        (Val::List(x), Val::List(y)) => {
            proof {
                lemma_vals_view(x@);
                lemma_vals_view(y@);
                assert(a@ == ValView::List(vals_view(x@)));
                assert(b@ == ValView::List(vals_view(y@)));
                crate::value::lemma_vvs_wf(vals_view(x@));
                crate::value::lemma_vvs_wf(vals_view(y@));
                crate::value::lemma_vvs_eq(vals_view(x@), vals_view(y@));
            }
            if x.len() != y.len() {
                return false;
            }
            let mut i: usize = 0;
            while i < x.len()
                invariant
                    i <= x@.len(),
                    forall|j: int| 0 <= j < i ==> vv_eq(x@[j]@, y@[j]@),
                decreases x@.len() - i,
            {
                proof {
                    assert(vals_view(x@)[i as int] == x@[i as int]@);
                    assert(vals_view(y@)[i as int] == y@[i as int]@);
                    assert(vv_wf(x@[i as int]@));
                    assert(vv_wf(y@[i as int]@));
                }
                if !val_eq(&x[i], &y[i]) {
                    return false;
                }
                i = i + 1;
            }
            proof {
                assert(forall|j: int|
                    0 <= j < vals_view(x@).len() ==> vv_eq(
                        #[trigger] vals_view(x@)[j],
                        vals_view(y@)[j],
                    ));
            }
            true
        },
        (Val::Obj(mx), Val::Obj(my)) => {
            proof {
                lemma_entries_view(mx.entries@);
                lemma_entries_view(my.entries@);
                assert(a@ == ValView::Obj(entries_view(mx.entries@)));
                assert(b@ == ValView::Obj(entries_view(my.entries@)));
                crate::value::lemma_ventries_wf(entries_view(mx.entries@));
                crate::value::lemma_ventries_wf(entries_view(my.entries@));
                crate::value::lemma_ventries_eq(entries_view(mx.entries@), entries_view(my.entries@));
            }
            if mx.entries.len() != my.entries.len() {
                return false;
            }
            let mut i: usize = 0;
            while i < mx.entries.len()
                invariant
                    i <= mx.entries@.len(),
                    forall|j: int|
                        0 <= j < i ==> mx.entries@[j].0@ == my.entries@[j].0@
                            && vv_eq(mx.entries@[j].1@, my.entries@[j].1@),
                decreases mx.entries@.len() - i,
            {
                proof {
                    assert(a@ == ValView::Obj(entries_view(mx.entries@)));
                    assert(b@ == ValView::Obj(entries_view(my.entries@)));
                    assert(entries_view(mx.entries@)[i as int]
                        == (mx.entries@[i as int].0@, mx.entries@[i as int].1@));
                    assert(entries_view(my.entries@)[i as int]
                        == (my.entries@[i as int].0@, my.entries@[i as int].1@));
                    assert(vv_wf(entries_view(mx.entries@)[i as int].1));
                    assert(vv_wf(entries_view(my.entries@)[i as int].1));
                }
                if !str_eq(mx.entries[i].0.as_str(), my.entries[i].0.as_str()) {
                    return false;
                }
                if !val_eq(&mx.entries[i].1, &my.entries[i].1) {
                    return false;
                }
                i = i + 1;
            }
            proof {
                assert(forall|j: int|
                    0 <= j < entries_view(mx.entries@).len() ==> {
                        &&& (#[trigger] entries_view(mx.entries@)[j]).0
                            == entries_view(my.entries@)[j].0
                        &&& vv_eq(entries_view(mx.entries@)[j].1, entries_view(my.entries@)[j].1)
                    });
            }
            true
        },
        _ => false,
    }
}

/// The position of the first entry of `m` whose key is `k`, if any.
pub fn index_of_key(m: &Unstructed, k: &str) -> (r: Option<usize>)
    ensures
        r matches Some(i) ==> key_idx(m@, k@) == i,
        r is None ==> key_idx(m@, k@) < 0,
{
    proof {
        lemma_entries_view(m.entries@);
        lemma_key_idx(m@, k@);
    }
    let mut i: usize = 0;
    while i < m.entries.len()
        invariant
            i <= m.entries@.len(),
            forall|j: int| 0 <= j < i ==> m@[j].0 != k@,
        decreases m.entries@.len() - i,
    {
        if str_eq(m.entries[i].0.as_str(), k) {
            proof {
                assert(m@[i as int].0 == k@);
                assert(key_idx(m@, k@) == i);
            }
            return Some(i);
        }
        i = i + 1;
    }
    None
}

/// Splits a dotted path into its first segment and the rest; the rest is
/// empty when the path holds no dot.
pub fn shift(path: &str) -> (r: (String, String))
    ensures
        r.0@ == crate::value::path_head(path@),
        r.1@ == crate::value::path_rest(path@),
{
    proof {
        crate::value::lemma_dot_pos(path@);
    }
    let len = path.unicode_len();
    let mut i: usize = 0;
    while i < len
        invariant
            len == path@.len(),
            i <= len,
            forall|j: int| 0 <= j < i ==> path@[j] != '.',
        decreases len - i,
    {
        if path.get_char(i) == '.' {
            proof {
                assert(crate::value::dot_pos(path@) == i);
            }
            let head = path.substring_char(0, i).to_owned();
            let rest = path.substring_char(i + 1, len).to_owned();
            return (head, rest);
        }
        i = i + 1;
    }
    proof {
        assert(crate::value::dot_pos(path@) == len);
        assert(path@.subrange(0, len as int) =~= path@);
    }
    (path.to_owned(), String::new())
}

impl Unstructed {
    /// An empty record.
    pub fn new() -> (r: Unstructed)
        ensures
            r@ == Seq::<(Seq<char>, ValView)>::empty(),
    {
        Unstructed { entries: Vec::new() }
    }

    /// The value at the dotted path `path`; null when any segment is missing
    /// or descends through anything but a nested record.
    pub fn get(&self, path: &str) -> (r: Val)
        ensures
            r@ == crate::value::spec_get(self@, path@),
        decreases path@.len(),
    {
        proof {
            crate::value::lemma_dot_pos(path@);
            lemma_key_idx(self@, crate::value::path_head(path@));
            lemma_entries_view(self.entries@);
        }
        let (head, rest) = shift(path);
        match index_of_key(self, head.as_str()) {
            None => Val::Null,
            Some(i) => {
                proof {
                    assert(crate::value::lookup(self@, crate::value::path_head(path@))
                        == Some(self@[i as int].1));
                    assert(self@[i as int].1 == self.entries@[i as int].1@);
                }
                if rest.as_str().is_empty() {
                    clone_val(&self.entries[i].1)
                } else {
                    match &self.entries[i].1 {
                        Val::Obj(inner) => {
                            proof {
                                assert(self@[i as int].1 == ValView::Obj(inner@));
                            }
                            inner.get(rest.as_str())
                        },
                        _ => {
                            proof {
                                assert(!(self@[i as int].1 is Obj));
                            }
                            Val::Null
                        },
                    }
                }
            },
        }
    }

    /// Stores `value` at the dotted path `path`, creating empty records for
    /// missing interior segments and replacing non-record interiors.
    pub fn set(&mut self, path: &str, value: &Val)
        ensures
            final(self)@ == crate::value::spec_set(old(self)@, path@, value@),
        decreases path@.len(),
    {
        proof {
            crate::value::lemma_dot_pos(path@);
            lemma_key_idx(self@, path@);
            lemma_key_idx(self@, crate::value::path_head(path@));
            lemma_entries_view(self.entries@);
        }
        let (head, rest) = shift(path);
        if rest.as_str().is_empty() {
            match index_of_key(self, path) {
                Some(i) => {
                    let k = path.to_owned();
                    let v = clone_val(value);
                    proof {
                        lemma_entries_view_update(self.entries@, i as int, k, v);
                    }
                    self.entries.set(i, (k, v));
                },
                None => {
                    let k = path.to_owned();
                    let v = clone_val(value);
                    proof {
                        lemma_entries_view_push(self.entries@, k, v);
                    }
                    self.entries.push((k, v));
                },
            }
        } else {
            match index_of_key(self, head.as_str()) {
                Some(i) => {
                    proof {
                        assert(self@[i as int] == (self.entries@[i as int].0@, self.entries@[i as int].1@));
                        assert(self@[i as int].0 == crate::value::path_head(path@));
                    }
                    let (k, old_v) = self.entries.remove(i);
                    let ghost inner_view = if old_v is Obj {
                        entries_view(old_v->Obj_0.entries@)
                    } else {
                        Seq::<(Seq<char>, ValView)>::empty()
                    };
                    proof {
                        if old_v is Obj {
                            assert(old(self)@[i as int].1 == ValView::Obj(inner_view));
                        } else {
                            assert(!(old(self)@[i as int].1 is Obj));
                        }
                    }
                    let mut sub = match old_v {
                        Val::Obj(inner) => inner,
                        _ => Unstructed::new(),
                    };
                    sub.set(rest.as_str(), value);
                    let ghost sub_view = sub@;
                    self.entries.insert(i, (k, Val::Obj(sub)));
                    proof {
                        assert(sub_view == crate::value::spec_set(inner_view, crate::value::path_rest(path@), value@));
                        assert(self.entries@ =~= old(self).entries@.update(
                            i as int,
                            (k, Val::Obj(Unstructed { entries: self.entries@[i as int].1->Obj_0.entries })),
                        ));
                        lemma_entries_view_update(
                            old(self).entries@,
                            i as int,
                            self.entries@[i as int].0,
                            self.entries@[i as int].1,
                        );
                        assert(self.entries@[i as int].1@ == ValView::Obj(sub_view));
                        assert(self.entries@[i as int].0@ == k@);
                    }
                },
                None => {
                    let mut sub = Unstructed::new();
                    sub.set(rest.as_str(), value);
                    let ghost sub_view = sub@;
                    self.entries.push((head, Val::Obj(sub)));
                    proof {
                        lemma_entries_view_push(
                            old(self).entries@,
                            self.entries@[self.entries@.len() - 1].0,
                            self.entries@[self.entries@.len() - 1].1,
                        );
                        assert(self.entries@[self.entries@.len() - 1].1@ == ValView::Obj(sub_view));
                    }
                },
            }
        }
    }

    /// Removes the dotted path `path`; a no-op when it is absent.
    pub fn remove(&mut self, path: &str)
        ensures
            final(self)@ == crate::value::spec_remove(old(self)@, path@),
        decreases path@.len(),
    {
        proof {
            crate::value::lemma_dot_pos(path@);
            lemma_key_idx(self@, crate::value::path_head(path@));
            lemma_entries_view(self.entries@);
        }
        let (head, rest) = shift(path);
        match index_of_key(self, head.as_str()) {
            None => {},
            Some(i) => {
                proof {
                    assert(self@[i as int] == (self.entries@[i as int].0@, self.entries@[i as int].1@));
                }
                if rest.as_str().is_empty() {
                    let _ = self.entries.remove(i);
                    proof {
                        lemma_entries_view_remove(old(self).entries@, i as int);
                    }
                } else {
                    let (k, old_v) = self.entries.remove(i);
                    match old_v {
                        Val::Obj(inner) => {
                            proof {
                                assert(old(self)@[i as int].1 == ValView::Obj(inner@));
                            }
                            let mut sub = inner;
                            sub.remove(rest.as_str());
                            let ghost sub_view = sub@;
                            self.entries.insert(i, (k, Val::Obj(sub)));
                            proof {
                                assert(self.entries@ =~= old(self).entries@.update(
                                    i as int,
                                    (k, Val::Obj(Unstructed { entries: self.entries@[i as int].1->Obj_0.entries })),
                                ));
                                lemma_entries_view_update(
                                    old(self).entries@,
                                    i as int,
                                    self.entries@[i as int].0,
                                    self.entries@[i as int].1,
                                );
                                assert(self.entries@[i as int].1@ == ValView::Obj(sub_view));
                                assert(self.entries@[i as int].0@ == k@);
                            }
                        },
                        other => {
                            proof {
                                assert(!(old(self)@[i as int].1 is Obj));
                            }
                            self.entries.insert(i, (k, other));
                            proof {
                                assert(self.entries@ =~= old(self).entries@);
                            }
                        },
                    }
                }
            },
        }
    }
}

} // verus!

verus! {

/// The value a numeric or missing field turns into under a typed read.
impl Unstructed {
    /// The keys of the record's top level, in order.
    pub fn keys(&self) -> (r: Vec<String>)
        ensures
            r@.len() == self@.len(),
            forall|i: int| 0 <= i < self@.len() ==> (#[trigger] r@[i])@ == self@[i].0,
    {
        proof {
            lemma_entries_view(self.entries@);
        }
        let mut out: Vec<String> = Vec::new();
        let mut i: usize = 0;
        while i < self.entries.len()
            invariant
                i <= self.entries@.len(),
                out@.len() == i,
                forall|j: int| 0 <= j < i ==> (#[trigger] out@[j])@ == self.entries@[j].0@,
            decreases self.entries@.len() - i,
        {
            out.push(self.entries[i].0.clone());
            i = i + 1;
        }
        out
    }

    /// A record holding, of the listed keys, those the record has, with
    /// their values, in the order listed.
    pub fn cut(&self, keys: &Vec<String>) -> (r: Unstructed)
        ensures
            r@ == spec_cut(self@, crate::condition::strings_view(keys@)),
    {
        proof {
            crate::condition::lemma_strings_view(keys@);
            assert(crate::condition::strings_view(keys@).subrange(0, 0)
                =~= Seq::<Seq<char>>::empty());
        }
        let mut out = Unstructed::new();
        let mut i: usize = 0;
        while i < keys.len()
            invariant
                i <= keys@.len(),
                out@ == spec_cut(self@, crate::condition::strings_view(keys@).subrange(0, i as int)),
            decreases keys@.len() - i,
        {
            let ghost pre = crate::condition::strings_view(keys@).subrange(0, i as int);
            proof {
                lemma_key_idx(self@, keys@[i as int]@);
                lemma_entries_view(self.entries@);
                assert(crate::condition::strings_view(keys@).subrange(0, i as int + 1) =~= pre.push(
                    keys@[i as int]@,
                ));
                lemma_spec_cut_push(self@, pre, keys@[i as int]@);
            }
            match index_of_key(self, keys[i].as_str()) {
                Some(j) => {
                    let key = keys[i].clone();
                    let val = clone_val(&self.entries[j].1);
                    proof {
                        lemma_entries_view_push(out.entries@, key, val);
                    }
                    out.entries.push((key, val));
                },
                None => {},
            }
            i = i + 1;
        }
        proof {
            assert(crate::condition::strings_view(keys@).subrange(
                0,
                keys@.len() as int,
            ) =~= crate::condition::strings_view(keys@));
        }
        out
    }

    /// Removes each listed dotted path, left to right.
    pub fn remove_fields(&mut self, fields: &Vec<String>)
        ensures
            final(self)@ == spec_remove_list(
                old(self)@,
                crate::condition::strings_view(fields@),
            ),
    {
        proof {
            crate::condition::lemma_strings_view(fields@);
            assert(crate::condition::strings_view(fields@).subrange(0, 0)
                =~= Seq::<Seq<char>>::empty());
        }
        let mut i: usize = 0;
        while i < fields.len()
            invariant
                i <= fields@.len(),
                self@ == spec_remove_list(
                    old(self)@,
                    crate::condition::strings_view(fields@).subrange(0, i as int),
                ),
            decreases fields@.len() - i,
        {
            let ghost pre = crate::condition::strings_view(fields@).subrange(0, i as int);
            proof {
                assert(crate::condition::strings_view(fields@).subrange(0, i as int + 1)
                    =~= pre.push(fields@[i as int]@));
                lemma_spec_remove_list_push(old(self)@, pre, fields@[i as int]@);
            }
            self.remove(fields[i].as_str());
            i = i + 1;
        }
        proof {
            assert(crate::condition::strings_view(fields@).subrange(
                0,
                fields@.len() as int,
            ) =~= crate::condition::strings_view(fields@));
        }
    }

    /// Moves each `(from, to)` pair: the value at `from` is stored at `to`
    /// and `from` is removed, left to right.
    pub fn change_fields(&mut self, fields: &Vec<(String, String)>)
        ensures
            final(self)@ == spec_change_list(old(self)@, pairs_view(fields@)),
    {
        proof {
            lemma_pairs_view(fields@);
            assert(pairs_view(fields@).subrange(0, 0) =~= Seq::<(Seq<char>, Seq<char>)>::empty());
        }
        let mut i: usize = 0;
        while i < fields.len()
            invariant
                i <= fields@.len(),
                self@ == spec_change_list(old(self)@, pairs_view(fields@).subrange(0, i as int)),
            decreases fields@.len() - i,
        {
            let ghost pre = pairs_view(fields@).subrange(0, i as int);
            proof {
                assert(pairs_view(fields@).subrange(0, i as int + 1) =~= pre.push(
                    pairs_view(fields@)[i as int],
                ));
                lemma_spec_change_list_push(old(self)@, pre, pairs_view(fields@)[i as int]);
            }
            let value = self.get(fields[i].0.as_str());
            self.set(fields[i].1.as_str(), &value);
            self.remove(fields[i].0.as_str());
            i = i + 1;
        }
        proof {
            assert(pairs_view(fields@).subrange(0, fields@.len() as int) =~= pairs_view(fields@));
        }
    }

    /// Copies the value at `src` (null when absent) to `dst`.
    pub fn copy_field(&mut self, dst: &str, src: &str)
        ensures
            final(self)@ == crate::value::spec_set(
                old(self)@,
                dst@,
                crate::value::spec_get(old(self)@, src@),
            ),
    {
        let value = self.get(src);
        self.set(dst, &value);
    }

    /// The integer at the dotted path `path` when it is one in `u64` range;
    /// `default` otherwise.
    pub fn get_u64(&self, path: &str, default: u64) -> (r: u64)
        ensures
            r == spec_get_u64(self@, path@, default),
    {
        match dotted_lookup(self, path) {
            Some(v) => match v {
                Val::Num(n) => match n {
                    Num::Int(x) => {
                        if 0 <= *x && *x <= 0xFFFF_FFFF_FFFF_FFFFi128 {
                            *x as u64
                        } else {
                            default
                        }
                    },
                    _ => default,
                },
                _ => default,
            },
            None => default,
        }
    }

    /// The string at the dotted path `path`; `default` otherwise.
    pub fn get_string(&self, path: &str, default: &str) -> (r: String)
        ensures
            r@ == spec_get_string(self@, path@, default@),
    {
        match dotted_lookup(self, path) {
            Some(v) => match v {
                Val::Str(s) => s.clone(),
                _ => default.to_owned(),
            },
            None => default.to_owned(),
        }
    }
}

/// The integer a typed read returns; see [`Unstructed::get_u64`].
pub open spec fn spec_get_u64(es: Seq<(Seq<char>, ValView)>, path: Seq<char>, default: u64) -> u64 {
    match crate::value::spec_get_opt(es, path) {
        Some(ValView::Num(Num::Int(v))) => if 0 <= v <= 0xFFFF_FFFF_FFFF_FFFF {
            v as u64
        } else {
            default
        },
        _ => default,
    }
}

/// The string a typed read returns; see [`Unstructed::get_string`].
pub open spec fn spec_get_string(
    es: Seq<(Seq<char>, ValView)>,
    path: Seq<char>,
    default: Seq<char>,
) -> Seq<char> {
    match crate::value::spec_get_opt(es, path) {
        Some(ValView::Str(s)) => s,
        _ => default,
    }
}

/// The record `cut` builds from the listed keys.
pub open spec fn spec_cut(
    es: Seq<(Seq<char>, ValView)>,
    ks: Seq<Seq<char>>,
) -> Seq<(Seq<char>, ValView)>
    decreases ks,
{
    if ks.len() == 0 {
        Seq::empty()
    } else {
        spec_cut(es, ks.subrange(0, ks.len() - 1)) + (match crate::value::lookup(
            es,
            ks[ks.len() - 1],
        ) {
            Some(v) => seq![(ks[ks.len() - 1], v)],
            None => Seq::empty(),
        })
    }
}

/// Taking one more key extends the cut at the end.
pub proof fn lemma_spec_cut_push(es: Seq<(Seq<char>, ValView)>, ks: Seq<Seq<char>>, k: Seq<char>)
    ensures
        spec_cut(es, ks.push(k)) == spec_cut(es, ks) + (match crate::value::lookup(es, k) {
            Some(v) => seq![(k, v)],
            None => Seq::<(Seq<char>, ValView)>::empty(),
        }),
{
    assert(ks.push(k).subrange(0, ks.len() as int) =~= ks);
    assert(ks.push(k)[ks.len() as int] == k);
}

/// Removing the listed paths, left to right.
pub open spec fn spec_remove_list(
    es: Seq<(Seq<char>, ValView)>,
    fs: Seq<Seq<char>>,
) -> Seq<(Seq<char>, ValView)>
    decreases fs,
{
    if fs.len() == 0 {
        es
    } else {
        spec_remove_list(crate::value::spec_remove(es, fs[0]), fs.subrange(1, fs.len() as int))
    }
}

/// Removing one more path at the end removes the earlier ones first.
pub proof fn lemma_spec_remove_list_push(
    es: Seq<(Seq<char>, ValView)>,
    fs: Seq<Seq<char>>,
    f: Seq<char>,
)
    ensures
        spec_remove_list(es, fs.push(f)) == crate::value::spec_remove(
            spec_remove_list(es, fs),
            f,
        ),
    decreases fs,
{
    if fs.len() == 0 {
        assert(fs.push(f)[0] == f);
        assert(fs.push(f).subrange(1, 1) =~= Seq::<Seq<char>>::empty());
        assert(spec_remove_list(
            crate::value::spec_remove(es, f),
            Seq::<Seq<char>>::empty(),
        ) == crate::value::spec_remove(es, f));
    } else {
        let tail = fs.subrange(1, fs.len() as int);
        assert(fs.push(f)[0] == fs[0]);
        assert(fs.push(f).subrange(1, fs.len() as int + 1) =~= tail.push(f));
        lemma_spec_remove_list_push(crate::value::spec_remove(es, fs[0]), tail, f);
        assert(spec_remove_list(es, fs.push(f)) == spec_remove_list(
            crate::value::spec_remove(es, fs[0]),
            tail.push(f),
        ));
        assert(spec_remove_list(es, fs) == spec_remove_list(
            crate::value::spec_remove(es, fs[0]),
            tail,
        ));
    }
}

/// The views of a sequence of key pairs.
pub open spec fn pairs_view(s: Seq<(String, String)>) -> Seq<(Seq<char>, Seq<char>)>
    decreases s,
{
    if s.len() == 0 {
        Seq::empty()
    } else {
        seq![(s[0].0@, s[0].1@)] + pairs_view(s.subrange(1, s.len() as int))
    }
}

/// Element `i` of `pairs_view(s)` is the view of pair `i` of `s`.
pub proof fn lemma_pairs_view(s: Seq<(String, String)>)
    ensures
        pairs_view(s).len() == s.len(),
        forall|i: int| 0 <= i < s.len() ==> pairs_view(s)[i] == (s[i].0@, s[i].1@),
    decreases s,
{
    if s.len() > 0 {
        lemma_pairs_view(s.subrange(1, s.len() as int));
    }
}

/// Moving one field: store the value found at `from` under `to`, then
/// remove `from`.
pub open spec fn spec_change_one(
    es: Seq<(Seq<char>, ValView)>,
    p: (Seq<char>, Seq<char>),
) -> Seq<(Seq<char>, ValView)> {
    crate::value::spec_remove(
        crate::value::spec_set(es, p.1, crate::value::spec_get(es, p.0)),
        p.0,
    )
}

/// Moving the listed fields, left to right.
pub open spec fn spec_change_list(
    es: Seq<(Seq<char>, ValView)>,
    ps: Seq<(Seq<char>, Seq<char>)>,
) -> Seq<(Seq<char>, ValView)>
    decreases ps,
{
    if ps.len() == 0 {
        es
    } else {
        spec_change_list(spec_change_one(es, ps[0]), ps.subrange(1, ps.len() as int))
    }
}

/// Moving one more pair at the end moves the earlier ones first.
pub proof fn lemma_spec_change_list_push(
    es: Seq<(Seq<char>, ValView)>,
    ps: Seq<(Seq<char>, Seq<char>)>,
    p: (Seq<char>, Seq<char>),
)
    ensures
        spec_change_list(es, ps.push(p)) == spec_change_one(spec_change_list(es, ps), p),
    decreases ps,
{
    if ps.len() == 0 {
        assert(ps.push(p)[0] == p);
        assert(ps.push(p).subrange(1, 1) =~= Seq::<(Seq<char>, Seq<char>)>::empty());
        assert(spec_change_list(spec_change_one(es, p), Seq::<(Seq<char>, Seq<char>)>::empty())
            == spec_change_one(es, p));
    } else {
        let tail = ps.subrange(1, ps.len() as int);
        assert(ps.push(p)[0] == ps[0]);
        assert(ps.push(p).subrange(1, ps.len() as int + 1) =~= tail.push(p));
        lemma_spec_change_list_push(spec_change_one(es, ps[0]), tail, p);
        assert(spec_change_list(es, ps.push(p)) == spec_change_list(
            spec_change_one(es, ps[0]),
            tail.push(p),
        ));
        assert(spec_change_list(es, ps) == spec_change_list(spec_change_one(es, ps[0]), tail));
    }
}

/// An empty record.
pub fn empty_unstructed() -> (r: Unstructed)
    ensures
        r@ == Seq::<(Seq<char>, ValView)>::empty(),
{
    Unstructed::new()
}

/// A record made of the given entries.
pub fn from_map(entries: Vec<(String, Val)>) -> (r: Unstructed)
    ensures
        r@ == entries_view(entries@),
{
    Unstructed { entries }
}

} // verus!

verus! {

impl Unstructed {
    /// Parses the predicate and evaluates it against this record; an error
    /// reproduces the offending text exactly when the text does not parse.
    pub fn match_by_predicate(&self, predicate: &str) -> (r: Result<bool, String>)
        requires
            crate::value::uv_wf(self@),
        ensures
            match r {
                Ok(b) => crate::parse::sp_parse(predicate@) matches Some(e) && b
                    == crate::matchs::spec_matches(self@, e),
                Err(_) => crate::parse::sp_parse(predicate@) is None,
            },
    {
        match crate::parse::yacc_parse(predicate) {
            Ok(e) => Ok(crate::matchs::filter(self, &e)),
            Err(msg) => Err(msg),
        }
    }
}

/// Whether one rule holds of the record: its predicate parses, and the
/// record's answer agrees with the rule's expected sense.
pub open spec fn rule_ok(es: Seq<(Seq<char>, ValView)>, rule: Seq<char>, sense: bool) -> bool {
    match crate::parse::sp_parse(rule) {
        Some(e) => crate::matchs::spec_matches(es, e) == sense,
        None => false,
    }
}

/// Whether rule `i` is the first rule record `i` of `items` breaks.
pub open spec fn first_broken_of(
    items: Seq<(Unstructed, String, String, bool)>,
    i: int,
) -> bool {
    &&& 0 <= i < items.len()
    &&& (forall|j: int|
        0 <= j < i ==> rule_ok((#[trigger] items[j]).0@, items[j].1@, items[j].3))
    &&& !rule_ok(items[i].0@, items[i].1@, items[i].3)
}

/// Whether rule `i` is the first rule the record breaks.
pub open spec fn first_broken(
    es: Seq<(Seq<char>, ValView)>,
    rules: Seq<(String, String, bool)>,
    i: int,
) -> bool {
    &&& 0 <= i < rules.len()
    &&& (forall|j: int| 0 <= j < i ==> rule_ok(es, (#[trigger] rules[j]).0@, rules[j].2))
    &&& !rule_ok(es, rules[i].0@, rules[i].2)
}

/// Checks the rules against the record, in order: each rule must parse and
/// the record must match it exactly when the rule's flag says so.  The
/// first broken rule's message comes back as the error.
#[verifier::rlimit(100)]
pub fn validate(item: &Unstructed, rules: &Vec<(String, String, bool)>) -> (r: Result<(), String>)
    requires
        crate::value::uv_wf(item@),
    ensures
        r is Ok <==> (forall|i: int|
            0 <= i < rules@.len() ==> rule_ok(item@, (#[trigger] rules@[i]).0@, rules@[i].2)),
        r matches Err(m) ==> exists|i: int|
            {
                &&& #[trigger] first_broken(item@, rules@, i)
                &&& if crate::parse::sp_parse(rules@[i].0@) is Some {
                    m@ == rules@[i].1@
                } else {
                    "validate failed: "@.is_prefix_of(m@)
                }
            },
{
    let mut i: usize = 0;
    while i < rules.len()
        invariant
            i <= rules@.len(),
            crate::value::uv_wf(item@),
            forall|j: int|
                0 <= j < i ==> rule_ok(item@, (#[trigger] rules@[j]).0@, rules@[j].2),
        decreases rules@.len() - i,
    {
        match item.match_by_predicate(rules[i].0.as_str()) {
            Ok(rs) => {
                if !((rules[i].2 && rs) || (!rules[i].2 && !rs)) {
                    proof {
                        assert(!rule_ok(item@, rules@[i as int].0@, rules@[i as int].2));
                        assert(first_broken(item@, rules@, i as int));
                    }
                    return Err(rules[i].1.clone());
                }
            },
            Err(e) => {
                let m = String::from_str("validate failed: ").concat(e.as_str());
                proof {
                    assert(!rule_ok(item@, rules@[i as int].0@, rules@[i as int].2));
                    assert(first_broken(item@, rules@, i as int));
                    reveal_strlit("validate failed: ");
                    assert("validate failed: "@.is_prefix_of(m@)) by {
                        assert(m@.subrange(0, "validate failed: "@.len() as int)
                            =~= "validate failed: "@);
                    }
                }
                return Err(m);
            },
        }
        i = i + 1;
    }
    Ok(())
}

/// Checks each record against its own rule, in order; see [`validate`].
#[verifier::rlimit(100)]
pub fn validates(items: &Vec<(Unstructed, String, String, bool)>) -> (r: Result<(), String>)
    requires
        forall|i: int| 0 <= i < items@.len() ==> crate::value::uv_wf((#[trigger] items@[i]).0@),
    ensures
        r is Ok <==> (forall|i: int|
            0 <= i < items@.len() ==> rule_ok(
                (#[trigger] items@[i]).0@,
                items@[i].1@,
                items@[i].3,
            )),
        r matches Err(m) ==> exists|i: int|
            {
                &&& #[trigger] first_broken_of(items@, i)
                &&& if crate::parse::sp_parse(items@[i].1@) is Some {
                    m@ == items@[i].2@
                } else {
                    "validate failed: "@.is_prefix_of(m@)
                }
            },
{
    let mut i: usize = 0;
    while i < items.len()
        invariant
            i <= items@.len(),
            forall|j: int| 0 <= j < items@.len() ==> crate::value::uv_wf((#[trigger] items@[j]).0@),
            forall|j: int|
                0 <= j < i ==> rule_ok((#[trigger] items@[j]).0@, items@[j].1@, items@[j].3),
        decreases items@.len() - i,
    {
        match items[i].0.match_by_predicate(items[i].1.as_str()) {
            Ok(rs) => {
                if !((items[i].3 && rs) || (!items[i].3 && !rs)) {
                    proof {
                        assert(!rule_ok(items@[i as int].0@, items@[i as int].1@, items@[i as int].3));
                        assert(first_broken_of(items@, i as int));
                    }
                    return Err(items[i].2.clone());
                }
            },
            Err(e) => {
                let m = String::from_str("validate failed: ").concat(e.as_str());
                proof {
                    assert(!rule_ok(items@[i as int].0@, items@[i as int].1@, items@[i as int].3));
                    assert(first_broken_of(items@, i as int));
                    reveal_strlit("validate failed: ");
                    assert("validate failed: "@.is_prefix_of(m@)) by {
                        assert(m@.subrange(0, "validate failed: "@.len() as int)
                            =~= "validate failed: "@);
                    }
                }
                return Err(m);
            },
        }
        i = i + 1;
    }
    Ok(())
}

} // verus!

verus! {

/// Looks the dotted path `path` up in `m`, keeping a missing path apart
/// from an explicit null; see
/// [`spec_get_opt`](crate::value::spec_get_opt).
pub fn dotted_lookup<'a>(m: &'a Unstructed, path: &str) -> (r: Option<&'a Val>)
    ensures
        match r {
            Some(v) => crate::value::spec_get_opt(m@, path@) == Some(v@),
            None => crate::value::spec_get_opt(m@, path@) is None,
        },
    decreases path@.len(),
{
    proof {
        crate::value::lemma_dot_pos(path@);
        lemma_key_idx(m@, crate::value::path_head(path@));
        lemma_entries_view(m.entries@);
    }
    let (head, rest) = shift(path);
    match index_of_key(m, head.as_str()) {
        None => None,
        Some(i) => {
            proof {
                assert(crate::value::lookup(m@, crate::value::path_head(path@)) == Some(
                    m@[i as int].1,
                ));
                assert(m@[i as int].1 == m.entries@[i as int].1@);
            }
            if rest.as_str().is_empty() {
                Some(&m.entries[i].1)
            } else {
                match &m.entries[i].1 {
                    Val::Obj(inner) => {
                        proof {
                            assert(m@[i as int].1 == ValView::Obj(inner@));
                        }
                        dotted_lookup(inner, rest.as_str())
                    },
                    _ => {
                        proof {
                            assert(!(m@[i as int].1 is Obj));
                        }
                        None
                    },
                }
            }
        },
    }
}

} // verus!
