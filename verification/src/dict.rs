//! Dotted-path access and the structural field merge the `apply` operation
//! uses.

use vstd::prelude::*;

use crate::condition::{lemma_strings_view, strings_view};
use crate::record::val_eq;
use crate::value::{
    key_idx, lemma_key_idx, lemma_ventries_wf, path_head, path_rest, spec_get, spec_remove,
    spec_set, uv_wf, vv_eq, vv_wf, Unstructed, Val, ValView,
};

verus! {

/// The value at the dotted path `path` of `data`; see
/// [`Unstructed::get`](crate::record).
pub fn get(data: &Unstructed, path: &str) -> (r: Val)
    ensures
        r@ == spec_get(data@, path@),
{
    data.get(path)
}

/// Stores `value` at the dotted path `path` of `data`; see
/// [`Unstructed::set`](crate::record).
pub fn set(data: &mut Unstructed, path: &str, value: &Val)
    ensures
        final(data)@ == spec_set(old(data)@, path@, value@),
{
    data.set(path, value)
}

/// Removes the dotted path `path` of `data`; see
/// [`Unstructed::remove`](crate::record).
pub fn remove(data: &mut Unstructed, path: &str)
    ensures
        final(data)@ == spec_remove(old(data)@, path@),
{
    data.remove(path)
}

/// The value a well-formed record holds at any path is well-formed.
pub proof fn lemma_spec_get_wf(es: Seq<(Seq<char>, ValView)>, p: Seq<char>)
    requires
        uv_wf(es),
    ensures
        vv_wf(spec_get(es, p)),
    decreases p.len(),
{
    crate::value::lemma_dot_pos(p);
    lemma_key_idx(es, path_head(p));
    lemma_ventries_wf(es);
    if key_idx(es, path_head(p)) >= 0 {
        let v = es[key_idx(es, path_head(p))].1;
        if path_rest(p).len() > 0 {
            match v {
                ValView::Obj(es2) => {
                    lemma_spec_get_wf(es2, path_rest(p));
                },
                _ => {},
            }
        }
    }
}

/// Storing a well-formed value at any path of a well-formed record keeps the
/// record well-formed.
pub proof fn lemma_spec_set_wf(es: Seq<(Seq<char>, ValView)>, p: Seq<char>, v: ValView)
    requires
        uv_wf(es),
        vv_wf(v),
    ensures
        uv_wf(spec_set(es, p, v)),
    decreases p.len(),
{
    crate::value::lemma_dot_pos(p);
    lemma_ventries_wf(es);
    let h = path_head(p);
    let r = path_rest(p);
    if r.len() == 0 {
        lemma_key_idx(es, p);
        let j = key_idx(es, p);
        if j >= 0 {
            let out = es.update(j, (p, v));
            lemma_ventries_wf(out);
            assert(crate::value::keys_unique(out));
        } else {
            let out = es.push((p, v));
            lemma_ventries_wf(out);
            assert(crate::value::keys_unique(out));
        }
    } else {
        lemma_key_idx(es, h);
        let i = key_idx(es, h);
        if i >= 0 {
            match es[i].1 {
                ValView::Obj(es2) => {
                    lemma_spec_set_wf(es2, r, v);
                    let out = es.update(i, (h, ValView::Obj(spec_set(es2, r, v))));
                    lemma_ventries_wf(out);
                    assert(crate::value::keys_unique(out));
                },
                _ => {
                    lemma_spec_set_wf(Seq::empty(), r, v);
                    let out = es.update(
                        i,
                        (h, ValView::Obj(spec_set(Seq::empty(), r, v))),
                    );
                    lemma_ventries_wf(out);
                    assert(crate::value::keys_unique(out));
                },
            }
        } else {
            lemma_spec_set_wf(Seq::empty(), r, v);
            let out = es.push((h, ValView::Obj(spec_set(Seq::empty(), r, v))));
            lemma_ventries_wf(out);
            assert(crate::value::keys_unique(out));
        }
    }
}

/// One field of the merge: when old and new disagree at the path, the new
/// value overwrites the old one.
pub open spec fn spec_merge_one(
    es: Seq<(Seq<char>, ValView)>,
    new_es: Seq<(Seq<char>, ValView)>,
    f: Seq<char>,
) -> Seq<(Seq<char>, ValView)> {
    if vv_eq(spec_get(es, f), spec_get(new_es, f)) {
        es
    } else {
        spec_set(es, f, spec_get(new_es, f))
    }
}

/// The structural merge: each listed field of the new record overwrites the
/// old one where they disagree; unlisted fields are untouched.
pub open spec fn spec_merge(
    es: Seq<(Seq<char>, ValView)>,
    new_es: Seq<(Seq<char>, ValView)>,
    fs: Seq<Seq<char>>,
) -> Seq<(Seq<char>, ValView)>
    decreases fs,
{
    if fs.len() == 0 {
        es
    } else {
        spec_merge(spec_merge_one(es, new_es, fs[0]), new_es, fs.subrange(1, fs.len() as int))
    }
}

/// Whether the merge changed anything: some listed field disagreed.
pub open spec fn spec_merge_changed(
    es: Seq<(Seq<char>, ValView)>,
    new_es: Seq<(Seq<char>, ValView)>,
    fs: Seq<Seq<char>>,
) -> bool
    decreases fs,
{
    if fs.len() == 0 {
        false
    } else {
        !vv_eq(spec_get(es, fs[0]), spec_get(new_es, fs[0])) || spec_merge_changed(
            spec_merge_one(es, new_es, fs[0]),
            new_es,
            fs.subrange(1, fs.len() as int),
        )
    }
}

/// Merging one more field at the end merges the earlier fields first.
pub proof fn lemma_spec_merge_push(
    es: Seq<(Seq<char>, ValView)>,
    new_es: Seq<(Seq<char>, ValView)>,
    fs: Seq<Seq<char>>,
    f: Seq<char>,
)
    ensures
        spec_merge(es, new_es, fs.push(f)) == spec_merge_one(spec_merge(es, new_es, fs), new_es, f),
        spec_merge_changed(es, new_es, fs.push(f)) == (spec_merge_changed(es, new_es, fs)
            || !vv_eq(spec_get(spec_merge(es, new_es, fs), f), spec_get(new_es, f))),
    decreases fs,
{
    if fs.len() == 0 {
        assert(fs.push(f)[0] == f);
        assert(fs.push(f).subrange(1, 1) =~= Seq::<Seq<char>>::empty());
        assert(spec_merge(es, new_es, fs.push(f)) == spec_merge(
            spec_merge_one(es, new_es, f),
            new_es,
            fs.push(f).subrange(1, 1),
        ));
        assert(spec_merge(spec_merge_one(es, new_es, f), new_es, Seq::<Seq<char>>::empty())
            == spec_merge_one(es, new_es, f));
        assert(spec_merge_changed(
            spec_merge_one(es, new_es, f),
            new_es,
            Seq::<Seq<char>>::empty(),
        ) == false);
    } else {
        let tail = fs.subrange(1, fs.len() as int);
        assert(fs.push(f)[0] == fs[0]);
        assert(fs.push(f).subrange(1, fs.len() as int + 1) =~= tail.push(f));
        lemma_spec_merge_push(spec_merge_one(es, new_es, fs[0]), new_es, tail, f);
        assert(spec_merge(es, new_es, fs.push(f)) == spec_merge(
            spec_merge_one(es, new_es, fs[0]),
            new_es,
            tail.push(f),
        ));
        assert(spec_merge(es, new_es, fs) == spec_merge(
            spec_merge_one(es, new_es, fs[0]),
            new_es,
            tail,
        ));
        assert(spec_merge_changed(es, new_es, fs.push(f)) == (!vv_eq(
            spec_get(es, fs[0]),
            spec_get(new_es, fs[0]),
        ) || spec_merge_changed(spec_merge_one(es, new_es, fs[0]), new_es, tail.push(f))));
        assert(spec_merge_changed(es, new_es, fs) == (!vv_eq(
            spec_get(es, fs[0]),
            spec_get(new_es, fs[0]),
        ) || spec_merge_changed(spec_merge_one(es, new_es, fs[0]), new_es, tail)));
    }
}

/// Overwrites `old_map`'s value at `field` with `new_map`'s when the two
/// disagree; reports whether it did.
pub fn compare_and_merge_value(old_map: &mut Unstructed, new_map: &Unstructed, field: &str) -> (r:
    bool)
    requires
        uv_wf(old(old_map)@),
        uv_wf(new_map@),
    ensures
        final(old_map)@ == spec_merge_one(old(old_map)@, new_map@, field@),
        r == !vv_eq(spec_get(old(old_map)@, field@), spec_get(new_map@, field@)),
        uv_wf(final(old_map)@),
{
    proof {
        lemma_spec_get_wf(old_map@, field@);
        lemma_spec_get_wf(new_map@, field@);
    }
    let old_value = old_map.get(field);
    let new_value = new_map.get(field);
    if !val_eq(&old_value, &new_value) {
        proof {
            lemma_spec_set_wf(old_map@, field@, new_value@);
        }
        old_map.set(field, &new_value);
        true
    } else {
        false
    }
}

/// Merges the listed fields of `new_map` into `old_map`; see [`spec_merge`].
/// Reports whether any field changed, as the `apply` operation requires.
pub fn compare_and_merge(old_map: &mut Unstructed, new_map: &Unstructed, fields: &Vec<String>) -> (
    r: bool)
    requires
        uv_wf(old(old_map)@),
        uv_wf(new_map@),
    ensures
        final(old_map)@ == spec_merge(old(old_map)@, new_map@, strings_view(fields@)),
        r == spec_merge_changed(old(old_map)@, new_map@, strings_view(fields@)),
        uv_wf(final(old_map)@),
{
    proof {
        lemma_strings_view(fields@);
    }
    let mut updated = false;
    let mut i: usize = 0;
    proof {
        assert(strings_view(fields@).subrange(0, 0) =~= Seq::<Seq<char>>::empty());
    }
    while i < fields.len()
        invariant
            i <= fields@.len(),
            uv_wf(old_map@),
            uv_wf(new_map@),
            old_map@ == spec_merge(
                old(old_map)@,
                new_map@,
                strings_view(fields@).subrange(0, i as int),
            ),
            updated == spec_merge_changed(
                old(old_map)@,
                new_map@,
                strings_view(fields@).subrange(0, i as int),
            ),
        decreases fields@.len() - i,
    {
        let ghost pre = strings_view(fields@).subrange(0, i as int);
        let changed = compare_and_merge_value(old_map, new_map, fields[i].as_str());
        if changed {
            updated = true;
        }
        i = i + 1;
        proof {
            assert(strings_view(fields@).subrange(0, i as int) =~= pre.push(
                strings_view(fields@)[i - 1],
            ));
            lemma_spec_merge_push(old(old_map)@, new_map@, pre, strings_view(fields@)[i - 1]);
        }
    }
    proof {
        assert(strings_view(fields@).subrange(0, fields@.len() as int) =~= strings_view(fields@));
    }
    updated
}

} // verus!

verus! {

/// A projection list the merge laws speak of: every field a plain dotted
/// path, and no two fields sharing a route (one inside the other's subtree
/// would let a later field overwrite an earlier one's work).
pub open spec fn fields_ok(fs: Seq<Seq<char>>) -> bool {
    &&& (forall|i: int| 0 <= i < fs.len() ==> crate::value::path_ok(#[trigger] fs[i]))
    &&& (forall|i: int, j: int|
        0 <= i < fs.len() && 0 <= j < fs.len() && i != j ==> crate::value::paths_disjoint(
            fs[i],
            fs[j],
        ))
}

/// Merging fields that are all disjoint from `q` never disturbs what `q`
/// holds.
pub proof fn lemma_merge_frame(
    es: Seq<(Seq<char>, ValView)>,
    new_es: Seq<(Seq<char>, ValView)>,
    fs: Seq<Seq<char>>,
    q: Seq<char>,
)
    requires
        forall|i: int|
            0 <= i < fs.len() ==> crate::value::path_ok(#[trigger] fs[i])
                && crate::value::paths_disjoint(fs[i], q),
    ensures
        crate::value::spec_get_opt(spec_merge(es, new_es, fs), q) == crate::value::spec_get_opt(
            es,
            q,
        ),
    decreases fs,
{
    if fs.len() > 0 {
        let tail = fs.subrange(1, fs.len() as int);
        assert(forall|i: int| 0 <= i < tail.len() ==> tail[i] == fs[i + 1]);
        if !vv_eq(spec_get(es, fs[0]), spec_get(new_es, fs[0])) {
            crate::value::lemma_set_frame(es, fs[0], spec_get(new_es, fs[0]), q);
        }
        lemma_merge_frame(spec_merge_one(es, new_es, fs[0]), new_es, tail, q);
    }
}

/// After the merge, every projected field of the result agrees with the new
/// record.
pub proof fn lemma_merge_agrees(
    es: Seq<(Seq<char>, ValView)>,
    new_es: Seq<(Seq<char>, ValView)>,
    fs: Seq<Seq<char>>,
)
    requires
        fields_ok(fs),
    ensures
        forall|i: int|
            0 <= i < fs.len() ==> vv_eq(
                spec_get(spec_merge(es, new_es, fs), #[trigger] fs[i]),
                spec_get(new_es, fs[i]),
            ),
    decreases fs,
{
    if fs.len() > 0 {
        let f0 = fs[0];
        let tail = fs.subrange(1, fs.len() as int);
        assert(forall|i: int| 0 <= i < tail.len() ==> tail[i] == fs[i + 1]);
        assert(fields_ok(tail));
        let once = spec_merge_one(es, new_es, f0);
        assert(spec_merge(es, new_es, fs) == spec_merge(once, new_es, tail));
        // the first field is settled by the first step and framed through the rest
        assert(forall|i: int|
            0 <= i < tail.len() ==> crate::value::path_ok(#[trigger] tail[i])
                && crate::value::paths_disjoint(tail[i], f0));
        lemma_merge_frame(once, new_es, tail, f0);
        crate::value::lemma_get_opt_get(spec_merge(once, new_es, tail), f0);
        crate::value::lemma_get_opt_get(once, f0);
        assert(crate::value::path_ok(f0));
        if vv_eq(spec_get(es, f0), spec_get(new_es, f0)) {
            assert(once == es);
        } else {
            assert(once == crate::value::spec_set(es, f0, spec_get(new_es, f0)));
            crate::value::lemma_get_set(es, f0, spec_get(new_es, f0));
            crate::value::lemma_vv_eq_refl(spec_get(new_es, f0));
        }
        assert(vv_eq(spec_get(once, f0), spec_get(new_es, f0)));
        assert(crate::value::spec_get_opt(spec_merge(once, new_es, tail), f0)
            == crate::value::spec_get_opt(once, f0));
        assert(spec_get(spec_merge(es, new_es, fs), f0) == spec_get(once, f0));
        assert(vv_eq(spec_get(spec_merge(es, new_es, fs), f0), spec_get(new_es, f0)));
        // the rest is the induction hypothesis on the tail
        lemma_merge_agrees(once, new_es, tail);
        assert forall|i: int| 1 <= i < fs.len() implies vv_eq(
            spec_get(spec_merge(es, new_es, fs), #[trigger] fs[i]),
            spec_get(new_es, fs[i]),
        ) by {
            assert(tail[i - 1] == fs[i]);
        };
    }
}

/// A record that already agrees with the new one on every projected field
/// is left alone by the merge, which reports no update.
pub proof fn lemma_merge_unchanged(
    es: Seq<(Seq<char>, ValView)>,
    new_es: Seq<(Seq<char>, ValView)>,
    fs: Seq<Seq<char>>,
)
    requires
        forall|i: int|
            0 <= i < fs.len() ==> vv_eq(spec_get(es, #[trigger] fs[i]), spec_get(new_es, fs[i])),
    ensures
        !spec_merge_changed(es, new_es, fs),
        spec_merge(es, new_es, fs) == es,
    decreases fs,
{
    if fs.len() > 0 {
        let tail = fs.subrange(1, fs.len() as int);
        assert(forall|i: int| 0 <= i < tail.len() ==> tail[i] == fs[i + 1]);
        assert(spec_merge_one(es, new_es, fs[0]) == es);
        lemma_merge_unchanged(es, new_es, tail);
    }
}

/// **The merge is idempotent.**  Once `apply`'s merge has carried the
/// projected fields over, merging the same records again changes nothing
/// and reports no update.  The law asks the fields to be plain dotted paths
/// sharing no route: with overlapping fields, say one inside the other's
/// subtree, a later field can overwrite an earlier one's work and the first
/// pass need not settle.
pub proof fn lemma_merge_idempotent(
    es: Seq<(Seq<char>, ValView)>,
    new_es: Seq<(Seq<char>, ValView)>,
    fs: Seq<Seq<char>>,
)
    requires
        fields_ok(fs),
    ensures
        !spec_merge_changed(spec_merge(es, new_es, fs), new_es, fs),
        spec_merge(spec_merge(es, new_es, fs), new_es, fs) == spec_merge(es, new_es, fs),
{
    lemma_merge_agrees(es, new_es, fs);
    lemma_merge_unchanged(spec_merge(es, new_es, fs), new_es, fs);
}

} // verus!
