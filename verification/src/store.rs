//! Storage-side logic: error taxonomy, change-stream events, the watch
//! classification rule, and the documents the driver sends to the backend.

use vstd::prelude::*;

use crate::cond::Expr;
use crate::condition::{Sort, SortDirection};
use crate::matchs::{expr_wf, filter, spec_matches};

use crate::value::{spec_get, spec_set, Num, Unstructed, Val, ValView};

verus! {

/// What can go wrong talking to the store.
#[derive(Debug)]
pub enum StoreError {
    DataNotFound,
    DuplicateKey(String),
    ConnectionError(String),
    OtherError(String),
}

impl StoreError {
    /// A human-readable description of the error.
    pub fn message(&self) -> (r: String)
        ensures
            match self {
                StoreError::DataNotFound => r@ == "data not found"@,
                StoreError::DuplicateKey(k) => r@ == "the data for key `"@ + k@ + "` is duplicate"@,
                StoreError::ConnectionError(m) => r@ == "store connection abnormal info `"@ + m@
                    + "`"@,
                StoreError::OtherError(m) => r@ == "store error `"@ + m@ + "`"@,
            },
    {
        match self {
            StoreError::DataNotFound => String::from_str("data not found"),
            StoreError::DuplicateKey(k) => String::from_str("the data for key `").concat(
                k.as_str(),
            ).concat("` is duplicate"),
            StoreError::ConnectionError(m) => String::from_str(
                "store connection abnormal info `",
            ).concat(m.as_str()).concat("`"),
            StoreError::OtherError(m) => String::from_str("store error `").concat(
                m.as_str(),
            ).concat("`"),
        }
    }
}

/// What can go wrong in the service layer.
#[derive(Debug)]
pub enum ServiceError {
    InternalError(StoreError),
    Other(String),
}

/// A change delivered on a watch stream: a record appeared, changed, or went
/// away, or the stream failed.  A deletion carries only the identifying key
/// map, because the full record is no longer retrievable.
#[derive(Debug)]
pub enum Event<T> {
    Added(T),
    Updated(T),
    Deleted(Unstructed),
    Error(String),
}

/// The operation a change-feed event reports.
#[derive(Clone, Copy, Debug, PartialEq, Eq, Structural)]
pub enum OpKind {
    Insert,
    Update,
    Replace,
    Delete,
    Other,
}

/// What the watch producer does with one feed event: deliver an event, pass
/// it over, or stop the stream.
#[derive(Debug)]
pub enum WatchStep {
    Emit(Event<Unstructed>),
    Skip,
    Stop,
}

/// Classifies one change-feed event, as the watch producer does: an insert
/// becomes `Added` and an update or replace becomes `Updated` when the
/// record passes the filter, and is passed over otherwise; a delete becomes
/// `Deleted` with the key map, unchecked; an event without its record stops
/// the stream; other operations are passed over.  A `None` filter means the
/// filter text was empty and every record passes.
pub fn classify_event(
    kind: OpKind,
    full_document: Option<Unstructed>,
    document_key: Option<Unstructed>,
    filter_expr: Option<&Expr>,
) -> (r: WatchStep)
    requires
        (match full_document {
            Some(d) => crate::value::uv_wf(d@),
            None => true,
        }),
        (match filter_expr {
            Some(e) => expr_wf(e@),
            None => true,
        }),
    ensures
        kind == OpKind::Insert || kind == OpKind::Update || kind == OpKind::Replace ==> match (
            full_document,
            r,
        ) {
            (None, WatchStep::Stop) => true,
            (Some(d), WatchStep::Emit(ev)) => {
                &&& (match filter_expr {
                    Some(e) => spec_matches(d@, e@),
                    None => true,
                })
                &&& if kind == OpKind::Insert {
                    ev matches Event::Added(x) && x@ == d@
                } else {
                    ev matches Event::Updated(x) && x@ == d@
                }
            },
            (Some(d), WatchStep::Skip) => match filter_expr {
                Some(e) => !spec_matches(d@, e@),
                None => false,
            },
            _ => false,
        },
        kind == OpKind::Delete ==> match (document_key, r) {
            (None, WatchStep::Stop) => true,
            (Some(k), WatchStep::Emit(ev)) => ev matches Event::Deleted(x) && x@ == k@,
            _ => false,
        },
        kind == OpKind::Other ==> r is Skip,
{
    match kind {
        OpKind::Insert => match full_document {
            None => WatchStep::Stop,
            Some(d) => {
                let passes = match filter_expr {
                    Some(e) => filter(&d, e),
                    None => true,
                };
                if passes {
                    WatchStep::Emit(Event::Added(d))
                } else {
                    WatchStep::Skip
                }
            },
        },
        OpKind::Update | OpKind::Replace => match full_document {
            None => WatchStep::Stop,
            Some(d) => {
                let passes = match filter_expr {
                    Some(e) => filter(&d, e),
                    None => true,
                };
                if passes {
                    WatchStep::Emit(Event::Updated(d))
                } else {
                    WatchStep::Skip
                }
            },
        },
        OpKind::Delete => match document_key {
            None => WatchStep::Stop,
            Some(k) => WatchStep::Emit(Event::Deleted(k)),
        },
        OpKind::Other => WatchStep::Skip,
    }
}

/// Relies on `std::time::SystemTime::now` and
/// `Duration::as_secs`: the seconds of the Unix epoch clock.  A system
/// clock before the epoch reads as zero rather than failing.
#[verifier::external_body]
pub fn current_time_sess() -> u64 {
    match std::time::SystemTime::now().duration_since(std::time::UNIX_EPOCH) {
        Ok(d) => d.as_secs(),
        Err(_) => 0,
    }
}

/// Relies on `bson::oid::ObjectId::new` and `ObjectId::to_hex`: a fresh
/// object identifier rendered as two hexadecimal digits per byte of the
/// twelve-byte identifier.  `ObjectId::new` reads the system clock and does
/// not return under a clock before 1970 or past 2106.
#[verifier::external_body]
pub fn uuid() -> (r: String)
    ensures
        r@.len() == 24,
        forall|i: int| 0 <= i < 24 ==> crate::filter::is_hex(#[trigger] r@[i]),
{
    bson::oid::ObjectId::new().to_hex()
}

/// Whether the record carries no identifier: the `_id` field is missing,
/// null, or an empty string.
pub open spec fn id_absent(es: Seq<(Seq<char>, ValView)>) -> bool {
    ||| spec_get(es, crate::filter::id_field()) is Null
    ||| (spec_get(es, crate::filter::id_field()) matches ValView::Str(s) && s.len() == 0)
}

/// Gives the record an identifier when it has none: a record whose `_id` is
/// missing, null or empty gets a fresh one and the new identifier is
/// returned.
pub fn ensure_id(record: &mut Unstructed) -> (r: Option<String>)
    ensures
        match r {
            Some(id) => {
                &&& id_absent(old(record)@)
                &&& crate::filter::oid_ok(id@)
                &&& final(record)@ == spec_set(
                    old(record)@,
                    crate::filter::id_field(),
                    ValView::Str(id@),
                )
            },
            None => {
                &&& !id_absent(old(record)@)
                &&& final(record)@ == old(record)@
            },
        },
{
    proof {
        reveal_strlit("_id");
        assert("_id"@ =~= crate::filter::id_field());
    }
    let current = record.get("_id");
    let absent = match &current {
        Val::Null => true,
        Val::Str(s) => s.as_str().unicode_len() == 0,
        _ => false,
    };
    if absent {
        let id = uuid();
        record.set("_id", &Val::Str(id.clone()));
        Some(id)
    } else {
        None
    }
}

/// The `$set` document of a partial update: each projected field paired with
/// its value in the record, followed by a fresh `version` stamp when version
/// stamping is on.
pub fn build_update_doc(
    record: &Unstructed,
    fields: &Vec<String>,
    update_version: bool,
    now: u64,
) -> (r: Vec<(String, Val)>)
    ensures
        r@.len() == fields@.len() + (if update_version {
            1int
        } else {
            0int
        }),
        forall|i: int|
            0 <= i < fields@.len() ==> (#[trigger] r@[i]).0@ == fields@[i]@ && r@[i].1@ == spec_get(
                record@,
                fields@[i]@,
            ),
        update_version ==> r@[fields@.len() as int].0@ == "version"@ && r@[fields@.len() as int].1@
            == ValView::Num(Num::Int(now as i128)),
{
    let mut out: Vec<(String, Val)> = Vec::new();
    let mut i: usize = 0;
    while i < fields.len()
        invariant
            i <= fields@.len(),
            out@.len() == i,
            forall|j: int|
                0 <= j < i ==> (#[trigger] out@[j]).0@ == fields@[j]@ && out@[j].1@ == spec_get(
                    record@,
                    fields@[j]@,
                ),
        decreases fields@.len() - i,
    {
        let value = record.get(fields[i].as_str());
        out.push((fields[i].clone(), value));
        i = i + 1;
    }
    if update_version {
        out.push((String::from_str("version"), Val::Num(Num::from_u64(now))));
    }
    out
}

/// The `$inc` document of an atomic increment: each named field paired with
/// its signed delta.
pub fn build_incr_doc(pairs: &Vec<(String, i64)>) -> (r: Vec<(String, Val)>)
    ensures
        r@.len() == pairs@.len(),
        forall|i: int|
            0 <= i < pairs@.len() ==> (#[trigger] r@[i]).0@ == pairs@[i].0@ && r@[i].1@
                == ValView::Num(Num::Int(pairs@[i].1 as i128)),
{
    let mut out: Vec<(String, Val)> = Vec::new();
    let mut i: usize = 0;
    while i < pairs.len()
        invariant
            i <= pairs@.len(),
            out@.len() == i,
            forall|j: int|
                0 <= j < i ==> (#[trigger] out@[j]).0@ == pairs@[j].0@ && out@[j].1@
                    == ValView::Num(Num::Int(pairs@[j].1 as i128)),
        decreases pairs@.len() - i,
    {
        out.push((pairs[i].0.clone(), Val::Num(Num::from_i64(pairs[i].1))));
        i = i + 1;
    }
    out
}

/// The sort document of a find: each key paired with `1` for ascending and
/// `-1` for descending.
pub fn build_sort_doc(sorts: &Vec<Sort>) -> (r: Vec<(String, i32)>)
    ensures
        r@.len() == sorts@.len(),
        forall|i: int|
            0 <= i < sorts@.len() ==> (#[trigger] r@[i]).0@ == sorts@[i].field@ && r@[i].1 == (
            if sorts@[i].order == SortDirection::Ascending {
                1int
            } else {
                -1int
            }),
{
    let mut out: Vec<(String, i32)> = Vec::new();
    let mut i: usize = 0;
    while i < sorts.len()
        invariant
            i <= sorts@.len(),
            out@.len() == i,
            forall|j: int|
                0 <= j < i ==> (#[trigger] out@[j]).0@ == sorts@[j].field@ && out@[j].1 == (
                if sorts@[j].order == SortDirection::Ascending {
                    1int
                } else {
                    -1int
                }),
        decreases sorts@.len() - i,
    {
        let dir: i32 = match sorts[i].order {
            SortDirection::Ascending => 1,
            SortDirection::Descending => -1,
        };
        out.push((sorts[i].field.clone(), dir));
        i = i + 1;
    }
    out
}

/// The skip count of a pageable find: the page number times the page size.
pub fn page_skip(page: usize, size: usize) -> (r: u64)
    requires
        page * size <= u64::MAX,
    ensures
        r == page * size,
{
    (page as u64) * (size as u64)
}

} // verus!

verus! {

/// The integer a field holds before an increment; the backend counts a
/// missing or non-numeric field as zero when it creates it.
pub open spec fn incr_base(es: Seq<(Seq<char>, crate::value::ValView)>, f: Seq<char>) -> int {
    match spec_get(es, f) {
        ValView::Num(Num::Int(v)) => v as int,
        _ => 0,
    }
}

/// The record after one atomic increment of `f` by `d`.
pub open spec fn spec_incr(
    es: Seq<(Seq<char>, crate::value::ValView)>,
    f: Seq<char>,
    d: int,
) -> Seq<(Seq<char>, crate::value::ValView)> {
    spec_set(es, f, ValView::Num(Num::Int((incr_base(es, f) + d) as i128)))
}

/// Increments compose additively: two increments of a plain field leave the
/// field at its start plus the sum, in whatever order the two deltas
/// arrive.  The backend serialises concurrent increments, so this is the
/// per-document effect of clients racing on one counter.
pub proof fn lemma_incr_composes(
    es: Seq<(Seq<char>, crate::value::ValView)>,
    f: Seq<char>,
    a: int,
    b: int,
)
    requires
        crate::value::path_ok(f),
        -0x8000_0000_0000_0000_0000_0000_0000_0000 <= incr_base(es, f) + a
            <= 0x7FFF_FFFF_FFFF_FFFF_FFFF_FFFF_FFFF_FFFF,
        -0x8000_0000_0000_0000_0000_0000_0000_0000 <= incr_base(es, f) + a + b
            <= 0x7FFF_FFFF_FFFF_FFFF_FFFF_FFFF_FFFF_FFFF,
    ensures
        spec_incr(spec_incr(es, f, a), f, b) == spec_incr(es, f, a + b),
{
    let v1 = ValView::Num(Num::Int((incr_base(es, f) + a) as i128));
    crate::value::lemma_get_set(es, f, v1);
    assert(incr_base(spec_incr(es, f, a), f) == incr_base(es, f) + a);
    crate::value::lemma_set_set(
        es,
        f,
        v1,
        ValView::Num(Num::Int((incr_base(es, f) + a + b) as i128)),
    );
}

} // verus!
