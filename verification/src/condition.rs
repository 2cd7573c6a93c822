//! The query descriptor: database, table, filter, paging, sorting, fields
//! and flags, built fluently and passed to a storage driver.

use vstd::prelude::*;

verus! {

/// A sort direction for one key.
#[derive(Clone, Copy, Debug, PartialEq, Eq, Structural)]
pub enum SortDirection {
    Ascending,
    Descending,
}

/// One sort key: a field and its direction.
#[derive(Debug)]
pub struct Sort {
    pub field: String,
    pub order: SortDirection,
}

impl Clone for Sort {
    /// A copy equal to the original under the model.
    fn clone(&self) -> (r: Self)
        ensures
            r@ == self@,
    {
        Sort { field: self.field.clone(), order: self.order }
    }
}

impl View for Sort {
    type V = (Seq<char>, SortDirection);

    open spec fn view(&self) -> (Seq<char>, SortDirection) {
        (self.field@, self.order)
    }
}

/// A compiled filter a storage driver understands.
///
/// `parse` turns a filter text into the compiled form, or reports why the
/// text is not acceptable; `enable_convert` turns identifier coercion on for
/// later `parse` calls.  The exact parsing contract is the implementation's
/// (see [`MongoFilter::parse_filter`](crate::filter::MongoFilter) and
/// [`Condition::<MongoFilter>::wheres`](crate::filter)); here the trait pins
/// the coercion flag: `enable_convert` raises it and `parse` leaves it
/// alone.
pub trait Filter: Sized {
    spec fn convert_on(&self) -> bool;

    fn enable_convert(&mut self)
        ensures
            final(self).convert_on(),
    ;

    fn parse(&mut self, input: &str) -> (r: Result<(), String>)
        ensures
            final(self).convert_on() == old(self).convert_on(),
    ;
}

/// The model of a condition: all its parts as mathematical values.
pub struct CondView<T> {
    pub db: Seq<char>,
    pub table: Seq<char>,
    pub page: int,
    pub size: int,
    pub sorts: Seq<(Seq<char>, SortDirection)>,
    pub fields: Seq<Seq<char>>,
    pub filter: T,
    pub pageable: bool,
    pub update_version: bool,
}

/// The models of a sequence of sort keys.
pub open spec fn sorts_view(s: Seq<Sort>) -> Seq<(Seq<char>, SortDirection)>
    decreases s,
{
    if s.len() == 0 {
        Seq::empty()
    } else {
        seq![s[0]@] + sorts_view(s.subrange(1, s.len() as int))
    }
}

/// The models of a sequence of field names.
pub open spec fn strings_view(s: Seq<String>) -> Seq<Seq<char>>
    decreases s,
{
    if s.len() == 0 {
        Seq::empty()
    } else {
        seq![s[0]@] + strings_view(s.subrange(1, s.len() as int))
    }
}

/// Element `i` of `strings_view(s)` is the view of element `i` of `s`.
pub proof fn lemma_strings_view(s: Seq<String>)
    ensures
        strings_view(s).len() == s.len(),
        forall|i: int| 0 <= i < s.len() ==> strings_view(s)[i] == s[i]@,
    decreases s,
{
    if s.len() > 0 {
        lemma_strings_view(s.subrange(1, s.len() as int));
    }
}

/// Element `i` of `sorts_view(s)` is the view of element `i` of `s`.
pub proof fn lemma_sorts_view(s: Seq<Sort>)
    ensures
        sorts_view(s).len() == s.len(),
        forall|i: int| 0 <= i < s.len() ==> sorts_view(s)[i] == s[i]@,
    decreases s,
{
    if s.len() > 0 {
        lemma_sorts_view(s.subrange(1, s.len() as int));
    }
}

/// The query descriptor: database and table names, paging, sort keys,
/// projected fields, a compiled filter, and the paging and version flags.
#[derive(Debug)]
pub struct Condition<T> {
    pub db: String,
    pub table: String,
    pub page: usize,
    pub size: usize,
    pub sorts: Vec<Sort>,
    pub fields: Vec<String>,
    pub filter: T,
    pub pageable: bool,
    pub update_version: bool,
}

impl<T> View for Condition<T> {
    type V = CondView<T>;

    open spec fn view(&self) -> CondView<T> {
        CondView {
            db: self.db@,
            table: self.table@,
            page: self.page as int,
            size: self.size as int,
            sorts: sorts_view(self.sorts@),
            fields: strings_view(self.fields@),
            filter: self.filter,
            pageable: self.pageable,
            update_version: self.update_version,
        }
    }
}

impl<T: Filter> Condition<T> {
    /// A fresh condition around the filter `t`: first page of ten, not
    /// pageable, stamping versions, nothing selected.
    pub fn new(t: T) -> (r: Self)
        ensures
            r@ == (CondView {
                db: Seq::<char>::empty(),
                table: Seq::<char>::empty(),
                page: 0int,
                size: 10int,
                sorts: Seq::<(Seq<char>, SortDirection)>::empty(),
                fields: Seq::<Seq<char>>::empty(),
                filter: t,
                pageable: false,
                update_version: true,
            }),
    {
        let r = Condition {
            db: String::new(),
            table: String::new(),
            page: 0,
            size: 10,
            sorts: Vec::new(),
            fields: Vec::new(),
            filter: t,
            pageable: false,
            update_version: true,
        };
        proof {
            assert(sorts_view(r.sorts@) =~= Seq::<(Seq<char>, SortDirection)>::empty());
            assert(strings_view(r.fields@) =~= Seq::<Seq<char>>::empty());
        }
        r
    }

    /// The same condition aimed at the database `db`.
    pub fn with_db(self, db: &str) -> (r: Self)
        ensures
            r@ == (CondView { db: db@, ..self@ }),
    {
        Condition { db: db.to_owned(), ..self }
    }

    /// The same condition aimed at the table `table`.
    pub fn with_table(self, table: &str) -> (r: Self)
        ensures
            r@ == (CondView { table: table@, ..self@ }),
    {
        Condition { table: table.to_owned(), ..self }
    }

    /// The same condition sorted by `sorts`.
    pub fn with_sort(self, sorts: Vec<Sort>) -> (r: Self)
        ensures
            r@ == (CondView { sorts: sorts_view(sorts@), ..self@ }),
    {
        Condition { sorts, ..self }
    }

    /// The same condition projecting exactly `fields`.
    pub fn with_fields(self, fields: &[&str]) -> (r: Self)
        ensures
            r@.db == self@.db,
            r@.table == self@.table,
            r@.page == self@.page,
            r@.size == self@.size,
            r@.sorts == self@.sorts,
            r@.filter == self@.filter,
            r@.pageable == self@.pageable,
            r@.update_version == self@.update_version,
            r@.fields.len() == fields@.len(),
            forall|i: int| 0 <= i < fields@.len() ==> r@.fields[i] == fields@[i]@,
    {
        let mut fs: Vec<String> = Vec::new();
        let mut i: usize = 0;
        while i < fields.len()
            invariant
                i <= fields@.len(),
                fs@.len() == i,
                forall|j: int| 0 <= j < i ==> fs@[j]@ == fields@[j]@,
            decreases fields@.len() - i,
        {
            fs.push(fields[i].to_owned());
            i = i + 1;
        }
        proof {
            lemma_strings_view(fs@);
        }
        Condition { fields: fs, ..self }
    }

    /// The same condition showing page `page` of `size` records; makes the
    /// condition pageable.
    pub fn with_page(self, page: usize, size: usize) -> (r: Self)
        ensures
            r@ == (CondView { page: page as int, size: size as int, pageable: true, ..self@ }),
    {
        Condition { page, size, pageable: true, ..self }
    }

    /// The same condition with or without automatic version stamping.
    pub fn with_update_version(self, update_version: bool) -> (r: Self)
        ensures
            r@ == (CondView { update_version, ..self@ }),
    {
        Condition { update_version, ..self }
    }

}

} // verus!
