//! The document-store model: collections of records, filtered and sorted
//! queries, upserts, and index reconciliation.
//!
//! A `Store<T>` holds one collection. It enforces the unique-identifier
//! index that reconciliation establishes at startup: an insert that reuses
//! an assigned identifier is rejected with `DuplicateKey`. Dropping the
//! collection (`delete_all`) also drops its indexes, as the underlying
//! store does.

use vstd::prelude::*;
use vstd::seq_lib::*;

use crate::errors::DbError;
use crate::records::AppState;
use crate::records::AppStateV;
use crate::records::PnlLog;
use crate::records::PositionLog;
use crate::records::PriceLog;

verus! {

/// How a search walks the collection: a full scan ordered by the sort key,
/// or a lookup of one record by identifier.
#[derive(Clone, Copy, Debug, PartialEq, Eq, Structural)]
pub enum SearchMode {
    Ascending,
    Descending,
    ById,
}

/// The sort keys the engine accepts.
#[derive(Clone, Copy, Debug, PartialEq, Eq, Structural)]
pub enum SortField {
    /// The record identifier, sort key `id`.
    Id,
    /// A position's opening time, sort key `open_timestamp`.
    OpenTimestamp,
    /// A price sample's observation time, sort key `price_point.timestamp`.
    PriceTimestamp,
}

/// The row filter of a query: every record with an assigned positive
/// identifier, or exactly one identifier.
#[derive(Clone, Copy, Debug, PartialEq, Eq, Structural)]
pub enum IdFilter {
    AnyPositive,
    Exact(u32),
}

/// Which of the four write operations a record type supports.
#[derive(Clone, Copy, Debug, PartialEq, Eq, Structural)]
pub struct OpsSupport {
    pub insert: bool,
    pub update: bool,
    pub delete: bool,
    pub delete_all: bool,
}

/// Abstract value of an index declaration.
pub struct IndexSpecV {
    pub name: Seq<char>,
    pub field: Seq<char>,
    pub ascending: bool,
    pub unique: bool,
}

/// One declared index: its store-side name, the field it covers, its
/// direction, and whether it enforces uniqueness.
#[derive(Debug)]
pub struct IndexSpec {
    pub name: String,
    pub field: String,
    pub ascending: bool,
    pub unique: bool,
}

impl View for IndexSpec {
    type V = IndexSpecV;

    open spec fn view(&self) -> IndexSpecV {
        IndexSpecV {
            name: self.name@,
            field: self.field@,
            ascending: self.ascending,
            unique: self.unique,
        }
    }
}

impl Clone for IndexSpec {
    fn clone(&self) -> (r: Self)
        ensures
            r@ == self@,
    {
        IndexSpec {
            name: self.name.clone(),
            field: self.field.clone(),
            ascending: self.ascending,
            unique: self.unique,
        }
    }
}

/// Whether two string slices hold the same characters.
pub fn str_eq(a: &str, b: &str) -> (r: bool)
    ensures
        r == (a@ == b@),
{
    let x = a.to_owned();
    let y = b.to_owned();
    x == y
}

/// The sort key allow-list: `id`, `open_timestamp`, `price_point.timestamp`.
pub open spec fn parse_sort_key_spec(s: Seq<char>) -> Option<SortField> {
    if s == "id"@ {
        Some(SortField::Id)
    } else if s == "open_timestamp"@ {
        Some(SortField::OpenTimestamp)
    } else if s == "price_point.timestamp"@ {
        Some(SortField::PriceTimestamp)
    } else {
        None
    }
}

/// Maps a sort key to its field, or `None` for a key outside the
/// allow-list.
pub fn parse_sort_key(s: &str) -> (r: Option<SortField>)
    ensures
        r == parse_sort_key_spec(s@),
{
    if str_eq(s, "id") {
        Some(SortField::Id)
    } else if str_eq(s, "open_timestamp") {
        Some(SortField::OpenTimestamp)
    } else if str_eq(s, "price_point.timestamp") {
        Some(SortField::PriceTimestamp)
    } else {
        None
    }
}

/// Whether a record identifier passes the row filter.
pub open spec fn id_matches(id: Option<u32>, f: IdFilter) -> bool {
    match f {
        IdFilter::AnyPositive => match id {
            Some(i) => i > 0,
            None => false,
        },
        IdFilter::Exact(k) => id == Some(k),
    }
}

/// Whether a record identifier passes the row filter.
pub fn id_matches_exec(id: Option<u32>, f: IdFilter) -> (r: bool)
    ensures
        r == id_matches(id, f),
{
    match f {
        IdFilter::AnyPositive => match id {
            Some(i) => i > 0,
            None => false,
        },
        IdFilter::Exact(k) => match id {
            Some(i) => i == k,
            None => false,
        },
    }
}

/// Whether two optional identifiers are equal.
pub fn opt_id_eq(a: Option<u32>, b: Option<u32>) -> (r: bool)
    ensures
        r == (a == b),
{
    match (a, b) {
        (Some(x), Some(y)) => x == y,
        (None, None) => true,
        _ => false,
    }
}

/// A persisted record type: its identity, its sortable fields, the filter
/// its prototype searches with, the operations it supports, and its
/// declared indexes.
pub trait SortKeyed: Sized {
    /// The value the record sorts by under each sort field; records without
    /// the field rank as zero.
    spec fn sort_val_spec(&self, f: SortField) -> i64;

    /// The value the record sorts by under `f`.
    fn sort_val(&self, f: SortField) -> (r: i64)
        ensures
            r == self.sort_val_spec(f),
    ;
}

/// A persisted record type: its identity, its sortable fields, the filter
/// its prototype searches with, the operations it supports, and its
/// declared indexes.
pub trait Entity: SortKeyed {
    /// The record's optional identifier.
    spec fn id_spec(&self) -> Option<u32>;

    /// The row filter a scan with this prototype uses.
    spec fn base_filter_spec(&self) -> IdFilter;

    /// Which write operations the type supports.
    spec fn ops_spec() -> OpsSupport;

    /// The fixed name of the type's collection.
    spec fn collection_name_spec() -> Seq<char>;

    /// The indexes the type declares.
    spec fn declared_indexes_spec() -> Seq<IndexSpecV>;

    /// The record's optional identifier.
    fn id(&self) -> (r: Option<u32>)
        ensures
            r == self.id_spec(),
    ;

    /// The row filter a scan with this prototype uses.
    fn base_filter(&self) -> (r: IdFilter)
        ensures
            r == self.base_filter_spec(),
    ;

    /// Which write operations the type supports.
    fn ops() -> (r: OpsSupport)
        ensures
            r == Self::ops_spec(),
    ;

    /// The fixed name of the type's collection.
    fn get_collection_name(&self) -> (r: &'static str)
        ensures
            r@ == Self::collection_name_spec(),
    ;

    /// The indexes the type declares.
    fn declared_indexes() -> (r: Vec<IndexSpec>)
        ensures
            r@.map_values(|x: IndexSpec| x@) == Self::declared_indexes_spec(),
    ;

    /// An exact copy of the record.
    fn clone_rec(&self) -> (r: Self)
        ensures
            r == *self,
    ;

    /// Sorting by the identifier key orders by the assigned identifier,
    /// with unassigned records ranking as zero.
    proof fn lemma_id_sort_val(&self)
        ensures
            self.sort_val_spec(SortField::Id) == match self.id_spec() {
                Some(i) => i as i64,
                None => 0,
            },
    ;
}

/// No two records of the collection share an assigned identifier.
pub open spec fn unique_ids<T: Entity>(recs: Seq<T>) -> bool {
    forall|i: int, j: int|
        0 <= i < j < recs.len() && recs[i].id_spec() is Some ==> recs[i].id_spec()
            != recs[j].id_spec()
}

/// Whether some record of `recs` holds the assigned identifier `id`.
pub open spec fn has_conflict<T: Entity>(recs: Seq<T>, id: Option<u32>) -> bool {
    id is Some && exists|i: int| 0 <= i < recs.len() && recs[i].id_spec() == id
}

/// The position of the first record whose identifier equals `id`, or -1.
pub open spec fn find_by_id<T: Entity>(recs: Seq<T>, id: Option<u32>) -> int
    decreases recs.len(),
{
    if recs.len() == 0 {
        -1
    } else if recs[0].id_spec() == id {
        0
    } else {
        let r = find_by_id(recs.drop_first(), id);
        if r == -1 {
            -1
        } else {
            r + 1
        }
    }
}

/// `find_by_id` returns the position of the first match, and -1 exactly
/// when no record matches.
pub proof fn lemma_find_by_id_props<T: Entity>(recs: Seq<T>, id: Option<u32>)
    ensures
        -1 <= find_by_id(recs, id) < recs.len(),
        find_by_id(recs, id) >= 0 ==> recs[find_by_id(recs, id)].id_spec() == id,
        find_by_id(recs, id) >= 0 ==> forall|j: int|
            0 <= j < find_by_id(recs, id) ==> recs[j].id_spec() != id,
        find_by_id(recs, id) == -1 ==> forall|j: int|
            0 <= j < recs.len() ==> recs[j].id_spec() != id,
    decreases recs.len(),
{
    if recs.len() == 0 {
    } else if recs[0].id_spec() == id {
    } else {
        lemma_find_by_id_props(recs.drop_first(), id);
        assert forall|j: int| 0 <= j < recs.len() && j >= 1 implies recs[j]
            == recs.drop_first()[j - 1] by {}
    }
}

/// Existing index names, with any of `declared` that are missing appended
/// in declaration order.
pub open spec fn add_if_missing(existing: Seq<Seq<char>>, n: Seq<char>) -> Seq<Seq<char>> {
    if existing.contains(n) {
        existing
    } else {
        existing.push(n)
    }
}

/// The index set after reconciling `existing` against `declared`.
pub open spec fn reconcile_spec(existing: Seq<Seq<char>>, declared: Seq<Seq<char>>) -> Seq<
    Seq<char>,
>
    decreases declared.len(),
{
    if declared.len() == 0 {
        existing
    } else {
        reconcile_spec(add_if_missing(existing, declared[0]), declared.drop_first())
    }
}

/// Reconciling one more declared name continues from the reconciled set.
proof fn lemma_reconcile_snoc(existing: Seq<Seq<char>>, declared: Seq<Seq<char>>, n: Seq<char>)
    ensures
        reconcile_spec(existing, declared.push(n)) == add_if_missing(
            reconcile_spec(existing, declared),
            n,
        ),
    decreases declared.len(),
{
    let d1 = declared.push(n);
    if declared.len() == 0 {
        assert(d1[0] == n);
        assert(d1.drop_first() =~= Seq::<Seq<char>>::empty());
        assert(reconcile_spec(existing, d1) == reconcile_spec(
            add_if_missing(existing, n),
            d1.drop_first(),
        ));
        assert(reconcile_spec(add_if_missing(existing, n), d1.drop_first()) == add_if_missing(
            existing,
            n,
        ));
        assert(reconcile_spec(existing, declared) == existing);
    } else {
        let stepped = add_if_missing(existing, declared[0]);
        assert(d1[0] == declared[0]);
        assert(d1.drop_first() =~= declared.drop_first().push(n));
        assert(reconcile_spec(existing, d1) == reconcile_spec(stepped, d1.drop_first()));
        lemma_reconcile_snoc(stepped, declared.drop_first(), n);
        assert(reconcile_spec(stepped, declared.drop_first().push(n)) == add_if_missing(
            reconcile_spec(stepped, declared.drop_first()),
            n,
        ));
        assert(reconcile_spec(existing, declared) == reconcile_spec(
            stepped,
            declared.drop_first(),
        ));
    }
}

/// Reconciliation never removes a name.
proof fn lemma_reconcile_preserves(existing: Seq<Seq<char>>, declared: Seq<Seq<char>>, n: Seq<char>)
    requires
        existing.contains(n),
    ensures
        reconcile_spec(existing, declared).contains(n),
    decreases declared.len(),
{
    if declared.len() == 0 {
    } else {
        if !existing.contains(declared[0]) {
            assert(existing.push(declared[0])[existing.index_of(n)] == n);
        }
        lemma_reconcile_preserves(
            add_if_missing(existing, declared[0]),
            declared.drop_first(),
            n,
        );
    }
}

/// After reconciliation every declared name is present.
proof fn lemma_reconcile_complete(existing: Seq<Seq<char>>, declared: Seq<Seq<char>>, k: int)
    requires
        0 <= k < declared.len(),
    ensures
        reconcile_spec(existing, declared).contains(declared[k]),
    decreases declared.len(),
{
    let stepped = add_if_missing(existing, declared[0]);
    if k == 0 {
        if existing.contains(declared[0]) {
            lemma_reconcile_preserves(existing, declared.drop_first(), declared[0]);
            assert(reconcile_spec(existing, declared) == reconcile_spec(
                existing,
                declared.drop_first(),
            ));
        } else {
            assert(stepped[existing.len() as int] == declared[0]);
            assert(stepped.contains(declared[0]));
            lemma_reconcile_preserves(stepped, declared.drop_first(), declared[0]);
        }
    } else {
        assert(declared.drop_first()[k - 1] == declared[k]);
        lemma_reconcile_complete(stepped, declared.drop_first(), k - 1);
    }
}

/// Reconciling a set that already holds every declared name changes
/// nothing.
proof fn lemma_reconcile_noop(existing: Seq<Seq<char>>, declared: Seq<Seq<char>>)
    requires
        forall|k: int| 0 <= k < declared.len() ==> existing.contains(#[trigger] declared[k]),
    ensures
        reconcile_spec(existing, declared) == existing,
    decreases declared.len(),
{
    if declared.len() == 0 {
    } else {
        assert(existing.contains(declared[0]));
        assert(add_if_missing(existing, declared[0]) == existing);
        assert forall|k: int| 0 <= k < declared.drop_first().len() implies existing.contains(
            #[trigger] declared.drop_first()[k],
        ) by {
            assert(declared.drop_first()[k] == declared[k + 1]);
        }
        lemma_reconcile_noop(existing, declared.drop_first());
    }
}

/// Index reconciliation is idempotent: reconciling twice against the same
/// declared list yields the same index set as reconciling once.
pub proof fn lemma_reconcile_idempotent(existing: Seq<Seq<char>>, declared: Seq<Seq<char>>)
    ensures
        reconcile_spec(reconcile_spec(existing, declared), declared) == reconcile_spec(
            existing,
            declared,
        ),
{
    let once = reconcile_spec(existing, declared);
    assert forall|k: int| 0 <= k < declared.len() implies once.contains(
        #[trigger] declared[k],
    ) by {
        lemma_reconcile_complete(existing, declared, k);
    }
    lemma_reconcile_noop(once, declared);
}

/// One collection of records together with the names of its indexes.
pub struct Store<T> {
    records: Vec<T>,
    index_names: Vec<String>,
}

impl<T: Entity> Store<T> {
    /// The records of the collection, in insertion order.
    pub closed spec fn recs(self) -> Seq<T> {
        self.records@
    }

    /// The names of the collection's indexes.
    pub closed spec fn indexes(self) -> Seq<Seq<char>> {
        self.index_names@.map_values(|s: String| s@)
    }

    /// The collection's invariant: assigned identifiers are unique.
    pub open spec fn wf(self) -> bool {
        unique_ids(self.recs())
    }

    /// An empty collection without indexes.
    pub fn new() -> (r: Self)
        ensures
            r.wf(),
            r.recs() == Seq::<T>::empty(),
            r.indexes() == Seq::<Seq<char>>::empty(),
    {
        let r = Store { records: Vec::new(), index_names: Vec::new() };
        proof {
            assert(r.indexes() =~= Seq::<Seq<char>>::empty());
        }
        r
    }

    /// The position of the first record whose identifier equals `key`.
    fn find_index(&self, key: Option<u32>) -> (r: Option<usize>)
        ensures
            match r {
                Some(i) => find_by_id(self.recs(), key) == i,
                None => find_by_id(self.recs(), key) == -1,
            },
    {
        let mut i: usize = 0;
        while i < self.records.len()
            invariant
                i <= self.records.len(),
                forall|j: int| 0 <= j < i ==> self.records@[j].id_spec() != key,
            decreases self.records.len() - i,
        {
            if opt_id_eq(self.records[i].id(), key) {
                proof {
                    lemma_find_by_id_props(self.recs(), key);
                    let f = find_by_id(self.recs(), key);
                    assert(f != -1);
                    if f < i {
                        assert(self.recs()[f].id_spec() != key);
                    }
                    if f > i {
                        assert(self.recs()[i as int].id_spec() != key);
                    }
                }
                return Some(i);
            }
            i = i + 1;
        }
        proof {
            lemma_find_by_id_props(self.recs(), key);
        }
        None
    }

    /// Writes a new record. Rejected with `DuplicateKey` when the record's
    /// assigned identifier is already present; a record without an
    /// identifier is always accepted.
    pub fn insert(&mut self, item: T) -> (r: Result<(), DbError>)
        requires
            old(self).wf(),
        ensures
            final(self).wf(),
            final(self).indexes() == old(self).indexes(),
            match r {
                Ok(()) => !has_conflict(old(self).recs(), item.id_spec()) && final(self).recs()
                    == old(self).recs().push(item),
                Err(e) => e == DbError::DuplicateKey && has_conflict(
                    old(self).recs(),
                    item.id_spec(),
                ) && final(self).recs() == old(self).recs(),
            },
    {
        let key = item.id();
        if key.is_some() {
            match self.find_index(key) {
                Some(_) => {
                    proof {
                        lemma_find_by_id_props(self.recs(), item.id_spec());
                    }
                    return Err(DbError::DuplicateKey);
                },
                None => {
                    proof {
                        lemma_find_by_id_props(self.recs(), item.id_spec());
                    }
                },
            }
        }
        proof {
            let s = old(self).recs();
            assert forall|a: int, b: int|
                0 <= a < b < s.push(item).len() && s.push(item)[a].id_spec() is Some implies s.push(
                item,
            )[a].id_spec() != s.push(item)[b].id_spec() by {
                if b < s.len() {
                } else {
                    assert(s.push(item)[b] == item);
                }
            }
        }
        self.records.push(item);
        Ok(())
    }

    /// An upsert keyed on the record's identifier: replaces the first
    /// record with the same identifier, or appends the record when none
    /// matches.
    pub fn update(&mut self, item: T) -> (r: Result<(), DbError>)
        requires
            old(self).wf(),
        ensures
            final(self).wf(),
            final(self).indexes() == old(self).indexes(),
            r is Ok,
            ({
                let idx = find_by_id(old(self).recs(), item.id_spec());
                if idx >= 0 {
                    final(self).recs() == old(self).recs().update(idx, item)
                } else {
                    final(self).recs() == old(self).recs().push(item)
                }
            }),
    {
        let key = item.id();
        match self.find_index(key) {
            Some(i) => {
                proof {
                    lemma_find_by_id_props(self.recs(), item.id_spec());
                    let s = old(self).recs();
                    let n = s.update(i as int, item);
                    assert(s[i as int].id_spec() == item.id_spec());
                    assert forall|a: int, b: int|
                        0 <= a < b < n.len() && n[a].id_spec() is Some implies n[a].id_spec()
                        != n[b].id_spec() by {
                        if a != i && b != i {
                            assert(n[a] == s[a] && n[b] == s[b]);
                        } else if a == i {
                            assert(n[b] == s[b]);
                            assert(s[a].id_spec() == item.id_spec());
                        } else {
                            assert(n[a] == s[a]);
                            assert(s[b].id_spec() == item.id_spec());
                        }
                    }
                }
                self.records.set(i, item);
                Ok(())
            },
            None => {
                proof {
                    lemma_find_by_id_props(self.recs(), item.id_spec());
                    let s = old(self).recs();
                    assert forall|a: int, b: int|
                        0 <= a < b < s.push(item).len() && s.push(item)[a].id_spec() is Some implies
                        s.push(item)[a].id_spec() != s.push(item)[b].id_spec() by {
                        if b < s.len() {
                        } else {
                            assert(s.push(item)[b] == item);
                            assert(s[a].id_spec() != item.id_spec());
                        }
                    }
                }
                self.records.push(item);
                Ok(())
            },
        }
    }

    /// Removes the one record with the record's identifier, and reports
    /// `DeleteAnomaly` when the removal did not affect exactly one record.
    pub fn delete(&mut self, item: &T) -> (r: Result<(), DbError>)
        requires
            old(self).wf(),
        ensures
            final(self).wf(),
            final(self).indexes() == old(self).indexes(),
            ({
                let idx = find_by_id(old(self).recs(), item.id_spec());
                match r {
                    Ok(()) => idx >= 0 && final(self).recs() == old(self).recs().remove(idx),
                    Err(e) => e == DbError::DeleteAnomaly && idx == -1 && final(self).recs()
                        == old(self).recs(),
                }
            }),
    {
        let key = item.id();
        match self.find_index(key) {
            Some(i) => {
                proof {
                    lemma_find_by_id_props(self.recs(), item.id_spec());
                    let s = old(self).recs();
                    let n = s.remove(i as int);
                    assert forall|a: int, b: int|
                        0 <= a < b < n.len() && n[a].id_spec() is Some implies n[a].id_spec()
                        != n[b].id_spec() by {
                        let a0 = if a < i { a } else { a + 1 };
                        let b0 = if b < i { b } else { b + 1 };
                        assert(n[a] == s[a0] && n[b] == s[b0]);
                    }
                }
                self.records.remove(i);
                Ok(())
            },
            None => Err(DbError::DeleteAnomaly),
        }
    }

    /// Drops the collection: every record and every index is gone.
    pub fn delete_all(&mut self) -> (r: Result<(), DbError>)
        ensures
            final(self).wf(),
            final(self).recs() == Seq::<T>::empty(),
            final(self).indexes() == Seq::<Seq<char>>::empty(),
            r is Ok,
    {
        self.records = Vec::new();
        self.index_names = Vec::new();
        proof {
            assert(self.indexes() =~= Seq::<Seq<char>>::empty());
        }
        Ok(())
    }

    /// How many records the collection holds.
    pub fn len(&self) -> (r: usize)
        ensures
            r == self.recs().len(),
    {
        self.records.len()
    }

    /// The names of the collection's indexes, in creation order.
    pub fn list_index_names(&self) -> (r: Vec<String>)
        ensures
            r@.map_values(|s: String| s@) == self.indexes(),
    {
        let r = crate::records::clone_strings(&self.index_names);
        r
    }

    /// Whether the collection has an index of this name.
    fn has_index_name(&self, name: &str) -> (r: bool)
        ensures
            r == self.indexes().contains(name@),
    {
        let mut i: usize = 0;
        let mut found = false;
        while i < self.index_names.len()
            invariant
                i <= self.index_names.len(),
                found == exists|j: int| 0 <= j < i && self.index_names@[j]@ == name@,
            decreases self.index_names.len() - i,
        {
            if str_eq(self.index_names[i].as_str(), name) {
                proof {
                    assert(self.index_names@[i as int]@ == name@);
                }
                found = true;
            }
            i = i + 1;
        }
        proof {
            if found {
                let j = choose|j: int| 0 <= j < self.index_names@.len() && self.index_names@[j]@
                    == name@;
                assert(self.indexes()[j] == name@);
            } else {
                assert forall|j: int| 0 <= j < self.indexes().len() implies self.indexes()[j]
                    != name@ by {
                    assert(self.indexes()[j] == self.index_names@[j]@);
                }
            }
        }
        found
    }

    /// Creates the index unless one of the same name exists; an existing
    /// name alone is sufficient to skip.
    pub fn create_index(&mut self, idx: &IndexSpec) -> (r: Result<(), DbError>)
        requires
            old(self).wf(),
        ensures
            final(self).wf(),
            final(self).recs() == old(self).recs(),
            final(self).indexes() == add_if_missing(old(self).indexes(), idx.name@),
            r is Ok,
    {
        if !self.has_index_name(idx.name.as_str()) {
            let ghost before = self.indexes();
            self.index_names.push(idx.name.clone());
            proof {
                assert(self.indexes() =~= before.push(idx.name@));
            }
        }
        Ok(())
    }

    /// Creates every declared index whose name is missing, in declaration
    /// order, and leaves existing indexes untouched.
    pub fn reconcile_indexes(&mut self, declared: &Vec<IndexSpec>) -> (r: Result<(), DbError>)
        requires
            old(self).wf(),
        ensures
            final(self).wf(),
            final(self).recs() == old(self).recs(),
            final(self).indexes() == reconcile_spec(
                old(self).indexes(),
                declared@.map_values(|x: IndexSpec| x.name@),
            ),
            r is Ok,
    {
        let ghost names = declared@.map_values(|x: IndexSpec| x.name@);
        let ghost initial = self.indexes();
        let mut i: usize = 0;
        proof {
            assert(names.take(0) =~= Seq::<Seq<char>>::empty());
        }
        while i < declared.len()
            invariant
                i <= declared.len(),
                self.wf(),
                self.recs() == old(self).recs(),
                names == declared@.map_values(|x: IndexSpec| x.name@),
                initial == old(self).indexes(),
                self.indexes() == reconcile_spec(initial, names.take(i as int)),
            decreases declared.len() - i,
        {
            let ghost before = self.indexes();
            let _ = self.create_index(&declared[i]);
            proof {
                assert(names[i as int] == declared@[i as int].name@);
                lemma_reconcile_snoc(initial, names.take(i as int), names[i as int]);
                assert(names.take(i + 1) =~= names.take(i as int).push(names[i as int]));
            }
            i = i + 1;
        }
        proof {
            assert(names.take(names.len() as int) =~= names);
        }
        Ok(())
    }
}

/// Whether `a` orders no later than `b` under sort field `f`, ascending or
/// descending.
pub open spec fn key_le<T: SortKeyed>(a: T, b: T, f: SortField, asc: bool) -> bool {
    if asc {
        a.sort_val_spec(f) <= b.sort_val_spec(f)
    } else {
        a.sort_val_spec(f) >= b.sort_val_spec(f)
    }
}

/// Whether `a` orders no later than `b` under sort field `f`.
fn key_le_exec<T: SortKeyed>(a: &T, b: &T, f: SortField, asc: bool) -> (r: bool)
    ensures
        r == key_le(*a, *b, f, asc),
{
    if asc {
        a.sort_val(f) <= b.sort_val(f)
    } else {
        a.sort_val(f) >= b.sort_val(f)
    }
}

/// `s` with `x` inserted after every record that orders no later than `x`.
pub open spec fn insert_by<T: SortKeyed>(s: Seq<T>, x: T, f: SortField, asc: bool) -> Seq<T>
    decreases s.len(),
{
    if s.len() == 0 {
        seq![x]
    } else if key_le(s[0], x, f, asc) {
        seq![s[0]] + insert_by(s.drop_first(), x, f, asc)
    } else {
        seq![x] + s
    }
}

/// The stable sort of `s` under sort field `f`.
pub open spec fn sort_by_spec<T: SortKeyed>(s: Seq<T>, f: SortField, asc: bool) -> Seq<T>
    decreases s.len(),
{
    if s.len() == 0 {
        Seq::empty()
    } else {
        insert_by(sort_by_spec(s.drop_last(), f, asc), s.last(), f, asc)
    }
}

/// Whether `s` is ordered under sort field `f`.
pub open spec fn sorted_by<T: SortKeyed>(s: Seq<T>, f: SortField, asc: bool) -> bool {
    forall|i: int, j: int| 0 <= i < j < s.len() ==> key_le(s[i], s[j], f, asc)
}

/// Inserting into an ordered sequence keeps it ordered, adds exactly the
/// inserted record, and introduces no other record.
pub proof fn lemma_insert_by_props<T: SortKeyed>(s: Seq<T>, x: T, f: SortField, asc: bool)
    ensures
        insert_by(s, x, f, asc).len() == s.len() + 1,
        sorted_by(s, f, asc) ==> sorted_by(insert_by(s, x, f, asc), f, asc),
        insert_by(s, x, f, asc).to_multiset() == s.to_multiset().insert(x),
        forall|j: int|
            0 <= j < insert_by(s, x, f, asc).len() ==> (#[trigger] insert_by(s, x, f, asc)[j] == x
                || s.contains(insert_by(s, x, f, asc)[j])),
    decreases s.len(),
{
    broadcast use vstd::seq_lib::group_to_multiset_ensures;

    let r = insert_by(s, x, f, asc);
    if s.len() == 0 {
        assert(r =~= Seq::empty().push(x));
        assert(r.to_multiset() =~= s.to_multiset().insert(x));
    } else if key_le(s[0], x, f, asc) {
        let rest = s.drop_first();
        let ins_rest = insert_by(rest, x, f, asc);
        lemma_insert_by_props(rest, x, f, asc);
        assert forall|j: int| 0 <= j < r.len() implies (#[trigger] r[j] == x || s.contains(
            r[j],
        )) by {
            if j == 0 {
                assert(r[0] == s[0]);
            } else {
                assert(r[j] == ins_rest[j - 1]);
                if ins_rest[j - 1] != x {
                    let k = choose|k: int| 0 <= k < rest.len() && rest[k] == ins_rest[j - 1];
                    assert(s[k + 1] == ins_rest[j - 1]);
                }
            }
        }
        if sorted_by(s, f, asc) {
            assert forall|a: int, b: int| 0 <= a < b < rest.len() implies key_le(
                rest[a],
                rest[b],
                f,
                asc,
            ) by {
                assert(rest[a] == s[a + 1] && rest[b] == s[b + 1]);
            }
            assert(sorted_by(rest, f, asc));
            assert forall|a: int, b: int| 0 <= a < b < r.len() implies key_le(
                r[a],
                r[b],
                f,
                asc,
            ) by {
                if a == 0 {
                    let e = ins_rest[b - 1];
                    if e == x {
                    } else {
                        let k = choose|k: int| 0 <= k < rest.len() && rest[k] == e;
                        assert(key_le(s[0], s[k + 1], f, asc));
                    }
                } else {
                    assert(r[a] == ins_rest[a - 1] && r[b] == ins_rest[b - 1]);
                }
            }
        }
        assert(r.to_multiset() =~= s.to_multiset().insert(x)) by {
            assert(r =~= seq![s[0]] + ins_rest);
            vstd::seq_lib::lemma_seq_union_to_multiset_commutative(seq![s[0]], ins_rest);
            assert(ins_rest + seq![s[0]] =~= ins_rest.push(s[0]));
            assert(r.to_multiset() =~= ins_rest.to_multiset().insert(s[0]));
            assert(ins_rest.to_multiset() == rest.to_multiset().insert(x));
            vstd::seq_lib::lemma_seq_union_to_multiset_commutative(seq![s[0]], rest);
            assert(rest + seq![s[0]] =~= rest.push(s[0]));
            assert(seq![s[0]] + rest =~= s);
            assert(s.to_multiset() =~= rest.to_multiset().insert(s[0]));
        }
    } else {
        assert(r =~= seq![x] + s);
        assert forall|j: int| 0 <= j < r.len() implies (#[trigger] r[j] == x || s.contains(
            r[j],
        )) by {
            if j > 0 {
                assert(r[j] == s[j - 1]);
            }
        }
        if sorted_by(s, f, asc) {
            assert forall|a: int, b: int| 0 <= a < b < r.len() implies key_le(
                r[a],
                r[b],
                f,
                asc,
            ) by {
                if a == 0 {
                    if b == 1 {
                        assert(r[b] == s[0]);
                    } else {
                        assert(r[b] == s[b - 1]);
                        assert(key_le(s[0], s[b - 1], f, asc));
                    }
                } else {
                    assert(r[a] == s[a - 1] && r[b] == s[b - 1]);
                }
            }
        }
        assert(r.to_multiset() =~= s.to_multiset().insert(x)) by {
            vstd::seq_lib::lemma_seq_union_to_multiset_commutative(seq![x], s);
            assert(s + seq![x] =~= s.push(x));
        }
    }
}

/// The sort is ordered, has the length of its input, and holds exactly the
/// input records.
pub proof fn lemma_sort_by_props<T: SortKeyed>(s: Seq<T>, f: SortField, asc: bool)
    ensures
        sort_by_spec(s, f, asc).len() == s.len(),
        sorted_by(sort_by_spec(s, f, asc), f, asc),
        sort_by_spec(s, f, asc).to_multiset() == s.to_multiset(),
    decreases s.len(),
{
    broadcast use vstd::seq_lib::group_to_multiset_ensures;

    if s.len() == 0 {
    } else {
        let dl = s.drop_last();
        lemma_sort_by_props(dl, f, asc);
        lemma_insert_by_props(sort_by_spec(dl, f, asc), s.last(), f, asc);
        assert(s =~= dl.push(s.last()));
        assert(s.to_multiset() =~= dl.to_multiset().insert(s.last()));
    }
}

/// A record of the sort is a record of its input.
pub proof fn lemma_sort_by_contains<T: SortKeyed>(s: Seq<T>, f: SortField, asc: bool, j: int)
    requires
        0 <= j < sort_by_spec(s, f, asc).len(),
    ensures
        s.contains(sort_by_spec(s, f, asc)[j]),
{
    broadcast use vstd::seq_lib::group_to_multiset_ensures;

    lemma_sort_by_props(s, f, asc);
    let e = sort_by_spec(s, f, asc)[j];
    assert(sort_by_spec(s, f, asc).contains(e));
    assert(sort_by_spec(s, f, asc).to_multiset().count(e) > 0);
    assert(s.to_multiset().count(e) > 0);
}

/// Where the scan stops is where the spec inserts.
proof fn lemma_insert_by_at<T: SortKeyed>(s: Seq<T>, x: T, f: SortField, asc: bool, j: int)
    requires
        0 <= j <= s.len(),
        forall|k: int| 0 <= k < j ==> key_le(#[trigger] s[k], x, f, asc),
        j < s.len() ==> !key_le(s[j], x, f, asc),
    ensures
        insert_by(s, x, f, asc) == s.take(j) + seq![x] + s.skip(j),
    decreases j,
{
    if s.len() == 0 {
        assert(insert_by(s, x, f, asc) =~= s.take(j) + seq![x] + s.skip(j));
    } else if j == 0 {
        assert(insert_by(s, x, f, asc) =~= s.take(0) + seq![x] + s.skip(0));
    } else {
        let rest = s.drop_first();
        assert forall|k: int| 0 <= k < j - 1 implies key_le(#[trigger] rest[k], x, f, asc) by {
            assert(rest[k] == s[k + 1]);
        }
        if j - 1 < rest.len() {
            assert(rest[j - 1] == s[j]);
        }
        lemma_insert_by_at(rest, x, f, asc, j - 1);
        assert(insert_by(s, x, f, asc) =~= seq![s[0]] + (rest.take(j - 1) + seq![x] + rest.skip(
            j - 1,
        )));
        assert(seq![s[0]] + (rest.take(j - 1) + seq![x] + rest.skip(j - 1)) =~= s.take(j)
            + seq![x] + s.skip(j));
    }
}

/// Inserts `x` into the ordered vector at its sort position.
fn sorted_insert<T: SortKeyed>(v: &mut Vec<T>, x: T, f: SortField, asc: bool)
    ensures
        final(v)@ == insert_by(old(v)@, x, f, asc),
{
    let mut j: usize = 0;
    while j < v.len() && key_le_exec(&v[j], &x, f, asc)
        invariant
            j <= v.len(),
            *v == *old(v),
            forall|k: int| 0 <= k < j ==> key_le(#[trigger] v@[k], x, f, asc),
        decreases v.len() - j,
    {
        j = j + 1;
    }
    proof {
        lemma_insert_by_at(v@, x, f, asc, j as int);
    }
    v.insert(j, x);
    proof {
        assert(final(v)@ =~= old(v)@.take(j as int) + seq![x] + old(v)@.skip(j as int));
    }
}

/// Sorts the records under sort field `f`.
pub(crate) fn sort_records<T: SortKeyed>(input: Vec<T>, f: SortField, asc: bool) -> (out: Vec<T>)
    ensures
        out@ == sort_by_spec(input@, f, asc),
{
    let ghost orig = input@;
    let mut rest = input;
    let mut out: Vec<T> = Vec::new();
    proof {
        assert(orig.take(0) =~= Seq::<T>::empty());
        assert(rest@ =~= orig.skip(0));
    }
    while rest.len() > 0
        invariant
            rest.len() <= orig.len(),
            rest@ == orig.skip(orig.len() - rest.len()),
            out@ == sort_by_spec(orig.take(orig.len() - rest.len()), f, asc),
        decreases rest.len(),
    {
        let ghost k = orig.len() - rest.len();
        let x = rest.remove(0);
        proof {
            assert(x == orig[k]);
            assert(rest@ =~= orig.skip(k + 1));
        }
        sorted_insert(&mut out, x, f, asc);
        proof {
            let t = orig.take(k + 1);
            assert(t.drop_last() =~= orig.take(k));
            assert(t.last() == orig[k]);
            assert(sort_by_spec(t, f, asc) == insert_by(
                sort_by_spec(orig.take(k), f, asc),
                orig[k],
                f,
                asc,
            ));
        }
    }
    proof {
        assert(orig.take(orig.len() as int) =~= orig);
    }
    out
}

/// The records that pass the row filter, in stored order.
pub open spec fn matching<T: Entity>(recs: Seq<T>, flt: IdFilter) -> Seq<T> {
    recs.filter(|t: T| id_matches(t.id_spec(), flt))
}

/// Filtering a one-record sequence keeps or drops that record.
proof fn lemma_filter_singleton<A>(x: A, pred: spec_fn(A) -> bool)
    ensures
        seq![x].filter(pred) == if pred(x) {
            seq![x]
        } else {
            Seq::<A>::empty()
        },
{
    reveal_with_fuel(Seq::filter, 2);
    assert(seq![x].drop_last() =~= Seq::<A>::empty());
    if pred(x) {
        assert(seq![x].filter(pred) =~= seq![x]);
    } else {
        assert(seq![x].filter(pred) =~= Seq::<A>::empty());
    }
}

/// A filtered record is a record of the collection.
pub proof fn lemma_filter_subset<A>(s: Seq<A>, pred: spec_fn(A) -> bool, j: int)
    requires
        0 <= j < s.filter(pred).len(),
    ensures
        s.contains(s.filter(pred)[j]),
    decreases s.len(),
{
    reveal(Seq::filter);
    if s.len() == 0 {
    } else {
        let dl = s.drop_last();
        if pred(s.last()) {
            if j < s.filter(pred).len() - 1 {
                lemma_filter_subset(dl, pred, j);
                let k = choose|k: int| 0 <= k < dl.len() && dl[k] == dl.filter(pred)[j];
                assert(s[k] == s.filter(pred)[j]);
            } else {
                assert(s[s.len() - 1] == s.filter(pred)[j]);
            }
        } else {
            lemma_filter_subset(dl, pred, j);
            let k = choose|k: int| 0 <= k < dl.len() && dl[k] == dl.filter(pred)[j];
            assert(s[k] == s.filter(pred)[j]);
        }
    }
}

/// A collection without the identifier has no record matching it.
proof fn lemma_matching_no_conflict<T: Entity>(recs: Seq<T>, k: u32)
    requires
        forall|i: int| 0 <= i < recs.len() ==> (#[trigger] recs[i].id_spec()) != Some(k),
    ensures
        matching(recs, IdFilter::Exact(k)).len() == 0,
    decreases recs.len(),
{
    reveal(Seq::filter);
    if recs.len() == 0 {
    } else {
        let dl = recs.drop_last();
        assert forall|i: int| 0 <= i < dl.len() implies (#[trigger] dl[i].id_spec()) != Some(
            k,
        ) by {
            assert(dl[i] == recs[i]);
        }
        lemma_matching_no_conflict(dl, k);
        assert(recs.last().id_spec() != Some(k));
    }
}

/// Under unique identifiers at most one record matches an exact filter.
pub proof fn lemma_matching_exact_unique<T: Entity>(recs: Seq<T>, k: u32)
    requires
        unique_ids(recs),
    ensures
        matching(recs, IdFilter::Exact(k)).len() <= 1,
    decreases recs.len(),
{
    reveal(Seq::filter);
    if recs.len() == 0 {
    } else {
        let dl = recs.drop_last();
        assert forall|i: int, j: int|
            0 <= i < j < dl.len() && dl[i].id_spec() is Some implies dl[i].id_spec()
            != dl[j].id_spec() by {
            assert(dl[i] == recs[i] && dl[j] == recs[j]);
        }
        if recs.last().id_spec() == Some(k) {
            assert forall|i: int| 0 <= i < dl.len() implies (#[trigger] dl[i].id_spec()) != Some(
                k,
            ) by {
                assert(dl[i] == recs[i]);
                if recs[i].id_spec() is Some {
                    assert(recs[i].id_spec() != recs[recs.len() - 1].id_spec());
                }
            }
            lemma_matching_no_conflict(dl, k);
        } else {
            lemma_matching_exact_unique(dl, k);
        }
    }
}

/// How many records a capped scan returns: a cap of zero or no cap at all
/// returns everything, as the underlying store treats a zero limit.
pub open spec fn take_count(limit: Option<u32>, n: int) -> int {
    match limit {
        None => n,
        Some(k) => if k == 0 {
            n
        } else if k < n {
            k as int
        } else {
            n
        },
    }
}

/// The view of an optional sort key.
pub open spec fn opt_str_view(s: Option<&str>) -> Option<Seq<char>> {
    match s {
        Some(x) => Some(x@),
        None => None,
    }
}

/// What an ordered scan returns: the matching records sorted under the
/// requested key and direction, capped by the limit, or `NotFound` when
/// nothing matches.
pub open spec fn scan_spec<T: Entity>(
    recs: Seq<T>,
    flt: IdFilter,
    f: SortField,
    asc: bool,
    limit: Option<u32>,
) -> Result<Seq<T>, DbError> {
    let m = matching(recs, flt);
    if m.len() == 0 {
        Err(DbError::NotFound)
    } else {
        Ok(sort_by_spec(m, f, asc).take(take_count(limit, m.len() as int)))
    }
}

/// What a search returns. The sort key (default `id`) is validated before
/// anything else; a by-identifier lookup then requires an identifier and
/// returns the records holding it in stored order, ignoring the limit; an
/// ordered scan filters by the prototype's row filter, sorts and caps. An
/// empty result is `NotFound`.
pub open spec fn search_spec<T: Entity>(
    recs: Seq<T>,
    proto: T,
    mode: SearchMode,
    limit: Option<u32>,
    id: Option<u32>,
    sort_key: Option<Seq<char>>,
) -> Result<Seq<T>, DbError> {
    let skey = match sort_key {
        Some(s) => s,
        None => "id"@,
    };
    match parse_sort_key_spec(skey) {
        None => Err(DbError::InvalidSortKey),
        Some(f) => match mode {
            SearchMode::ById => match id {
                None => Err(DbError::MissingIdentifier),
                Some(k) => {
                    let m = matching(recs, IdFilter::Exact(k));
                    if m.len() == 0 {
                        Err(DbError::NotFound)
                    } else {
                        Ok(m)
                    }
                },
            },
            SearchMode::Ascending => scan_spec(recs, proto.base_filter_spec(), f, true, limit),
            SearchMode::Descending => scan_spec(recs, proto.base_filter_spec(), f, false, limit),
        },
    }
}

/// Whether an executable search result agrees with the specified one.
pub open spec fn res_matches<T: Entity>(
    r: Result<Vec<T>, DbError>,
    s: Result<Seq<T>, DbError>,
) -> bool {
    match (r, s) {
        (Ok(v), Ok(sq)) => v@ == sq,
        (Err(a), Err(b)) => a == b,
        _ => false,
    }
}

impl<T: Entity> Store<T> {
    /// The records that pass the row filter, cloned in stored order.
    fn filter_matching(&self, flt: IdFilter) -> (r: Vec<T>)
        ensures
            r@ == matching(self.recs(), flt),
    {
        let ghost pred = |t: T| id_matches(t.id_spec(), flt);
        let mut r: Vec<T> = Vec::new();
        let mut i: usize = 0;
        proof {
            assert(self.recs().take(0) =~= Seq::<T>::empty());
            reveal(Seq::filter);
        }
        while i < self.records.len()
            invariant
                i <= self.records.len(),
                pred == (|t: T| id_matches(t.id_spec(), flt)),
                r@ == self.recs().take(i as int).filter(pred),
            decreases self.records.len() - i,
        {
            let rec = &self.records[i];
            if id_matches_exec(rec.id(), flt) {
                r.push(rec.clone_rec());
            }
            proof {
                let s = self.recs();
                let x = s[i as int];
                assert(s.take(i + 1) =~= s.take(i as int) + seq![x]);
                Seq::<T>::filter_distributes_over_add(s.take(i as int), seq![x], pred);
                lemma_filter_singleton(x, pred);
                if pred(x) {
                    assert(r@ =~= s.take(i as int).filter(pred) + seq![x]);
                } else {
                    assert(r@ =~= s.take(i as int).filter(pred));
                }
            }
            i = i + 1;
        }
        proof {
            assert(self.recs().take(self.recs().len() as int) =~= self.recs());
        }
        r
    }

    /// An ordered scan: the matching records sorted under `f`, capped by
    /// the limit.
    fn scan(&self, flt: IdFilter, f: SortField, asc: bool, limit: Option<u32>) -> (r: Result<
        Vec<T>,
        DbError,
    >)
        ensures
            res_matches(r, scan_spec(self.recs(), flt, f, asc, limit)),
    {
        let items = self.filter_matching(flt);
        if items.len() == 0 {
            return Err(DbError::NotFound);
        }
        let ghost m = matching(self.recs(), flt);
        proof {
            lemma_sort_by_props(m, f, asc);
        }
        let mut sorted = sort_records(items, f, asc);
        let mut capped = false;
        if let Some(n) = limit {
            if n > 0 && (n as usize) < sorted.len() {
                sorted.truncate(n as usize);
                capped = true;
                proof {
                    assert(sorted@ == sort_by_spec(m, f, asc).take(take_count(limit, m.len() as int)));
                }
            }
        }
        if !capped {
            proof {
                assert(take_count(limit, m.len() as int) == m.len());
                assert(sort_by_spec(m, f, asc).take(m.len() as int) =~= sort_by_spec(m, f, asc));
            }
        }
        Ok(sorted)
    }

    /// A search against this collection, as `search_spec` states it.
    pub fn search(
        &self,
        proto: &T,
        mode: SearchMode,
        limit: Option<u32>,
        id: Option<u32>,
        sort_key: Option<&str>,
    ) -> (r: Result<Vec<T>, DbError>)
        requires
            self.wf(),
        ensures
            res_matches(
                r,
                search_spec(self.recs(), *proto, mode, limit, id, opt_str_view(sort_key)),
            ),
    {
        let skey: &str = match sort_key {
            Some(s) => s,
            None => "id",
        };
        let field = match parse_sort_key(skey) {
            Some(f) => f,
            None => {
                return Err(DbError::InvalidSortKey);
            },
        };
        match mode {
            SearchMode::ById => {
                let k = match id {
                    Some(k) => k,
                    None => {
                        return Err(DbError::MissingIdentifier);
                    },
                };
                let items = self.filter_matching(IdFilter::Exact(k));
                if items.len() == 0 {
                    Err(DbError::NotFound)
                } else {
                    Ok(items)
                }
            },
            SearchMode::Ascending => self.scan(proto.base_filter(), field, true, limit),
            SearchMode::Descending => self.scan(proto.base_filter(), field, false, limit),
        }
    }
}

/// Creates the record type's declared indexes on its collection, skipping
/// any whose name already exists.
pub fn create_indexes<T: Entity>(store: &mut Store<T>) -> (r: Result<(), DbError>)
    requires
        old(store).wf(),
    ensures
        final(store).wf(),
        r is Ok,
        final(store).recs() == old(store).recs(),
        final(store).indexes() == reconcile_spec(
            old(store).indexes(),
            T::declared_indexes_spec().map_values(|v: IndexSpecV| v.name),
        ),
{
    let declared = T::declared_indexes();
    let r = store.reconcile_indexes(&declared);
    proof {
        assert(declared@.map_values(|x: IndexSpec| x.name@) =~= T::declared_indexes_spec()
            .map_values(|v: IndexSpecV| v.name)) by {
            let lhs = declared@.map_values(|x: IndexSpec| x.name@);
            let rhs = T::declared_indexes_spec().map_values(|v: IndexSpecV| v.name);
            let views = declared@.map_values(|x: IndexSpec| x@);
            assert(views == T::declared_indexes_spec());
            assert forall|i: int| 0 <= i < lhs.len() implies lhs[i] == rhs[i] by {
                assert(views[i] == declared@[i]@);
            }
        }
    }
    r
}

/// Inserts the record where the type supports inserting, and reports
/// `Unsupported` otherwise.
pub fn insert_item<T: Entity>(store: &mut Store<T>, item: T) -> (r: Result<(), DbError>)
    requires
        old(store).wf(),
    ensures
        final(store).wf(),
        T::ops_spec().insert ==> final(store).indexes() == old(store).indexes() && match r {
            Ok(()) => !has_conflict(old(store).recs(), item.id_spec()) && final(store).recs()
                == old(store).recs().push(item),
            Err(e) => e == DbError::DuplicateKey && has_conflict(old(store).recs(), item.id_spec())
                && final(store).recs() == old(store).recs(),
        },
        !T::ops_spec().insert ==> r == Err::<(), DbError>(DbError::Unsupported) && *final(store)
            == *old(store),
{
    if T::ops().insert {
        store.insert(item)
    } else {
        Err(DbError::Unsupported)
    }
}

/// Upserts the record where the type supports updating, and reports
/// `Unsupported` otherwise.
pub fn update_item<T: Entity>(store: &mut Store<T>, item: T) -> (r: Result<(), DbError>)
    requires
        old(store).wf(),
    ensures
        final(store).wf(),
        T::ops_spec().update ==> final(store).indexes() == old(store).indexes() && r is Ok && ({
            let idx = find_by_id(old(store).recs(), item.id_spec());
            if idx >= 0 {
                final(store).recs() == old(store).recs().update(idx, item)
            } else {
                final(store).recs() == old(store).recs().push(item)
            }
        }),
        !T::ops_spec().update ==> r == Err::<(), DbError>(DbError::Unsupported) && *final(store)
            == *old(store),
{
    if T::ops().update {
        store.update(item)
    } else {
        Err(DbError::Unsupported)
    }
}

/// Deletes the one record with the given record's identifier where the
/// type supports deleting, and reports `Unsupported` otherwise.
pub fn delete_item<T: Entity>(store: &mut Store<T>, item: &T) -> (r: Result<(), DbError>)
    requires
        old(store).wf(),
    ensures
        final(store).wf(),
        T::ops_spec().delete ==> final(store).indexes() == old(store).indexes() && ({
            let idx = find_by_id(old(store).recs(), item.id_spec());
            match r {
                Ok(()) => idx >= 0 && final(store).recs() == old(store).recs().remove(idx),
                Err(e) => e == DbError::DeleteAnomaly && idx == -1 && final(store).recs()
                    == old(store).recs(),
            }
        }),
        !T::ops_spec().delete ==> r == Err::<(), DbError>(DbError::Unsupported) && *final(store)
            == *old(store),
{
    if T::ops().delete {
        store.delete(item)
    } else {
        Err(DbError::Unsupported)
    }
}

/// Drops the whole collection where the type supports it, and reports
/// `Unsupported` otherwise.
pub fn delete_item_all<T: Entity>(store: &mut Store<T>, item: &T) -> (r: Result<(), DbError>)
    requires
        old(store).wf(),
    ensures
        final(store).wf(),
        T::ops_spec().delete_all ==> r is Ok && final(store).recs() == Seq::<T>::empty()
            && final(store).indexes() == Seq::<Seq<char>>::empty(),
        !T::ops_spec().delete_all ==> r == Err::<(), DbError>(DbError::Unsupported) && *final(store)
            == *old(store),
{
    let _ = item;
    if T::ops().delete_all {
        store.delete_all()
    } else {
        Err(DbError::Unsupported)
    }
}

/// A search with the prototype's row filter.
pub fn search_items<T: Entity>(
    store: &Store<T>,
    proto: &T,
    mode: SearchMode,
    limit: Option<u32>,
    id: Option<u32>,
    sort_key: Option<&str>,
) -> (r: Result<Vec<T>, DbError>)
    requires
        store.wf(),
    ensures
        res_matches(r, search_spec(store.recs(), *proto, mode, limit, id, opt_str_view(sort_key))),
{
    store.search(proto, mode, limit, id, sort_key)
}

/// Looks one record up by identifier. Under the unique-identifier
/// invariant the result holds exactly one record, so a multi-record answer
/// cannot arise here.
pub fn search_item<T: Entity>(
    store: &Store<T>,
    proto: &T,
    id: Option<u32>,
    sort_key: Option<&str>,
) -> (r: Result<T, DbError>)
    requires
        store.wf(),
    ensures
        ({
            let s = search_spec(
                store.recs(),
                *proto,
                SearchMode::ById,
                None,
                id,
                opt_str_view(sort_key),
            );
            match s {
                Ok(items) => items.len() == 1 && r == Ok::<T, DbError>(items[0]),
                Err(e) => r == Err::<T, DbError>(e),
            }
        }),
{
    let mut items = match store.search(proto, SearchMode::ById, None, id, sort_key) {
        Ok(items) => items,
        Err(e) => {
            return Err(e);
        },
    };
    proof {
        match id {
            Some(k) => lemma_matching_exact_unique(store.recs(), k),
            None => {},
        }
    }
    if items.len() == 1 {
        match items.pop() {
            Some(item) => Ok(item),
            None => Err(DbError::MultipleResultsFound),
        }
    } else {
        Err(DbError::MultipleResultsFound)
    }
}

/// The indexes a position collection declares: a unique ascending
/// identifier index and both directions over the opening time.
pub open spec fn position_indexes_spec() -> Seq<IndexSpecV> {
    seq![
        IndexSpecV { name: "id_1"@, field: "id"@, ascending: true, unique: true },
        IndexSpecV {
            name: "open_timestamp_1"@,
            field: "open_timestamp"@,
            ascending: true,
            unique: false,
        },
        IndexSpecV {
            name: "open_timestamp_-1"@,
            field: "open_timestamp"@,
            ascending: false,
            unique: false,
        },
    ]
}

/// The indexes a profit-and-loss collection declares: the unique ascending
/// identifier index alone.
pub open spec fn pnl_indexes_spec() -> Seq<IndexSpecV> {
    seq![IndexSpecV { name: "id_1"@, field: "id"@, ascending: true, unique: true }]
}

/// The indexes a price collection declares: a unique ascending identifier
/// index and both directions over the observation time.
pub open spec fn price_indexes_spec() -> Seq<IndexSpecV> {
    seq![
        IndexSpecV { name: "id_1"@, field: "id"@, ascending: true, unique: true },
        IndexSpecV {
            name: "price_point.timestamp_1"@,
            field: "price_point.timestamp"@,
            ascending: true,
            unique: false,
        },
        IndexSpecV {
            name: "price_point.timestamp_-1"@,
            field: "price_point.timestamp"@,
            ascending: false,
            unique: false,
        },
    ]
}

/// The one declared list reconciliation applies to every collection: the
/// unique identifier index and both directions over each timestamp field.
pub open spec fn all_collection_indexes_spec() -> Seq<IndexSpecV> {
    seq![
        IndexSpecV { name: "id_1"@, field: "id"@, ascending: true, unique: true },
        IndexSpecV {
            name: "open_timestamp_1"@,
            field: "open_timestamp"@,
            ascending: true,
            unique: false,
        },
        IndexSpecV {
            name: "open_timestamp_-1"@,
            field: "open_timestamp"@,
            ascending: false,
            unique: false,
        },
        IndexSpecV {
            name: "price_point.timestamp_1"@,
            field: "price_point.timestamp"@,
            ascending: true,
            unique: false,
        },
        IndexSpecV {
            name: "price_point.timestamp_-1"@,
            field: "price_point.timestamp"@,
            ascending: false,
            unique: false,
        },
    ]
}

/// The one declared list reconciliation applies to every collection.
pub fn all_collection_indexes() -> (r: Vec<IndexSpec>)
    ensures
        r@.map_values(|x: IndexSpec| x@) == all_collection_indexes_spec(),
{
    let mut r: Vec<IndexSpec> = Vec::new();
    r.push(
        IndexSpec { name: "id_1".to_owned(), field: "id".to_owned(), ascending: true, unique: true },
    );
    r.push(
        IndexSpec {
            name: "open_timestamp_1".to_owned(),
            field: "open_timestamp".to_owned(),
            ascending: true,
            unique: false,
        },
    );
    r.push(
        IndexSpec {
            name: "open_timestamp_-1".to_owned(),
            field: "open_timestamp".to_owned(),
            ascending: false,
            unique: false,
        },
    );
    r.push(
        IndexSpec {
            name: "price_point.timestamp_1".to_owned(),
            field: "price_point.timestamp".to_owned(),
            ascending: true,
            unique: false,
        },
    );
    r.push(
        IndexSpec {
            name: "price_point.timestamp_-1".to_owned(),
            field: "price_point.timestamp".to_owned(),
            ascending: false,
            unique: false,
        },
    );
    proof {
        assert(r@.map_values(|x: IndexSpec| x@) =~= all_collection_indexes_spec());
    }
    r
}

impl SortKeyed for PositionLog {
    open spec fn sort_val_spec(&self, f: SortField) -> i64 {
        match f {
            SortField::Id => match self.id {
                Some(i) => i as i64,
                None => 0,
            },
            SortField::OpenTimestamp => self.open_timestamp,
            SortField::PriceTimestamp => 0,
        }
    }

    fn sort_val(&self, f: SortField) -> (r: i64) {
        match f {
            SortField::Id => match self.id {
                Some(i) => i as i64,
                None => 0,
            },
            SortField::OpenTimestamp => self.open_timestamp,
            SortField::PriceTimestamp => 0,
        }
    }
}

impl Entity for PositionLog {
    open spec fn id_spec(&self) -> Option<u32> {
        self.id
    }

    open spec fn base_filter_spec(&self) -> IdFilter {
        match self.id {
            Some(i) => IdFilter::Exact(i),
            None => IdFilter::AnyPositive,
        }
    }

    open spec fn ops_spec() -> OpsSupport {
        OpsSupport { insert: true, update: true, delete: false, delete_all: true }
    }

    open spec fn collection_name_spec() -> Seq<char> {
        "position"@
    }

    open spec fn declared_indexes_spec() -> Seq<IndexSpecV> {
        position_indexes_spec()
    }

    fn id(&self) -> (r: Option<u32>) {
        self.id
    }

    fn base_filter(&self) -> (r: IdFilter) {
        match self.id {
            Some(i) => IdFilter::Exact(i),
            None => IdFilter::AnyPositive,
        }
    }

    fn ops() -> (r: OpsSupport) {
        OpsSupport { insert: true, update: true, delete: false, delete_all: true }
    }

    fn get_collection_name(&self) -> (r: &'static str) {
        "position"
    }

    fn declared_indexes() -> (r: Vec<IndexSpec>) {
        let mut r: Vec<IndexSpec> = Vec::new();
        r.push(
            IndexSpec {
                name: "id_1".to_owned(),
                field: "id".to_owned(),
                ascending: true,
                unique: true,
            },
        );
        r.push(
            IndexSpec {
                name: "open_timestamp_1".to_owned(),
                field: "open_timestamp".to_owned(),
                ascending: true,
                unique: false,
            },
        );
        r.push(
            IndexSpec {
                name: "open_timestamp_-1".to_owned(),
                field: "open_timestamp".to_owned(),
                ascending: false,
                unique: false,
            },
        );
        proof {
            assert(r@.map_values(|x: IndexSpec| x@) =~= position_indexes_spec());
        }
        r
    }

    fn clone_rec(&self) -> (r: Self) {
        self.clone()
    }

    proof fn lemma_id_sort_val(&self) {
    }
}

impl SortKeyed for PnlLog {
    open spec fn sort_val_spec(&self, f: SortField) -> i64 {
        match f {
            SortField::Id => match self.id {
                Some(i) => i as i64,
                None => 0,
            },
            SortField::OpenTimestamp => 0,
            SortField::PriceTimestamp => 0,
        }
    }

    fn sort_val(&self, f: SortField) -> (r: i64) {
        match f {
            SortField::Id => match self.id {
                Some(i) => i as i64,
                None => 0,
            },
            SortField::OpenTimestamp => 0,
            SortField::PriceTimestamp => 0,
        }
    }
}

impl Entity for PnlLog {
    open spec fn id_spec(&self) -> Option<u32> {
        self.id
    }

    open spec fn base_filter_spec(&self) -> IdFilter {
        match self.id {
            Some(i) => IdFilter::Exact(i),
            None => IdFilter::AnyPositive,
        }
    }

    open spec fn ops_spec() -> OpsSupport {
        OpsSupport { insert: true, update: false, delete: false, delete_all: false }
    }

    open spec fn collection_name_spec() -> Seq<char> {
        "balance"@
    }

    open spec fn declared_indexes_spec() -> Seq<IndexSpecV> {
        pnl_indexes_spec()
    }

    fn id(&self) -> (r: Option<u32>) {
        self.id
    }

    fn base_filter(&self) -> (r: IdFilter) {
        match self.id {
            Some(i) => IdFilter::Exact(i),
            None => IdFilter::AnyPositive,
        }
    }

    fn ops() -> (r: OpsSupport) {
        OpsSupport { insert: true, update: false, delete: false, delete_all: false }
    }

    fn get_collection_name(&self) -> (r: &'static str) {
        "balance"
    }

    fn declared_indexes() -> (r: Vec<IndexSpec>) {
        let mut r: Vec<IndexSpec> = Vec::new();
        r.push(
            IndexSpec {
                name: "id_1".to_owned(),
                field: "id".to_owned(),
                ascending: true,
                unique: true,
            },
        );
        proof {
            assert(r@.map_values(|x: IndexSpec| x@) =~= pnl_indexes_spec());
        }
        r
    }

    fn clone_rec(&self) -> (r: Self) {
        self.clone()
    }

    proof fn lemma_id_sort_val(&self) {
    }
}

impl SortKeyed for PriceLog {
    open spec fn sort_val_spec(&self, f: SortField) -> i64 {
        match f {
            SortField::Id => match self.id {
                Some(i) => i as i64,
                None => 0,
            },
            SortField::OpenTimestamp => 0,
            SortField::PriceTimestamp => self.price_point.timestamp,
        }
    }

    fn sort_val(&self, f: SortField) -> (r: i64) {
        match f {
            SortField::Id => match self.id {
                Some(i) => i as i64,
                None => 0,
            },
            SortField::OpenTimestamp => 0,
            SortField::PriceTimestamp => self.price_point.timestamp,
        }
    }
}

impl Entity for PriceLog {
    open spec fn id_spec(&self) -> Option<u32> {
        self.id
    }

    open spec fn base_filter_spec(&self) -> IdFilter {
        match self.id {
            Some(i) => IdFilter::Exact(i),
            None => IdFilter::AnyPositive,
        }
    }

    open spec fn ops_spec() -> OpsSupport {
        OpsSupport { insert: true, update: true, delete: false, delete_all: false }
    }

    open spec fn collection_name_spec() -> Seq<char> {
        "price"@
    }

    open spec fn declared_indexes_spec() -> Seq<IndexSpecV> {
        price_indexes_spec()
    }

    fn id(&self) -> (r: Option<u32>) {
        self.id
    }

    fn base_filter(&self) -> (r: IdFilter) {
        match self.id {
            Some(i) => IdFilter::Exact(i),
            None => IdFilter::AnyPositive,
        }
    }

    fn ops() -> (r: OpsSupport) {
        OpsSupport { insert: true, update: true, delete: false, delete_all: false }
    }

    fn get_collection_name(&self) -> (r: &'static str) {
        "price"
    }

    fn declared_indexes() -> (r: Vec<IndexSpec>) {
        let mut r: Vec<IndexSpec> = Vec::new();
        r.push(
            IndexSpec {
                name: "id_1".to_owned(),
                field: "id".to_owned(),
                ascending: true,
                unique: true,
            },
        );
        r.push(
            IndexSpec {
                name: "price_point.timestamp_1".to_owned(),
                field: "price_point.timestamp".to_owned(),
                ascending: true,
                unique: false,
            },
        );
        r.push(
            IndexSpec {
                name: "price_point.timestamp_-1".to_owned(),
                field: "price_point.timestamp".to_owned(),
                ascending: false,
                unique: false,
            },
        );
        proof {
            assert(r@.map_values(|x: IndexSpec| x@) =~= price_indexes_spec());
        }
        r
    }

    fn clone_rec(&self) -> (r: Self) {
        self.clone()
    }

    proof fn lemma_id_sort_val(&self) {
    }
}

/// A price point orders by its observation time under every sort field.
impl SortKeyed for crate::records::PricePoint {
    open spec fn sort_val_spec(&self, f: SortField) -> i64 {
        self.timestamp
    }

    fn sort_val(&self, f: SortField) -> (r: i64) {
        let _ = f;
        self.timestamp
    }
}

/// The collection of the singleton application state. It is modelled as a
/// singleton accessor (load, then upsert keyed on the fixed identifier),
/// so a multi-record answer cannot arise for this type; inserting and
/// deleting single records are unsupported, as they are for the record
/// type itself.
pub struct AppStateStore {
    state: Option<AppState>,
    index_names: Vec<String>,
}

impl AppStateStore {
    /// The stored singleton, if any, by value.
    pub closed spec fn state_view(self) -> Option<AppStateV> {
        match self.state {
            Some(s) => Some(s@),
            None => None,
        }
    }

    /// The names of the collection's indexes.
    pub closed spec fn indexes(self) -> Seq<Seq<char>> {
        self.index_names@.map_values(|s: String| s@)
    }

    /// The collection's invariant: a stored singleton carries the fixed
    /// identifier 1.
    pub open spec fn wf(self) -> bool {
        match self.state_view() {
            Some(v) => v.id == 1,
            None => true,
        }
    }

    /// An empty singleton collection without indexes.
    pub fn new() -> (r: Self)
        ensures
            r.wf(),
            r.state_view() == None::<AppStateV>,
            r.indexes() == Seq::<Seq<char>>::empty(),
    {
        let r = AppStateStore { state: None, index_names: Vec::new() };
        proof {
            assert(r.indexes() =~= Seq::<Seq<char>>::empty());
        }
        r
    }

    /// The stored state, or `NotFound` when none has been written yet.
    /// Under the singleton invariant a returned state carries identifier 1.
    pub fn load(&self) -> (r: Result<AppState, DbError>)
        ensures
            match self.state_view() {
                Some(v) => r matches Ok(s) && s@ == v,
                None => r == Err::<AppState, DbError>(DbError::NotFound),
            },
            self.wf() ==> (r matches Ok(s) ==> s@.id == 1),
    {
        match &self.state {
            Some(s) => Ok(s.clone()),
            None => Err(DbError::NotFound),
        }
    }

    /// Writes the state, creating it if absent; the write is keyed on the
    /// fixed singleton identifier, so the state must carry it.
    pub fn upsert(&mut self, s: AppState) -> (r: Result<(), DbError>)
        requires
            s@.id == 1,
        ensures
            final(self).wf(),
            final(self).state_view() == Some(s@),
            final(self).indexes() == old(self).indexes(),
            r is Ok,
    {
        self.state = Some(s);
        Ok(())
    }

    /// Inserting a fresh application-state record is unsupported; the
    /// singleton is only written through `upsert`.
    pub fn insert(&mut self, s: &AppState) -> (r: Result<(), DbError>)
        ensures
            r == Err::<(), DbError>(DbError::Unsupported),
            *final(self) == *old(self),
    {
        let _ = s;
        Err(DbError::Unsupported)
    }

    /// Deleting the application-state record singly is unsupported; only
    /// dropping the collection removes it.
    pub fn delete(&mut self, s: &AppState) -> (r: Result<(), DbError>)
        ensures
            r == Err::<(), DbError>(DbError::Unsupported),
            *final(self) == *old(self),
    {
        let _ = s;
        Err(DbError::Unsupported)
    }

    /// Drops the collection: the singleton and every index are gone.
    pub fn delete_all(&mut self) -> (r: Result<(), DbError>)
        ensures
            final(self).wf(),
            final(self).state_view() == None::<AppStateV>,
            final(self).indexes() == Seq::<Seq<char>>::empty(),
            r is Ok,
    {
        self.state = None;
        self.index_names = Vec::new();
        proof {
            assert(self.indexes() =~= Seq::<Seq<char>>::empty());
        }
        Ok(())
    }

    /// Whether the collection has an index of this name.
    fn has_index_name(&self, name: &str) -> (r: bool)
        ensures
            r == self.indexes().contains(name@),
    {
        let mut i: usize = 0;
        let mut found = false;
        while i < self.index_names.len()
            invariant
                i <= self.index_names.len(),
                found == exists|j: int| 0 <= j < i && self.index_names@[j]@ == name@,
            decreases self.index_names.len() - i,
        {
            if str_eq(self.index_names[i].as_str(), name) {
                proof {
                    assert(self.index_names@[i as int]@ == name@);
                }
                found = true;
            }
            i = i + 1;
        }
        proof {
            if found {
                let j = choose|j: int| 0 <= j < self.index_names@.len() && self.index_names@[j]@
                    == name@;
                assert(self.indexes()[j] == name@);
            } else {
                assert forall|j: int| 0 <= j < self.indexes().len() implies self.indexes()[j]
                    != name@ by {
                    assert(self.indexes()[j] == self.index_names@[j]@);
                }
            }
        }
        found
    }

    /// The names of the collection's indexes, in creation order.
    pub fn list_index_names(&self) -> (r: Vec<String>)
        ensures
            r@.map_values(|s: String| s@) == self.indexes(),
    {
        let r = crate::records::clone_strings(&self.index_names);
        r
    }

    /// Creates the index unless one of the same name exists.
    pub fn create_index(&mut self, idx: &IndexSpec) -> (r: Result<(), DbError>)
        ensures
            final(self).state_view() == old(self).state_view(),
            final(self).indexes() == add_if_missing(old(self).indexes(), idx.name@),
            r is Ok,
    {
        if !self.has_index_name(idx.name.as_str()) {
            let ghost before = self.indexes();
            self.index_names.push(idx.name.clone());
            proof {
                assert(self.indexes() =~= before.push(idx.name@));
            }
        }
        Ok(())
    }

    /// Creates every declared index whose name is missing, in declaration
    /// order.
    pub fn reconcile_indexes(&mut self, declared: &Vec<IndexSpec>) -> (r: Result<(), DbError>)
        ensures
            final(self).state_view() == old(self).state_view(),
            final(self).indexes() == reconcile_spec(
                old(self).indexes(),
                declared@.map_values(|x: IndexSpec| x.name@),
            ),
            r is Ok,
    {
        let ghost names = declared@.map_values(|x: IndexSpec| x.name@);
        let ghost initial = self.indexes();
        let mut i: usize = 0;
        proof {
            assert(names.take(0) =~= Seq::<Seq<char>>::empty());
        }
        while i < declared.len()
            invariant
                i <= declared.len(),
                self.state_view() == old(self).state_view(),
                names == declared@.map_values(|x: IndexSpec| x.name@),
                initial == old(self).indexes(),
                self.indexes() == reconcile_spec(initial, names.take(i as int)),
            decreases declared.len() - i,
        {
            let _ = self.create_index(&declared[i]);
            proof {
                assert(names[i as int] == declared@[i as int].name@);
                lemma_reconcile_snoc(initial, names.take(i as int), names[i as int]);
                assert(names.take(i + 1) =~= names.take(i as int).push(names[i as int]));
            }
            i = i + 1;
        }
        proof {
            assert(names.take(names.len() as int) =~= names);
        }
        Ok(())
    }
}

} // verus!
