//! The transaction-log facade: the single entry point the rest of the
//! application uses.
//!
//! It owns the three identifier counters and the two database names, and
//! exposes the typed operations over a `Db`, the model of the shared
//! document store. A host process holds one `Db`-shaped store per logical
//! database behind its driver and calls these operations with it.

use vstd::prelude::*;
use vstd::seq_lib::*;

use crate::counter::Counter;
use crate::decimal::Decimal;
use crate::counter::CounterType;
use crate::errors::DbError;
use crate::records::app_state_default;
use crate::records::AppState;
use crate::records::AppStateV;
use crate::records::FundConfig;
use crate::records::PricePoint;
use crate::records::PnlLog;
use crate::records::PositionLog;
use crate::records::PriceLog;
use crate::store::all_collection_indexes;
use crate::store::all_collection_indexes_spec;
use crate::store::has_conflict;
use crate::store::find_by_id;
use crate::store::id_matches;
use crate::store::insert_item;
use crate::store::lemma_filter_subset;
use crate::store::lemma_sort_by_contains;
use crate::store::lemma_sort_by_props;
use crate::store::matching;
use crate::store::reconcile_spec;
use crate::store::scan_spec;
use crate::store::search_item;
use crate::store::search_items;
use crate::store::sort_by_spec;
use crate::store::sort_records;
use crate::store::str_eq;
use crate::store::update_item;
use crate::store::AppStateStore;
use crate::store::Entity;
use crate::store::IdFilter;
use crate::store::IndexSpec;
use crate::store::SearchMode;
use crate::store::SortField;
use crate::store::Store;

verus! {

/// The names of the one declared index list, in declaration order.
pub open spec fn all_index_names() -> Seq<Seq<char>> {
    all_collection_indexes_spec().map_values(|x: crate::store::IndexSpecV| x.name)
}

/// The model of one logical database: the four collections this layer
/// persists records in.
pub struct Db {
    pub positions: Store<PositionLog>,
    pub prices: Store<PriceLog>,
    pub pnls: Store<PnlLog>,
    pub app_states: AppStateStore,
}

impl Db {
    /// Every collection upholds its invariant: unique assigned
    /// identifiers, and the stored application state carries the fixed
    /// identifier 1.
    pub open spec fn wf(self) -> bool {
        self.positions.wf() && self.prices.wf() && self.pnls.wf() && self.app_states.wf()
    }

    /// An empty database.
    pub fn new() -> (r: Self)
        ensures
            r.wf(),
            r.positions.recs() == Seq::<PositionLog>::empty(),
            r.prices.recs() == Seq::<PriceLog>::empty(),
            r.pnls.recs() == Seq::<PnlLog>::empty(),
            r.app_states.state_view() == None::<AppStateV>,
    {
        Db {
            positions: Store::new(),
            prices: Store::new(),
            pnls: Store::new(),
            app_states: AppStateStore::new(),
        }
    }
}

/// The highest assigned identifier of the collection, or zero without one.
pub open spec fn max_pos_id<T: Entity>(recs: Seq<T>) -> u32
    decreases recs.len(),
{
    if recs.len() == 0 {
        0
    } else {
        let rest = max_pos_id(recs.drop_first());
        let head: u32 = match recs[0].id_spec() {
            Some(i) => i,
            None => 0,
        };
        if head >= rest {
            head
        } else {
            rest
        }
    }
}

/// The highest identifier dominates every assigned identifier and, when
/// positive, is itself assigned to some record.
pub proof fn lemma_max_pos_id_props<T: Entity>(recs: Seq<T>)
    ensures
        forall|i: int|
            0 <= i < recs.len() ==> ((#[trigger] recs[i].id_spec()) matches Some(v) ==> v
                <= max_pos_id(recs)),
        max_pos_id(recs) > 0 ==> exists|i: int|
            0 <= i < recs.len() && recs[i].id_spec() == Some(max_pos_id(recs)),
    decreases recs.len(),
{
    if recs.len() == 0 {
    } else {
        let rest = recs.drop_first();
        lemma_max_pos_id_props(rest);
        assert forall|i: int|
            0 <= i < recs.len() implies ((#[trigger] recs[i].id_spec()) matches Some(v) ==> v
            <= max_pos_id(recs)) by {
            if i > 0 {
                assert(recs[i] == rest[i - 1]);
            }
        }
        if max_pos_id(recs) > 0 {
            let head: u32 = match recs[0].id_spec() {
                Some(i) => i,
                None => 0,
            };
            if head >= max_pos_id(rest) {
                assert(recs[0].id_spec() == Some(max_pos_id(recs)));
            } else {
                let i = choose|i: int|
                    0 <= i < rest.len() && rest[i].id_spec() == Some(max_pos_id(rest));
                assert(recs[i + 1].id_spec() == Some(max_pos_id(recs)));
            }
        }
    }
}

/// Reconciles the one declared index list against every collection:
/// missing indexes are created, existing ones left untouched. Safe to run
/// on every process start.
pub fn create_unique_index(db: &mut Db) -> (r: Result<(), DbError>)
    requires
        old(db).wf(),
    ensures
        final(db).wf(),
        r is Ok,
        final(db).positions.recs() == old(db).positions.recs(),
        final(db).prices.recs() == old(db).prices.recs(),
        final(db).pnls.recs() == old(db).pnls.recs(),
        final(db).app_states.state_view() == old(db).app_states.state_view(),
        final(db).positions.indexes() == reconcile_spec(
            old(db).positions.indexes(),
            all_index_names(),
        ),
        final(db).prices.indexes() == reconcile_spec(old(db).prices.indexes(), all_index_names()),
        final(db).pnls.indexes() == reconcile_spec(old(db).pnls.indexes(), all_index_names()),
        final(db).app_states.indexes() == reconcile_spec(
            old(db).app_states.indexes(),
            all_index_names(),
        ),
{
    let declared = all_collection_indexes();
    proof {
        assert(declared@.map_values(|x: IndexSpec| x.name@) =~= all_index_names());
    }
    let _ = db.positions.reconcile_indexes(&declared);
    let _ = db.app_states.reconcile_indexes(&declared);
    let _ = db.prices.reconcile_indexes(&declared);
    let _ = db.pnls.reconcile_indexes(&declared);
    Ok(())
}

/// The identifier a fresh record of this collection should follow: the
/// highest assigned one, read through a descending single-record scan, or
/// zero for an empty collection.
fn get_last_id<T: Entity>(store: &Store<T>, proto: &T) -> (r: u32)
    requires
        store.wf(),
        proto.base_filter_spec() == IdFilter::AnyPositive,
    ensures
        r == max_pos_id(store.recs()),
{
    broadcast use vstd::seq_lib::group_to_multiset_ensures;

    let ghost recs = store.recs();
    let ghost pred = |t: T| id_matches(t.id_spec(), IdFilter::AnyPositive);
    let ghost m = matching(recs, IdFilter::AnyPositive);
    let res = search_items(store, proto, SearchMode::Descending, Some(1), None, None);
    proof {
        lemma_max_pos_id_props(recs);
    }
    match res {
        Ok(mut items) => {
            let ghost sorted = sort_by_spec(m, SortField::Id, false);
            proof {
                lemma_sort_by_props(m, SortField::Id, false);
                assert(items@ == sorted.take(1));
            }
            let last = items.pop();
            match last {
                Some(item) => {
                    proof {
                        assert(item == sorted[0]);
                        lemma_sort_by_contains(m, SortField::Id, false, 0);
                        let j = choose|j: int| 0 <= j < m.len() && m[j] == item;
                        Seq::lemma_filter_pred(recs, pred, j);
                        assert(id_matches(item.id_spec(), IdFilter::AnyPositive));
                    }
                    match item.id() {
                        Some(i) => {
                            proof {
                                let j = choose|j: int| 0 <= j < m.len() && m[j] == item;
                                lemma_filter_subset(recs, pred, j);
                                let k = choose|k: int| 0 <= k < recs.len() && recs[k] == item;
                                assert(recs[k].id_spec() matches Some(v) && v <= max_pos_id(recs));
                                let mx = max_pos_id(recs);
                                if mx > 0 {
                                    let a = choose|a: int|
                                        0 <= a < recs.len() && recs[a].id_spec() == Some(mx);
                                    Seq::lemma_filter_contains(recs, pred, a);
                                    assert(m.contains(recs[a]));
                                    assert(m.to_multiset().count(recs[a]) > 0);
                                    assert(sorted.to_multiset().count(recs[a]) > 0);
                                    assert(sorted.contains(recs[a]));
                                    let c = choose|c: int|
                                        0 <= c < sorted.len() && sorted[c] == recs[a];
                                    if c > 0 {
                                        assert(crate::store::key_le(
                                            sorted[0],
                                            sorted[c],
                                            SortField::Id,
                                            false,
                                        ));
                                    }
                                    assert(item.sort_val_spec(SortField::Id) >= recs[
                                        a].sort_val_spec(SortField::Id));
                                    item.lemma_id_sort_val();
                                    recs[a].lemma_id_sort_val();
                                    assert(i >= mx);
                                }
                            }
                            i
                        },
                        None => 0,
                    }
                },
                None => 0,
            }
        },
        Err(_) => {
            proof {
                let mx = max_pos_id(recs);
                if mx > 0 {
                    let a = choose|a: int| 0 <= a < recs.len() && recs[a].id_spec() == Some(mx);
                    Seq::lemma_filter_contains(recs, pred, a);
                    assert(m.contains(recs[a]));
                    assert(m.len() > 0);
                }
            }
            0
        },
    }
}

/// The facade every subsystem records through: the shared counters and the
/// two logical database names, for reads and for writes.
pub struct TransactionLog {
    counter: Counter,
    db_r_name: String,
    db_w_name: String,
}

impl TransactionLog {
    /// The identifier handed out last for a category.
    pub closed spec fn counter_value(self, t: CounterType) -> u32 {
        self.counter.value_spec(t)
    }

    /// The advisory counter bound of a category.
    pub closed spec fn counter_bound(self, t: CounterType) -> Option<u32> {
        self.counter.bound_spec(t)
    }

    /// The name of the logical database reads go to.
    pub closed spec fn r_name_spec(self) -> Seq<char> {
        self.db_r_name@
    }

    /// The name of the logical database writes go to.
    pub closed spec fn w_name_spec(self) -> Seq<char> {
        self.db_w_name@
    }

    /// Prepares the store and the facade at startup: reconciles the
    /// declared indexes, wipes positions and application state when a
    /// backtest reset is requested, and seeds each counter from the
    /// highest identifier then persisted.
    pub fn new(
        max_position_counter: Option<u32>,
        max_price_counter: Option<u32>,
        max_pnl_counter: Option<u32>,
        db: &mut Db,
        db_r_name: &str,
        db_w_name: &str,
        back_test: bool,
    ) -> (r: Self)
        requires
            old(db).wf(),
        ensures
            final(db).wf(),
            final(db).prices.recs() == old(db).prices.recs(),
            final(db).pnls.recs() == old(db).pnls.recs(),
            final(db).prices.indexes() == reconcile_spec(
                old(db).prices.indexes(),
                all_index_names(),
            ),
            final(db).pnls.indexes() == reconcile_spec(old(db).pnls.indexes(), all_index_names()),
            back_test ==> final(db).positions.recs() == Seq::<PositionLog>::empty()
                && final(db).app_states.state_view() == None::<AppStateV>,
            !back_test ==> final(db).positions.recs() == old(db).positions.recs()
                && final(db).app_states.state_view() == old(db).app_states.state_view()
                && final(db).positions.indexes() == reconcile_spec(
                old(db).positions.indexes(),
                all_index_names(),
            ) && final(db).app_states.indexes() == reconcile_spec(
                old(db).app_states.indexes(),
                all_index_names(),
            ),
            r.counter_value(CounterType::Position) == max_pos_id(final(db).positions.recs()),
            r.counter_value(CounterType::Price) == max_pos_id(final(db).prices.recs()),
            r.counter_value(CounterType::Pnl) == max_pos_id(final(db).pnls.recs()),
            r.counter_bound(CounterType::Position) == max_position_counter,
            r.counter_bound(CounterType::Price) == max_price_counter,
            r.counter_bound(CounterType::Pnl) == max_pnl_counter,
            r.r_name_spec() == db_r_name@,
            r.w_name_spec() == db_w_name@,
    {
        let _ = create_unique_index(db);
        if back_test {
            let _ = Self::delete_all_positions(db);
            let _ = Self::delete_app_state(db);
        }
        let last_position_counter = Self::get_last_transaction_id(db, CounterType::Position);
        let last_price_counter = Self::get_last_transaction_id(db, CounterType::Price);
        let last_pnl_counter = Self::get_last_transaction_id(db, CounterType::Pnl);
        let counter = Counter::new(
            max_position_counter,
            max_price_counter,
            max_pnl_counter,
            last_position_counter,
            last_price_counter,
            last_pnl_counter,
        );
        TransactionLog {
            counter,
            db_r_name: db_r_name.to_owned(),
            db_w_name: db_w_name.to_owned(),
        }
    }

    /// Hands out the next identifier of a category. The advisory bound is
    /// not consulted; a host process serializes concurrent callers.
    pub fn increment_counter(&mut self, counter_type: CounterType) -> (r: u32)
        requires
            old(self).counter_value(counter_type) < u32::MAX,
        ensures
            r == old(self).counter_value(counter_type) + 1,
            final(self).counter_value(counter_type) == r,
            forall|u: CounterType|
                u != counter_type ==> final(self).counter_value(u) == old(self).counter_value(u),
            forall|u: CounterType| final(self).counter_bound(u) == old(self).counter_bound(u),
            final(self).r_name_spec() == old(self).r_name_spec(),
            final(self).w_name_spec() == old(self).w_name_spec(),
    {
        self.counter.increment(counter_type)
    }

    /// The highest identifier persisted for a category, or zero.
    pub fn get_last_transaction_id(db: &Db, counter_type: CounterType) -> (r: u32)
        requires
            db.wf(),
        ensures
            r == match counter_type {
                CounterType::Position => max_pos_id(db.positions.recs()),
                CounterType::Price => max_pos_id(db.prices.recs()),
                CounterType::Pnl => max_pos_id(db.pnls.recs()),
            },
    {
        match counter_type {
            CounterType::Position => get_last_id(&db.positions, &PositionLog::default()),
            CounterType::Price => get_last_id(&db.prices, &PriceLog::default()),
            CounterType::Pnl => get_last_id(&db.pnls, &PnlLog::default()),
        }
    }

    /// The name of the logical database reads go to.
    pub fn r_db_name(&self) -> (r: &str)
        ensures
            r@ == self.r_name_spec(),
    {
        self.db_r_name.as_str()
    }

    /// The name of the logical database writes go to.
    pub fn w_db_name(&self) -> (r: &str)
        ensures
            r@ == self.w_name_spec(),
    {
        self.db_w_name.as_str()
    }

    /// Upserts a position keyed on its identifier.
    pub fn update_transaction(db: &mut Db, item: &PositionLog) -> (r: Result<(), DbError>)
        requires
            old(db).wf(),
        ensures
            final(db).wf(),
            r is Ok,
            final(db).prices == old(db).prices,
            final(db).pnls == old(db).pnls,
            final(db).app_states == old(db).app_states,
            final(db).positions.indexes() == old(db).positions.indexes(),
            ({
                let idx = find_by_id(old(db).positions.recs(), item.id);
                if idx >= 0 {
                    final(db).positions.recs() == old(db).positions.recs().update(idx, *item)
                } else {
                    final(db).positions.recs() == old(db).positions.recs().push(*item)
                }
            }),
    {
        update_item(&mut db.positions, item.clone())
    }

    /// Upserts a price record keyed on its identifier.
    pub fn update_price(db: &mut Db, item: PriceLog) -> (r: Result<(), DbError>)
        requires
            old(db).wf(),
        ensures
            final(db).wf(),
            r is Ok,
            final(db).positions == old(db).positions,
            final(db).pnls == old(db).pnls,
            final(db).app_states == old(db).app_states,
            final(db).prices.indexes() == old(db).prices.indexes(),
            ({
                let idx = find_by_id(old(db).prices.recs(), item.id);
                if idx >= 0 {
                    final(db).prices.recs() == old(db).prices.recs().update(idx, item)
                } else {
                    final(db).prices.recs() == old(db).prices.recs().push(item)
                }
            }),
    {
        update_item(&mut db.prices, item)
    }

    /// Every position, ordered ascending by identifier; an unreachable or
    /// empty store reads as no positions.
    pub fn get_all_positions(db: &Db) -> (r: Vec<PositionLog>)
        requires
            db.wf(),
        ensures
            match scan_spec(
                db.positions.recs(),
                IdFilter::AnyPositive,
                SortField::Id,
                true,
                None,
            ) {
                Ok(s) => r@ == s,
                Err(_) => r@ == Seq::<PositionLog>::empty(),
            },
    {
        let proto = PositionLog::default();
        match search_items(&db.positions, &proto, SearchMode::Ascending, None, None, None) {
            Ok(items) => items,
            Err(_) => Vec::new(),
        }
    }

    /// Drops the position collection; used by the backtest reset.
    fn delete_all_positions(db: &mut Db) -> (r: Result<(), DbError>)
        requires
            old(db).wf(),
        ensures
            final(db).wf(),
            r is Ok,
            final(db).positions.recs() == Seq::<PositionLog>::empty(),
            final(db).positions.indexes() == Seq::<Seq<char>>::empty(),
            final(db).prices == old(db).prices,
            final(db).pnls == old(db).pnls,
            final(db).app_states == old(db).app_states,
    {
        db.positions.delete_all()
    }

    /// Records a profit-and-loss entry; a reused identifier is rejected
    /// with `DuplicateKey`.
    pub fn insert_pnl(db: &mut Db, item: PnlLog) -> (r: Result<(), DbError>)
        requires
            old(db).wf(),
        ensures
            final(db).wf(),
            final(db).positions == old(db).positions,
            final(db).prices == old(db).prices,
            final(db).app_states == old(db).app_states,
            final(db).pnls.indexes() == old(db).pnls.indexes(),
            match r {
                Ok(()) => !has_conflict(old(db).pnls.recs(), item.id) && final(db).pnls.recs()
                    == old(db).pnls.recs().push(item),
                Err(e) => e == DbError::DuplicateKey && has_conflict(old(db).pnls.recs(), item.id)
                    && final(db).pnls.recs() == old(db).pnls.recs(),
            },
    {
        insert_item(&mut db.pnls, item)
    }

    /// The stored application state, or its default when none exists yet;
    /// either way it carries the fixed singleton identifier.
    pub fn get_app_state(db: &Db) -> (r: AppState)
        requires
            db.wf(),
        ensures
            r@ == match db.app_states.state_view() {
                Some(v) => v,
                None => app_state_default(),
            },
            r@.id == 1,
    {
        match db.app_states.load() {
            Ok(item) => item,
            Err(_) => AppState::default(),
        }
    }

    /// Drops the application-state collection; used by the backtest reset.
    fn delete_app_state(db: &mut Db) -> (r: Result<(), DbError>)
        requires
            old(db).wf(),
        ensures
            final(db).wf(),
            r is Ok,
            final(db).app_states.state_view() == None::<AppStateV>,
            final(db).app_states.indexes() == Seq::<Seq<char>>::empty(),
            final(db).positions == old(db).positions,
            final(db).prices == old(db).prices,
            final(db).pnls == old(db).pnls,
    {
        db.app_states.delete_all()
    }
}


/// The view of an optional fund-configuration list.
pub open spec fn opt_configs_view(fc: Option<Vec<FundConfig>>) -> Option<Seq<FundConfig>> {
    match fc {
        Some(v) => Some(v@),
        None => None,
    }
}

/// The application state a merge-update starts from: the stored singleton,
/// or its default when none exists yet.
pub open spec fn current_app_state(db: Db) -> AppStateV {
    match db.app_states.state_view() {
        Some(v) => v,
        None => app_state_default(),
    }
}

/// The per-field merge policy of the application state: supplied plain
/// fields replace, the maximum drawdown only grows, the cumulative totals
/// accumulate, the circuit-breaker flag is always overwritten, a supplied
/// error time is appended to the log, and absent fields stay untouched.
pub open spec fn merge_app_state_spec(
    cur: AppStateV,
    last_execution_time: Option<i64>,
    last_equity: Option<Decimal>,
    ave_dd: Option<Decimal>,
    max_dd: Option<Decimal>,
    cumulative_return: Option<Decimal>,
    cumulative_dd: Option<Decimal>,
    score: Option<Decimal>,
    score_2: Option<Decimal>,
    score_3: Option<Decimal>,
    curcuit_break: bool,
    error_time: Option<String>,
    max_invested_amount: Option<Decimal>,
    fund_configs: Option<Seq<FundConfig>>,
) -> AppStateV {
    AppStateV {
        id: cur.id,
        last_execution_time: match last_execution_time {
            Some(t) => Some(t),
            None => cur.last_execution_time,
        },
        last_equity: match last_equity {
            Some(v) => Some(v),
            None => cur.last_equity,
        },
        ave_dd: match ave_dd {
            Some(v) => Some(v),
            None => cur.ave_dd,
        },
        max_dd: match max_dd {
            Some(v) => match cur.max_dd {
                Some(c) => if v.raw > c.raw {
                    Some(v)
                } else {
                    Some(c)
                },
                None => Some(v),
            },
            None => cur.max_dd,
        },
        cumulative_return: match cumulative_return {
            Some(v) => Decimal { raw: (cur.cumulative_return.raw + v.raw) as i64 },
            None => cur.cumulative_return,
        },
        cumulative_dd: match cumulative_dd {
            Some(v) => Decimal { raw: (cur.cumulative_dd.raw + v.raw) as i64 },
            None => cur.cumulative_dd,
        },
        score: match score {
            Some(v) => Some(v),
            None => cur.score,
        },
        score_2: match score_2 {
            Some(v) => Some(v),
            None => cur.score_2,
        },
        score_3: match score_3 {
            Some(v) => Some(v),
            None => cur.score_3,
        },
        curcuit_break: curcuit_break,
        error_time: match error_time {
            Some(t) => cur.error_time.push(t),
            None => cur.error_time,
        },
        max_invested_amount: match max_invested_amount {
            Some(v) => v,
            None => cur.max_invested_amount,
        },
        fund_configs: match fund_configs {
            Some(v) => Some(v),
            None => cur.fund_configs,
        },
    }
}

/// Applies the merge policy to one state value.
pub fn merge_app_state(
    cur: AppState,
    last_execution_time: Option<i64>,
    last_equity: Option<Decimal>,
    ave_dd: Option<Decimal>,
    max_dd: Option<Decimal>,
    cumulative_return: Option<Decimal>,
    cumulative_dd: Option<Decimal>,
    score: Option<Decimal>,
    score_2: Option<Decimal>,
    score_3: Option<Decimal>,
    curcuit_break: bool,
    error_time: Option<String>,
    max_invested_amount: Option<Decimal>,
    fund_configs: Option<Vec<FundConfig>>,
) -> (r: AppState)
    requires
        cumulative_return matches Some(v) ==> i64::MIN <= cur.cumulative_return.raw + v.raw
            <= i64::MAX,
        cumulative_dd matches Some(v) ==> i64::MIN <= cur.cumulative_dd.raw + v.raw <= i64::MAX,
    ensures
        r@ == merge_app_state_spec(
            cur@,
            last_execution_time,
            last_equity,
            ave_dd,
            max_dd,
            cumulative_return,
            cumulative_dd,
            score,
            score_2,
            score_3,
            curcuit_break,
            error_time,
            max_invested_amount,
            opt_configs_view(fund_configs),
        ),
{
    let mut item = cur;
    if last_execution_time.is_some() {
        item.last_execution_time = last_execution_time;
    }
    if last_equity.is_some() {
        item.last_equity = last_equity;
    }
    if ave_dd.is_some() {
        item.ave_dd = ave_dd;
    }
    if let Some(max_dd_val) = max_dd {
        let replace = match item.max_dd {
            Some(item_max_dd) => max_dd_val.gt(item_max_dd),
            None => true,
        };
        if replace {
            item.max_dd = Some(max_dd_val);
        }
    }
    if let Some(v) = cumulative_return {
        item.cumulative_return = item.cumulative_return.plus(v);
    }
    if let Some(v) = cumulative_dd {
        item.cumulative_dd = item.cumulative_dd.plus(v);
    }
    if score.is_some() {
        item.score = score;
    }
    if score_2.is_some() {
        item.score_2 = score_2;
    }
    if score_3.is_some() {
        item.score_3 = score_3;
    }
    item.curcuit_break = curcuit_break;
    if let Some(t) = error_time {
        item.error_time.push(t);
    }
    if let Some(m) = max_invested_amount {
        item.max_invested_amount = m;
    }
    if let Some(fc) = fund_configs {
        item.fund_configs = Some(fc);
    }
    item
}

/// Merging the same non-accumulating update twice leaves the state where
/// one merge put it: with the cumulative totals and the error-time log
/// untouched by the update, the second merge changes nothing.
pub proof fn lemma_merge_idempotent_non_accumulator(
    cur: AppStateV,
    last_execution_time: Option<i64>,
    last_equity: Option<Decimal>,
    ave_dd: Option<Decimal>,
    max_dd: Option<Decimal>,
    score: Option<Decimal>,
    score_2: Option<Decimal>,
    score_3: Option<Decimal>,
    curcuit_break: bool,
    max_invested_amount: Option<Decimal>,
    fund_configs: Option<Seq<FundConfig>>,
)
    ensures
        ({
            let once = merge_app_state_spec(
                cur,
                last_execution_time,
                last_equity,
                ave_dd,
                max_dd,
                None,
                None,
                score,
                score_2,
                score_3,
                curcuit_break,
                None,
                max_invested_amount,
                fund_configs,
            );
            merge_app_state_spec(
                once,
                last_execution_time,
                last_equity,
                ave_dd,
                max_dd,
                None,
                None,
                score,
                score_2,
                score_3,
                curcuit_break,
                None,
                max_invested_amount,
                fund_configs,
            ) == once
        }),
{
}

/// Merging an update that supplies the cumulative totals twice adds the
/// supplied amounts twice: the totals accumulate rather than replace.
pub proof fn lemma_merge_accumulates(
    cur: AppStateV,
    last_execution_time: Option<i64>,
    last_equity: Option<Decimal>,
    ave_dd: Option<Decimal>,
    max_dd: Option<Decimal>,
    ret: Decimal,
    dd: Decimal,
    score: Option<Decimal>,
    score_2: Option<Decimal>,
    score_3: Option<Decimal>,
    curcuit_break: bool,
    error_time: Option<String>,
    max_invested_amount: Option<Decimal>,
    fund_configs: Option<Seq<FundConfig>>,
)
    requires
        i64::MIN <= cur.cumulative_return.raw + ret.raw + ret.raw <= i64::MAX,
        i64::MIN <= cur.cumulative_return.raw + ret.raw <= i64::MAX,
        i64::MIN <= cur.cumulative_dd.raw + dd.raw + dd.raw <= i64::MAX,
        i64::MIN <= cur.cumulative_dd.raw + dd.raw <= i64::MAX,
    ensures
        ({
            let once = merge_app_state_spec(
                cur,
                last_execution_time,
                last_equity,
                ave_dd,
                max_dd,
                Some(ret),
                Some(dd),
                score,
                score_2,
                score_3,
                curcuit_break,
                error_time,
                max_invested_amount,
                fund_configs,
            );
            let twice = merge_app_state_spec(
                once,
                last_execution_time,
                last_equity,
                ave_dd,
                max_dd,
                Some(ret),
                Some(dd),
                score,
                score_2,
                score_3,
                curcuit_break,
                error_time,
                max_invested_amount,
                fund_configs,
            );
            twice.cumulative_return.raw == cur.cumulative_return.raw + 2 * ret.raw
                && twice.cumulative_dd.raw == cur.cumulative_dd.raw + 2 * dd.raw
        }),
{
}

/// The stored maximum drawdown never decreases under a merge: a supplied
/// value no greater than the stored one leaves the stored one in place,
/// and a strictly greater one replaces it.
pub proof fn lemma_max_dd_monotonic(
    cur: AppStateV,
    last_execution_time: Option<i64>,
    last_equity: Option<Decimal>,
    ave_dd: Option<Decimal>,
    max_dd: Option<Decimal>,
    cumulative_return: Option<Decimal>,
    cumulative_dd: Option<Decimal>,
    score: Option<Decimal>,
    score_2: Option<Decimal>,
    score_3: Option<Decimal>,
    curcuit_break: bool,
    error_time: Option<String>,
    max_invested_amount: Option<Decimal>,
    fund_configs: Option<Seq<FundConfig>>,
)
    ensures
        ({
            let merged = merge_app_state_spec(
                cur,
                last_execution_time,
                last_equity,
                ave_dd,
                max_dd,
                cumulative_return,
                cumulative_dd,
                score,
                score_2,
                score_3,
                curcuit_break,
                error_time,
                max_invested_amount,
                fund_configs,
            );
            &&& (cur.max_dd is Some ==> merged.max_dd is Some && merged.max_dd->0.raw
                >= cur.max_dd->0.raw)
            &&& (cur.max_dd is Some && max_dd is Some ==> ((max_dd->0.raw <= cur.max_dd->0.raw
                ==> merged.max_dd == cur.max_dd) && (max_dd->0.raw > cur.max_dd->0.raw
                ==> merged.max_dd == max_dd)))
        }),
{
    let merged = merge_app_state_spec(
        cur,
        last_execution_time,
        last_equity,
        ave_dd,
        max_dd,
        cumulative_return,
        cumulative_dd,
        score,
        score_2,
        score_3,
        curcuit_break,
        error_time,
        max_invested_amount,
        fund_configs,
    );
    match cur.max_dd {
        Some(c) => {
            match max_dd {
                Some(v) => {
                    if v.raw > c.raw {
                        assert(merged.max_dd == Some(v));
                    } else {
                        assert(merged.max_dd == Some(c));
                    }
                },
                None => {
                    assert(merged.max_dd == Some(c));
                },
            }
        },
        None => {},
    }
}

impl TransactionLog {
    /// Merge-updates the application state: reads the stored singleton (or
    /// its default), applies the per-field merge policy, and writes the
    /// merged record back as an upsert keyed on the fixed identifier.
    pub fn update_app_state(
        db: &mut Db,
        last_execution_time: Option<i64>,
        last_equity: Option<Decimal>,
        ave_dd: Option<Decimal>,
        max_dd: Option<Decimal>,
        cumulative_return: Option<Decimal>,
        cumulative_dd: Option<Decimal>,
        score: Option<Decimal>,
        score_2: Option<Decimal>,
        score_3: Option<Decimal>,
        curcuit_break: bool,
        error_time: Option<String>,
        max_invested_amount: Option<Decimal>,
        fund_configs: Option<Vec<FundConfig>>,
    ) -> (r: Result<(), DbError>)
        requires
            old(db).wf(),
            cumulative_return matches Some(v) ==> i64::MIN <= current_app_state(
                *old(db),
            ).cumulative_return.raw + v.raw <= i64::MAX,
            cumulative_dd matches Some(v) ==> i64::MIN <= current_app_state(
                *old(db),
            ).cumulative_dd.raw + v.raw <= i64::MAX,
        ensures
            final(db).wf(),
            r is Ok,
            final(db).positions == old(db).positions,
            final(db).prices == old(db).prices,
            final(db).pnls == old(db).pnls,
            final(db).app_states.indexes() == old(db).app_states.indexes(),
            final(db).app_states.state_view() == Some(
                merge_app_state_spec(
                    current_app_state(*old(db)),
                    last_execution_time,
                    last_equity,
                    ave_dd,
                    max_dd,
                    cumulative_return,
                    cumulative_dd,
                    score,
                    score_2,
                    score_3,
                    curcuit_break,
                    error_time,
                    max_invested_amount,
                    opt_configs_view(fund_configs),
                ),
            ),
    {
        let cur = match db.app_states.load() {
            Ok(prev_item) => prev_item,
            Err(_) => AppState::default(),
        };
        let merged = merge_app_state(
            cur,
            last_execution_time,
            last_equity,
            ave_dd,
            max_dd,
            cumulative_return,
            cumulative_dd,
            score,
            score_2,
            score_3,
            curcuit_break,
            error_time,
            max_invested_amount,
            fund_configs,
        );
        db.app_states.upsert(merged)
    }

    /// Copies price records from one database to another: an ascending
    /// scan of the source, capped by the limit, inserted into the target
    /// in order until the first failure.
    pub fn copy_price(db_r: &Db, db_w: &mut Db, limit: Option<u32>)
        requires
            db_r.wf(),
            old(db_w).wf(),
        ensures
            final(db_w).wf(),
            final(db_w).positions == old(db_w).positions,
            final(db_w).pnls == old(db_w).pnls,
            final(db_w).app_states == old(db_w).app_states,
            final(db_w).prices.indexes() == old(db_w).prices.indexes(),
            match scan_spec(db_r.prices.recs(), IdFilter::AnyPositive, SortField::Id, true, limit) {
                Err(_) => final(db_w).prices.recs() == old(db_w).prices.recs(),
                Ok(items) => exists|k: int|
                    0 <= k <= items.len() && final(db_w).prices.recs() == old(db_w).prices.recs()
                        + items.take(k) && (k < items.len() ==> has_conflict(
                        old(db_w).prices.recs() + items.take(k),
                        items[k].id,
                    )),
            },
    {
        let proto = PriceLog::default();
        let items = match db_r.prices.search(&proto, SearchMode::Ascending, limit, None, None) {
            Ok(items) => items,
            Err(_) => {
                return ;
            },
        };
        let ghost fetched = items@;
        proof {
            assert(scan_spec(db_r.prices.recs(), IdFilter::AnyPositive, SortField::Id, true, limit)
                == Ok::<Seq<PriceLog>, DbError>(fetched));
        }
        let mut i: usize = 0;
        proof {
            assert(old(db_w).prices.recs() + fetched.take(0) =~= old(db_w).prices.recs());
        }
        let n = items.len();
        while i < n
            invariant
                n == items.len(),
                i <= n,
                fetched == items@,
                db_w.wf(),
                db_w.positions == old(db_w).positions,
                db_w.pnls == old(db_w).pnls,
                db_w.app_states == old(db_w).app_states,
                db_w.prices.indexes() == old(db_w).prices.indexes(),
                db_w.prices.recs() == old(db_w).prices.recs() + fetched.take(i as int),
                scan_spec(db_r.prices.recs(), IdFilter::AnyPositive, SortField::Id, true, limit)
                    == Ok::<Seq<PriceLog>, DbError>(fetched),
            decreases n - i,
        {
            match insert_item(&mut db_w.prices, items[i].clone()) {
                Ok(_) => {},
                Err(_) => {
                    proof {
                        let sp = scan_spec(
                            db_r.prices.recs(),
                            IdFilter::AnyPositive,
                            SortField::Id,
                            true,
                            limit,
                        );
                        match sp {
                            Ok(spec_items) => {
                                assert(spec_items == fetched);
                                assert(db_w.prices.recs() == old(db_w).prices.recs()
                                    + spec_items.take(i as int));
                                assert(has_conflict(
                                    old(db_w).prices.recs() + spec_items.take(i as int),
                                    spec_items[i as int].id,
                                ));
                            },
                            Err(_) => {
                                assert(false);
                            },
                        }
                    }
                    return ;
                },
            }
            proof {
                assert(old(db_w).prices.recs() + fetched.take(i + 1) =~= (old(db_w).prices.recs()
                    + fetched.take(i as int)).push(fetched[i as int]));
            }
            i = i + 1;
        }
        proof {
            assert(fetched.take(fetched.len() as int) =~= fetched);
        }
    }
}


/// One group of the price market data: every observation recorded under
/// one name and token pair.
#[derive(Debug)]
pub struct PriceGroup {
    pub name: String,
    pub token_name: String,
    pub price_points: Vec<PricePoint>,
}

/// The position of the group with this name and token pair, or -1.
pub open spec fn find_group(
    gs: Seq<(Seq<char>, Seq<char>, Seq<PricePoint>)>,
    name: Seq<char>,
    token: Seq<char>,
) -> int
    decreases gs.len(),
{
    if gs.len() == 0 {
        -1
    } else if gs[0].0 == name && gs[0].1 == token {
        0
    } else {
        let r = find_group(gs.drop_first(), name, token);
        if r == -1 {
            -1
        } else {
            r + 1
        }
    }
}

/// `find_group` returns the position of the first group with the pair,
/// and -1 exactly when no group carries it.
proof fn lemma_find_group_props(
    gs: Seq<(Seq<char>, Seq<char>, Seq<PricePoint>)>,
    name: Seq<char>,
    token: Seq<char>,
)
    ensures
        -1 <= find_group(gs, name, token) < gs.len(),
        find_group(gs, name, token) >= 0 ==> gs[find_group(gs, name, token)].0 == name && gs[
            find_group(gs, name, token)].1 == token,
        find_group(gs, name, token) >= 0 ==> forall|j: int|
            0 <= j < find_group(gs, name, token) ==> !((#[trigger] gs[j]).0 == name && gs[j].1
                == token),
        find_group(gs, name, token) == -1 ==> forall|j: int|
            0 <= j < gs.len() ==> !((#[trigger] gs[j]).0 == name && gs[j].1 == token),
    decreases gs.len(),
{
    if gs.len() == 0 {
    } else if gs[0].0 == name && gs[0].1 == token {
    } else {
        lemma_find_group_props(gs.drop_first(), name, token);
        assert forall|j: int| 1 <= j < gs.len() implies gs[j] == gs.drop_first()[j - 1] by {}
    }
}

/// One record folded into the groups: appended to the group carrying its
/// pair, or opening a fresh group at the end.
pub open spec fn upd_groups(
    gs: Seq<(Seq<char>, Seq<char>, Seq<PricePoint>)>,
    log: PriceLog,
) -> Seq<(Seq<char>, Seq<char>, Seq<PricePoint>)> {
    let i = find_group(gs, log.name@, log.token_name@);
    if i >= 0 {
        gs.update(i, (gs[i].0, gs[i].1, gs[i].2.push(log.price_point)))
    } else {
        gs.push((log.name@, log.token_name@, seq![log.price_point]))
    }
}

/// The records grouped by name and token pair, in first-seen order, each
/// group's points in record order.
pub open spec fn group_logs(items: Seq<PriceLog>) -> Seq<(Seq<char>, Seq<char>, Seq<PricePoint>)>
    decreases items.len(),
{
    if items.len() == 0 {
        Seq::empty()
    } else {
        upd_groups(group_logs(items.drop_last()), items.last())
    }
}

/// The abstract value of a group list.
pub open spec fn groups_view(gs: Seq<PriceGroup>) -> Seq<(Seq<char>, Seq<char>, Seq<PricePoint>)> {
    gs.map_values(|g: PriceGroup| (g.name@, g.token_name@, g.price_points@))
}

/// The price records a market-data request reads: one record by
/// identifier, or an ordered scan capped by the limit; a failed read
/// reads as no records.
pub open spec fn price_fetch_spec(
    recs: Seq<PriceLog>,
    limit: Option<u32>,
    id: Option<u32>,
    is_ascend: bool,
) -> Seq<PriceLog> {
    match id {
        Some(k) => {
            let m = matching(recs, IdFilter::Exact(k));
            if m.len() == 0 {
                Seq::empty()
            } else {
                m
            }
        },
        None => match scan_spec(
            recs,
            IdFilter::AnyPositive,
            SortField::Id,
            if is_ascend {
                true
            } else {
                false
            },
            limit,
        ) {
            Ok(items) => items,
            Err(_) => Seq::empty(),
        },
    }
}

/// The position of the group carrying the pair, scanned in order.
fn find_group_exec(groups: &Vec<PriceGroup>, name: &str, token: &str) -> (r: Option<usize>)
    ensures
        match r {
            Some(i) => i < groups@.len() && find_group(groups_view(groups@), name@, token@) == i,
            None => find_group(groups_view(groups@), name@, token@) == -1,
        },
{
    let ghost gv = groups_view(groups@);
    let mut i: usize = 0;
    while i < groups.len()
        invariant
            i <= groups.len(),
            gv == groups_view(groups@),
            forall|j: int| 0 <= j < i ==> !((#[trigger] gv[j]).0 == name@ && gv[j].1 == token@),
        decreases groups.len() - i,
    {
        if str_eq(groups[i].name.as_str(), name) && str_eq(groups[i].token_name.as_str(), token) {
            proof {
                lemma_find_group_props(gv, name@, token@);
                assert(gv[i as int].0 == name@ && gv[i as int].1 == token@);
                let f = find_group(gv, name@, token@);
                if f < i {
                    assert(!(gv[f].0 == name@ && gv[f].1 == token@));
                }
                if f > i || f == -1 {
                    assert(!(gv[i as int].0 == name@ && gv[i as int].1 == token@));
                }
            }
            return Some(i);
        }
        i = i + 1;
    }
    proof {
        lemma_find_group_props(gv, name@, token@);
        let f = find_group(gv, name@, token@);
        if f >= 0 {
            assert(!(gv[f].0 == name@ && gv[f].1 == token@));
        }
    }
    None
}

/// Groups price records by name and token pair in first-seen order and
/// sorts each group's points ascending by observation time.
pub fn group_price_logs(items: Vec<PriceLog>) -> (r: Vec<PriceGroup>)
    ensures
        ({
            let gs = group_logs(items@);
            r@.len() == gs.len() && forall|g: int|
                0 <= g < gs.len() ==> (#[trigger] r@[g]).name@ == gs[g].0 && r@[g].token_name@
                    == gs[g].1 && r@[g].price_points@ == sort_by_spec(
                    gs[g].2,
                    SortField::PriceTimestamp,
                    true,
                )
        }),
{
    let ghost fetched = items@;
    let mut items = items;
    proof {
        assert(items@ == fetched);
        assert(fetched.take(0) =~= Seq::<PriceLog>::empty());
        assert(group_logs(fetched.take(0)) =~= Seq::<
            (Seq<char>, Seq<char>, Seq<PricePoint>),
        >::empty());
        assert(groups_view(Seq::<PriceGroup>::empty()) =~= Seq::<
            (Seq<char>, Seq<char>, Seq<PricePoint>),
        >::empty());
    }
    let mut groups: Vec<PriceGroup> = Vec::new();
    while items.len() > 0
        invariant
            items.len() <= fetched.len(),
            items@ == fetched.skip(fetched.len() - items.len()),
            groups_view(groups@) == group_logs(fetched.take(fetched.len() - items.len())),
        decreases items.len(),
    {
        let ghost k = fetched.len() - items.len();
        let ghost gv = groups_view(groups@);
        let log = items.remove(0);
        proof {
            assert(log == fetched[k]);
            assert(items@ =~= fetched.skip(k + 1));
        }
        match find_group_exec(&groups, &log.name, &log.token_name) {
            Some(gi) => {
                let mut g = groups.remove(gi);
                g.price_points.push(log.price_point);
                groups.insert(gi, g);
                proof {
                    let fi = find_group(gv, log.name@, log.token_name@);
                    assert(fi == gi);
                    assert(groups_view(groups@) =~= gv.update(
                        gi as int,
                        (gv[gi as int].0, gv[gi as int].1, gv[gi as int].2.push(log.price_point)),
                    ));
                    assert(groups_view(groups@) == upd_groups(gv, log));
                }
            },
            None => {
                let mut pts: Vec<PricePoint> = Vec::new();
                pts.push(log.price_point);
                groups.push(
                    PriceGroup { name: log.name, token_name: log.token_name, price_points: pts },
                );
                proof {
                    assert(groups_view(groups@) =~= gv.push(
                        (fetched[k].name@, fetched[k].token_name@, seq![fetched[k].price_point]),
                    ));
                    assert(groups_view(groups@) == upd_groups(gv, log));
                }
            },
        }
        proof {
            let t = fetched.take(k + 1);
            assert(t.drop_last() =~= fetched.take(k));
            assert(t.last() == fetched[k]);
            assert(group_logs(t) == upd_groups(group_logs(fetched.take(k)), fetched[k]));
        }
    }
    proof {
        assert(fetched.take(fetched.len() as int) =~= fetched);
    }
    let ghost gs = group_logs(fetched);
    let mut gi: usize = 0;
    while gi < groups.len()
        invariant
            gi <= groups.len(),
            groups@.len() == gs.len(),
            forall|j: int|
                gi <= j < gs.len() ==> (#[trigger] groups@[j]).name@ == gs[j].0
                    && groups@[j].token_name@ == gs[j].1 && groups@[j].price_points@ == gs[j].2,
            forall|j: int|
                0 <= j < gi ==> (#[trigger] groups@[j]).name@ == gs[j].0 && groups@[j].token_name@
                    == gs[j].1 && groups@[j].price_points@ == sort_by_spec(
                    gs[j].2,
                    SortField::PriceTimestamp,
                    true,
                ),
        decreases groups.len() - gi,
    {
        let ghost before = groups@;
        let g = groups.remove(gi);
        let sorted_pts = sort_records(g.price_points, SortField::PriceTimestamp, true);
        groups.insert(
            gi,
            PriceGroup { name: g.name, token_name: g.token_name, price_points: sorted_pts },
        );
        proof {
            assert forall|j: int| 0 <= j < gs.len() && j != gi implies groups@[j]
                == before[j] by {}
        }
        gi = gi + 1;
    }
    groups
}

impl TransactionLog {
    /// The price market data: the fetched records grouped by name and
    /// token pair in first-seen order, each group's points sorted
    /// ascending by observation time. A failed read yields no groups.
    pub fn get_price_market_data(
        db: &Db,
        limit: Option<u32>,
        id: Option<u32>,
        is_ascend: bool,
    ) -> (r: Vec<PriceGroup>)
        requires
            db.wf(),
        ensures
            ({
                let gs = group_logs(price_fetch_spec(db.prices.recs(), limit, id, is_ascend));
                r@.len() == gs.len() && forall|g: int|
                    0 <= g < gs.len() ==> (#[trigger] r@[g]).name@ == gs[g].0 && r@[g].token_name@
                        == gs[g].1 && r@[g].price_points@ == sort_by_spec(
                        gs[g].2,
                        SortField::PriceTimestamp,
                        true,
                    )
            }),
    {
        let proto = PriceLog::default();
        let mut items: Vec<PriceLog> = if id.is_some() {
            match search_item(&db.prices, &proto, id, None) {
                Ok(item) => {
                    let ghost m = matching(db.prices.recs(), IdFilter::Exact(id->0));
                    let mut item_vec: Vec<PriceLog> = Vec::new();
                    item_vec.push(item);
                    proof {
                        assert(item_vec@ =~= m);
                    }
                    item_vec
                },
                Err(_) => {
                    proof {
                        let fetched = price_fetch_spec(db.prices.recs(), limit, id, is_ascend);
                        assert(fetched =~= Seq::<PriceLog>::empty());
                        assert(group_logs(fetched) =~= Seq::<
                            (Seq<char>, Seq<char>, Seq<PricePoint>),
                        >::empty());
                    }
                    return Vec::new();
                },
            }
        } else {
            let mode = if is_ascend {
                SearchMode::Ascending
            } else {
                SearchMode::Descending
            };
            match db.prices.search(&proto, mode, limit, None, None) {
                Ok(items) => items,
                Err(_) => {
                    proof {
                        let fetched = price_fetch_spec(db.prices.recs(), limit, id, is_ascend);
                        assert(fetched =~= Seq::<PriceLog>::empty());
                        assert(group_logs(fetched) =~= Seq::<
                            (Seq<char>, Seq<char>, Seq<PricePoint>),
                        >::empty());
                    }
                    return Vec::new();
                },
            }
        };
        let ghost fetched = price_fetch_spec(db.prices.recs(), limit, id, is_ascend);
        proof {
            assert(items@ == fetched);
        }
        group_price_logs(items)
    }
}

} // verus!
