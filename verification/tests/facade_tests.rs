use debot_db::insert_item;
use debot_db::CounterType;
use debot_db::Db;
use debot_db::DbError;
use debot_db::Decimal;
use debot_db::PnlLog;
use debot_db::PositionLog;
use debot_db::PriceLog;
use debot_db::TransactionLog;

fn price(id: u32, name: &str, token: &str, price_units: i64, ts: i64) -> PriceLog {
    let mut p = PriceLog::default();
    p.id = Some(id);
    p.name = name.to_string();
    p.token_name = token.to_string();
    p.price_point.price = Decimal::new(price_units, 0);
    p.price_point.timestamp = ts;
    p
}

fn position(id: u32, open_ts: i64) -> PositionLog {
    let mut p = PositionLog::default();
    p.id = Some(id);
    p.open_timestamp = open_ts;
    p
}

fn fresh_log(db: &mut Db) -> TransactionLog {
    TransactionLog::new(None, None, None, db, "read-db", "write-db", false)
}

#[test]
fn counter_recovers_from_persisted_identifiers() {
    let mut db = Db::new();
    for id in [1u32, 2, 5] {
        assert!(insert_item(&mut db.positions, position(id, id as i64)).is_ok());
    }
    let mut log = fresh_log(&mut db);
    assert_eq!(log.increment_counter(CounterType::Position), 6);
    assert_eq!(log.increment_counter(CounterType::Position), 7);
    assert_eq!(log.increment_counter(CounterType::Price), 1);
    assert_eq!(log.increment_counter(CounterType::Pnl), 1);
}

#[test]
fn last_transaction_id_is_zero_on_empty_store() {
    let db = Db::new();
    assert_eq!(TransactionLog::get_last_transaction_id(&db, CounterType::Position), 0);
    assert_eq!(TransactionLog::get_last_transaction_id(&db, CounterType::Price), 0);
    assert_eq!(TransactionLog::get_last_transaction_id(&db, CounterType::Pnl), 0);
}

#[test]
fn facade_keeps_database_names() {
    let mut db = Db::new();
    let log = fresh_log(&mut db);
    assert_eq!(log.r_db_name(), "read-db");
    assert_eq!(log.w_db_name(), "write-db");
}

#[test]
fn backtest_reset_wipes_positions_and_state() {
    let mut db = Db::new();
    assert!(insert_item(&mut db.positions, position(1, 10)).is_ok());
    assert!(TransactionLog::update_app_state(
        &mut db,
        None,
        Some(Decimal::new(5, 0)),
        None,
        None,
        None,
        None,
        None,
        None,
        None,
        false,
        None,
        None,
        None,
    )
    .is_ok());
    let _ = TransactionLog::new(None, None, None, &mut db, "r", "w", true);
    assert!(TransactionLog::get_all_positions(&db).is_empty());
    let state = TransactionLog::get_app_state(&db);
    assert_eq!(state.last_equity, None);
}

#[test]
fn app_state_defaults_before_first_write() {
    let db = Db::new();
    let state = TransactionLog::get_app_state(&db);
    assert_eq!(state.id, 1);
    assert_eq!(state.last_equity, None);
    assert_eq!(state.cumulative_return, Decimal::zero());
    assert_eq!(state.curcuit_break, false);
    assert!(state.error_time.is_empty());
    assert_eq!(state.fund_configs.as_ref().map(|v| v.len()), Some(0));
}

#[test]
fn merge_update_is_idempotent_for_plain_fields() {
    let mut db = Db::new();
    for _ in 0..2 {
        assert!(TransactionLog::update_app_state(
            &mut db,
            Some(1700000000),
            Some(Decimal::new(5, 0)),
            None,
            None,
            None,
            None,
            None,
            None,
            None,
            false,
            None,
            None,
            None,
        )
        .is_ok());
    }
    let state = TransactionLog::get_app_state(&db);
    assert_eq!(state.last_equity, Some(Decimal::new(5, 0)));
    assert_eq!(state.last_execution_time, Some(1700000000));
}

#[test]
fn merge_update_accumulates_cumulative_totals() {
    let mut db = Db::new();
    for _ in 0..2 {
        assert!(TransactionLog::update_app_state(
            &mut db,
            None,
            None,
            None,
            None,
            Some(Decimal::new(10, 0)),
            Some(Decimal::new(3, 0)),
            None,
            None,
            None,
            false,
            None,
            None,
            None,
        )
        .is_ok());
    }
    let state = TransactionLog::get_app_state(&db);
    assert_eq!(state.cumulative_return, Decimal::new(20, 0));
    assert_eq!(state.cumulative_dd, Decimal::new(6, 0));
}

#[test]
fn max_drawdown_only_grows() {
    let mut db = Db::new();
    let set_dd = |db: &mut Db, dd: i64| {
        TransactionLog::update_app_state(
            db,
            None,
            None,
            None,
            Some(Decimal::new(dd, 0)),
            None,
            None,
            None,
            None,
            None,
            false,
            None,
            None,
            None,
        )
    };
    assert!(set_dd(&mut db, 5).is_ok());
    assert!(set_dd(&mut db, 3).is_ok());
    assert_eq!(TransactionLog::get_app_state(&db).max_dd, Some(Decimal::new(5, 0)));
    assert!(set_dd(&mut db, 7).is_ok());
    let state = TransactionLog::get_app_state(&db);
    assert_eq!(state.max_dd, Some(Decimal::new(7, 0)));
    // The singleton keeps its fixed identifier through every merge.
    assert_eq!(state.id, 1);
}

#[test]
fn circuit_breaker_is_always_overwritten_and_errors_append() {
    let mut db = Db::new();
    assert!(TransactionLog::update_app_state(
        &mut db,
        None,
        None,
        None,
        None,
        None,
        None,
        None,
        None,
        None,
        true,
        Some("t1".to_string()),
        None,
        None,
    )
    .is_ok());
    assert!(TransactionLog::update_app_state(
        &mut db,
        None,
        None,
        None,
        None,
        None,
        None,
        None,
        None,
        None,
        false,
        Some("t2".to_string()),
        None,
        None,
    )
    .is_ok());
    let state = TransactionLog::get_app_state(&db);
    assert_eq!(state.curcuit_break, false);
    assert_eq!(state.error_time, vec!["t1".to_string(), "t2".to_string()]);
}

#[test]
fn market_data_groups_and_orders_price_points() {
    let mut db = Db::new();
    // Inserted out of timestamp order on purpose.
    assert!(insert_item(&mut db.prices, price(2, "ETH", "perp", 105, 2)).is_ok());
    assert!(insert_item(&mut db.prices, price(1, "ETH", "perp", 100, 1)).is_ok());
    let groups = TransactionLog::get_price_market_data(&db, None, None, true);
    assert_eq!(groups.len(), 1);
    assert_eq!(groups[0].name, "ETH");
    assert_eq!(groups[0].token_name, "perp");
    let ts: Vec<i64> = groups[0].price_points.iter().map(|p| p.timestamp).collect();
    assert_eq!(ts, vec![1, 2]);
    let prices: Vec<Decimal> = groups[0].price_points.iter().map(|p| p.price).collect();
    assert_eq!(prices, vec![Decimal::new(100, 0), Decimal::new(105, 0)]);
}

#[test]
fn market_data_separates_name_and_token_pairs() {
    let mut db = Db::new();
    assert!(insert_item(&mut db.prices, price(1, "ETH", "perp", 100, 3)).is_ok());
    assert!(insert_item(&mut db.prices, price(2, "BTC", "perp", 200, 1)).is_ok());
    assert!(insert_item(&mut db.prices, price(3, "ETH", "perp", 101, 2)).is_ok());
    let groups = TransactionLog::get_price_market_data(&db, None, None, true);
    assert_eq!(groups.len(), 2);
    assert_eq!(groups[0].name, "ETH");
    assert_eq!(groups[0].price_points.len(), 2);
    let eth_ts: Vec<i64> = groups[0].price_points.iter().map(|p| p.timestamp).collect();
    assert_eq!(eth_ts, vec![2, 3]);
    assert_eq!(groups[1].name, "BTC");
    assert_eq!(groups[1].price_points.len(), 1);
}

#[test]
fn market_data_by_identifier_reads_one_record() {
    let mut db = Db::new();
    assert!(insert_item(&mut db.prices, price(1, "ETH", "perp", 100, 1)).is_ok());
    assert!(insert_item(&mut db.prices, price(2, "BTC", "perp", 200, 2)).is_ok());
    let groups = TransactionLog::get_price_market_data(&db, None, Some(2), true);
    assert_eq!(groups.len(), 1);
    assert_eq!(groups[0].name, "BTC");
    let none = TransactionLog::get_price_market_data(&db, None, Some(9), true);
    assert!(none.is_empty());
}

#[test]
fn copy_price_moves_records_in_order() {
    let mut db_r = Db::new();
    assert!(insert_item(&mut db_r.prices, price(2, "ETH", "perp", 105, 2)).is_ok());
    assert!(insert_item(&mut db_r.prices, price(1, "ETH", "perp", 100, 1)).is_ok());
    let mut db_w = Db::new();
    TransactionLog::copy_price(&db_r, &mut db_w, None);
    assert_eq!(db_w.prices.len(), 2);
    let groups = TransactionLog::get_price_market_data(&db_w, None, None, true);
    assert_eq!(groups[0].price_points.len(), 2);
}

#[test]
fn copy_price_stops_at_the_first_duplicate() {
    let mut db_r = Db::new();
    assert!(insert_item(&mut db_r.prices, price(1, "ETH", "perp", 100, 1)).is_ok());
    assert!(insert_item(&mut db_r.prices, price(2, "ETH", "perp", 105, 2)).is_ok());
    let mut db_w = Db::new();
    assert!(insert_item(&mut db_w.prices, price(1, "ETH", "perp", 99, 1)).is_ok());
    TransactionLog::copy_price(&db_r, &mut db_w, None);
    // The first copied record already exists, so nothing is copied.
    assert_eq!(db_w.prices.len(), 1);
}

#[test]
fn update_transaction_and_update_price_upsert() {
    let mut db = Db::new();
    assert!(TransactionLog::update_transaction(&mut db, &position(1, 5)).is_ok());
    let mut closed = position(1, 5);
    closed.state = "closed".to_string();
    assert!(TransactionLog::update_transaction(&mut db, &closed).is_ok());
    let all = TransactionLog::get_all_positions(&db);
    assert_eq!(all.len(), 1);
    assert_eq!(all[0].state, "closed");
    assert!(TransactionLog::update_price(&mut db, price(1, "ETH", "perp", 100, 1)).is_ok());
    assert_eq!(db.prices.len(), 1);
}

#[test]
fn get_all_positions_orders_by_identifier() {
    let mut db = Db::new();
    assert!(insert_item(&mut db.positions, position(2, 20)).is_ok());
    assert!(insert_item(&mut db.positions, position(1, 10)).is_ok());
    let all = TransactionLog::get_all_positions(&db);
    let ids: Vec<Option<u32>> = all.iter().map(|p| p.id).collect();
    assert_eq!(ids, vec![Some(1), Some(2)]);
}

#[test]
fn insert_pnl_rejects_duplicate_identifier() {
    let mut db = Db::new();
    let mut entry = PnlLog::default();
    entry.id = Some(1);
    entry.date = "2024-01-01".to_string();
    entry.pnl = Decimal::new(12, 0);
    assert!(TransactionLog::insert_pnl(&mut db, entry).is_ok());
    let mut again = PnlLog::default();
    again.id = Some(1);
    again.date = "2024-01-02".to_string();
    assert_eq!(
        TransactionLog::insert_pnl(&mut db, again),
        Err(DbError::DuplicateKey)
    );
}
