use debot_db::all_collection_indexes;
use debot_db::create_unique_index;
use debot_db::delete_item;
use debot_db::delete_item_all;
use debot_db::insert_item;
use debot_db::search_item;
use debot_db::search_items;
use debot_db::update_item;
use debot_db::Db;
use debot_db::DbError;
use debot_db::Decimal;
use debot_db::PnlLog;
use debot_db::PositionLog;
use debot_db::PriceLog;
use debot_db::SearchMode;
use debot_db::Store;

fn price(id: u32, name: &str, token: &str, price_units: i64, ts: i64) -> PriceLog {
    let mut p = PriceLog::default();
    p.id = Some(id);
    p.name = name.to_string();
    p.token_name = token.to_string();
    p.price_point.price = Decimal::new(price_units, 0);
    p.price_point.timestamp = ts;
    p
}

fn pnl(id: u32, date: &str, amount: i64) -> PnlLog {
    let mut p = PnlLog::default();
    p.id = Some(id);
    p.date = date.to_string();
    p.pnl = Decimal::new(amount, 0);
    p
}

fn position(id: u32, open_ts: i64) -> PositionLog {
    let mut p = PositionLog::default();
    p.id = Some(id);
    p.open_timestamp = open_ts;
    p
}

#[test]
fn duplicate_pnl_id_rejected() {
    let mut s: Store<PnlLog> = Store::new();
    assert!(insert_item(&mut s, pnl(1, "2024-01-01", 10)).is_ok());
    let second = insert_item(&mut s, pnl(1, "2024-01-02", 11));
    assert_eq!(second, Err(DbError::DuplicateKey));
    assert_eq!(s.len(), 1);
}

#[test]
fn duplicate_price_id_rejected() {
    let mut s: Store<PriceLog> = Store::new();
    assert!(insert_item(&mut s, price(3, "ETH", "perp", 100, 1)).is_ok());
    assert_eq!(
        insert_item(&mut s, price(3, "BTC", "perp", 200, 2)),
        Err(DbError::DuplicateKey)
    );
}

#[test]
fn duplicate_position_id_rejected() {
    let mut s: Store<PositionLog> = Store::new();
    assert!(insert_item(&mut s, position(9, 1)).is_ok());
    assert_eq!(insert_item(&mut s, position(9, 2)), Err(DbError::DuplicateKey));
}

#[test]
fn by_id_without_identifier_is_missing_identifier() {
    let mut s: Store<PriceLog> = Store::new();
    assert!(insert_item(&mut s, price(1, "ETH", "perp", 100, 1)).is_ok());
    let proto = PriceLog::default();
    let r = search_items(&s, &proto, SearchMode::ById, None, None, None);
    assert_eq!(r.unwrap_err(), DbError::MissingIdentifier);
}

#[test]
fn by_id_without_match_is_not_found() {
    let mut s: Store<PriceLog> = Store::new();
    assert!(insert_item(&mut s, price(1, "ETH", "perp", 100, 1)).is_ok());
    let proto = PriceLog::default();
    let r = search_items(&s, &proto, SearchMode::ById, None, Some(42), None);
    assert_eq!(r.unwrap_err(), DbError::NotFound);
}

#[test]
fn unknown_sort_key_is_invalid_sort_key() {
    let mut s: Store<PriceLog> = Store::new();
    assert!(insert_item(&mut s, price(1, "ETH", "perp", 100, 1)).is_ok());
    let proto = PriceLog::default();
    let r = search_items(&s, &proto, SearchMode::Ascending, None, None, Some("price"));
    assert_eq!(r.unwrap_err(), DbError::InvalidSortKey);
    // The store is untouched and still answers a well-formed query.
    let ok = search_items(&s, &proto, SearchMode::Ascending, None, None, Some("id"));
    assert_eq!(ok.unwrap().len(), 1);
}

#[test]
fn empty_scan_is_not_found() {
    let s: Store<PriceLog> = Store::new();
    let proto = PriceLog::default();
    let r = search_items(&s, &proto, SearchMode::Ascending, None, None, None);
    assert_eq!(r.unwrap_err(), DbError::NotFound);
}

#[test]
fn scans_order_by_identifier() {
    let mut s: Store<PriceLog> = Store::new();
    assert!(insert_item(&mut s, price(3, "ETH", "perp", 103, 30)).is_ok());
    assert!(insert_item(&mut s, price(1, "ETH", "perp", 101, 10)).is_ok());
    assert!(insert_item(&mut s, price(2, "ETH", "perp", 102, 20)).is_ok());
    let proto = PriceLog::default();
    let up = search_items(&s, &proto, SearchMode::Ascending, None, None, None).unwrap();
    let up_ids: Vec<Option<u32>> = up.iter().map(|p| p.id).collect();
    assert_eq!(up_ids, vec![Some(1), Some(2), Some(3)]);
    let down = search_items(&s, &proto, SearchMode::Descending, None, None, None).unwrap();
    let down_ids: Vec<Option<u32>> = down.iter().map(|p| p.id).collect();
    assert_eq!(down_ids, vec![Some(3), Some(2), Some(1)]);
}

#[test]
fn scans_order_by_timestamp_key() {
    let mut s: Store<PriceLog> = Store::new();
    assert!(insert_item(&mut s, price(1, "ETH", "perp", 101, 50)).is_ok());
    assert!(insert_item(&mut s, price(2, "ETH", "perp", 102, 20)).is_ok());
    let proto = PriceLog::default();
    let up = search_items(
        &s,
        &proto,
        SearchMode::Ascending,
        None,
        None,
        Some("price_point.timestamp"),
    )
    .unwrap();
    let ts: Vec<i64> = up.iter().map(|p| p.price_point.timestamp).collect();
    assert_eq!(ts, vec![20, 50]);
}

#[test]
fn scan_limit_caps_the_result() {
    let mut s: Store<PriceLog> = Store::new();
    for i in 1..=4u32 {
        assert!(insert_item(&mut s, price(i, "ETH", "perp", 100 + i as i64, i as i64)).is_ok());
    }
    let proto = PriceLog::default();
    let two = search_items(&s, &proto, SearchMode::Descending, Some(2), None, None).unwrap();
    let ids: Vec<Option<u32>> = two.iter().map(|p| p.id).collect();
    assert_eq!(ids, vec![Some(4), Some(3)]);
    // A zero limit means no limit, as the underlying store treats it.
    let all = search_items(&s, &proto, SearchMode::Ascending, Some(0), None, None).unwrap();
    assert_eq!(all.len(), 4);
}

#[test]
fn scans_skip_records_without_positive_identifier() {
    let mut s: Store<PriceLog> = Store::new();
    let mut unnumbered = price(1, "ETH", "perp", 100, 1);
    unnumbered.id = None;
    assert!(insert_item(&mut s, unnumbered).is_ok());
    assert!(insert_item(&mut s, price(2, "ETH", "perp", 102, 2)).is_ok());
    let proto = PriceLog::default();
    let found = search_items(&s, &proto, SearchMode::Ascending, None, None, None).unwrap();
    assert_eq!(found.len(), 1);
    assert_eq!(found[0].id, Some(2));
}

#[test]
fn search_item_returns_the_single_record() {
    let mut s: Store<PriceLog> = Store::new();
    assert!(insert_item(&mut s, price(1, "ETH", "perp", 100, 1)).is_ok());
    assert!(insert_item(&mut s, price(2, "BTC", "perp", 200, 2)).is_ok());
    let proto = PriceLog::default();
    let one = search_item(&s, &proto, Some(2), None).unwrap();
    assert_eq!(one.id, Some(2));
    assert_eq!(one.name, "BTC");
}

#[test]
fn update_replaces_by_identifier_or_appends() {
    let mut s: Store<PriceLog> = Store::new();
    assert!(insert_item(&mut s, price(1, "ETH", "perp", 100, 1)).is_ok());
    let mut corrected = price(1, "ETH", "perp", 150, 1);
    corrected.token_name = "perp".to_string();
    assert!(update_item(&mut s, corrected).is_ok());
    assert_eq!(s.len(), 1);
    let proto = PriceLog::default();
    let got = search_item(&s, &proto, Some(1), None).unwrap();
    assert_eq!(got.price_point.price, Decimal::new(150, 0));
    // An upsert of an unknown identifier inserts.
    assert!(update_item(&mut s, price(7, "SOL", "perp", 10, 3)).is_ok());
    assert_eq!(s.len(), 2);
}

#[test]
fn single_delete_is_unsupported_for_these_types() {
    let mut prices: Store<PriceLog> = Store::new();
    assert!(insert_item(&mut prices, price(1, "ETH", "perp", 100, 1)).is_ok());
    assert_eq!(
        delete_item(&mut prices, &price(1, "ETH", "perp", 100, 1)),
        Err(DbError::Unsupported)
    );
    let mut pnls: Store<PnlLog> = Store::new();
    assert_eq!(delete_item(&mut pnls, &pnl(1, "d", 1)), Err(DbError::Unsupported));
    let mut positions: Store<PositionLog> = Store::new();
    assert_eq!(delete_item(&mut positions, &position(1, 1)), Err(DbError::Unsupported));
}

#[test]
fn delete_all_only_where_supported() {
    let mut positions: Store<PositionLog> = Store::new();
    assert!(insert_item(&mut positions, position(1, 1)).is_ok());
    assert!(delete_item_all(&mut positions, &PositionLog::default()).is_ok());
    assert_eq!(positions.len(), 0);
    let mut pnls: Store<PnlLog> = Store::new();
    assert!(insert_item(&mut pnls, pnl(1, "d", 1)).is_ok());
    assert_eq!(
        delete_item_all(&mut pnls, &PnlLog::default()),
        Err(DbError::Unsupported)
    );
    assert_eq!(pnls.len(), 1);
    let mut prices: Store<PriceLog> = Store::new();
    assert_eq!(
        delete_item_all(&mut prices, &PriceLog::default()),
        Err(DbError::Unsupported)
    );
}

#[test]
fn engine_delete_reports_anomaly_without_a_match() {
    let mut s: Store<PriceLog> = Store::new();
    assert!(insert_item(&mut s, price(1, "ETH", "perp", 100, 1)).is_ok());
    let r = s.delete(&price(9, "ETH", "perp", 100, 1));
    assert_eq!(r, Err(DbError::DeleteAnomaly));
    assert!(s.delete(&price(1, "ETH", "perp", 100, 1)).is_ok());
    assert_eq!(s.len(), 0);
}

#[test]
fn pnl_update_is_unsupported() {
    let mut s: Store<PnlLog> = Store::new();
    assert!(insert_item(&mut s, pnl(1, "2024-01-01", 10)).is_ok());
    assert_eq!(update_item(&mut s, pnl(1, "2024-01-02", 11)), Err(DbError::Unsupported));
}

#[test]
fn index_reconciliation_is_idempotent() {
    let mut db = Db::new();
    assert!(create_unique_index(&mut db).is_ok());
    let first = db.positions.list_index_names();
    assert_eq!(
        first,
        vec![
            "id_1".to_string(),
            "open_timestamp_1".to_string(),
            "open_timestamp_-1".to_string(),
            "price_point.timestamp_1".to_string(),
            "price_point.timestamp_-1".to_string(),
        ]
    );
    assert!(create_unique_index(&mut db).is_ok());
    assert_eq!(db.positions.list_index_names(), first);
    assert_eq!(db.prices.list_index_names(), first);
    assert_eq!(db.pnls.list_index_names(), first);
    assert_eq!(db.app_states.list_index_names(), first);
}

#[test]
fn reconciliation_keeps_foreign_indexes() {
    let mut s: Store<PriceLog> = Store::new();
    let declared = all_collection_indexes();
    assert!(s.create_index(&declared[1]).is_ok());
    assert!(s.reconcile_indexes(&declared).is_ok());
    let names = s.list_index_names();
    // The index created beforehand keeps its place; the others follow in
    // declaration order.
    assert_eq!(names[0], "open_timestamp_1");
    assert_eq!(names.len(), 5);
    assert!(s.reconcile_indexes(&declared).is_ok());
    assert_eq!(s.list_index_names(), names);
}

#[test]
fn each_type_declares_its_own_indexes() {
    let mut positions: Store<PositionLog> = Store::new();
    assert!(debot_db::create_indexes(&mut positions).is_ok());
    assert_eq!(
        positions.list_index_names(),
        vec![
            "id_1".to_string(),
            "open_timestamp_1".to_string(),
            "open_timestamp_-1".to_string(),
        ]
    );
    let mut pnls: Store<PnlLog> = Store::new();
    assert!(debot_db::create_indexes(&mut pnls).is_ok());
    assert_eq!(pnls.list_index_names(), vec!["id_1".to_string()]);
    let mut prices: Store<PriceLog> = Store::new();
    assert!(debot_db::create_indexes(&mut prices).is_ok());
    assert_eq!(
        prices.list_index_names(),
        vec![
            "id_1".to_string(),
            "price_point.timestamp_1".to_string(),
            "price_point.timestamp_-1".to_string(),
        ]
    );
    // Running the per-type creation again changes nothing.
    assert!(debot_db::create_indexes(&mut prices).is_ok());
    assert_eq!(prices.list_index_names().len(), 3);
}
