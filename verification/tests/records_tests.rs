use debot_db::AppState;
use debot_db::CandlePattern;
use debot_db::Counter;
use debot_db::CounterType;
use debot_db::Decimal;
use debot_db::PositionLog;
use debot_db::PriceLog;
use debot_db::PricePoint;
use debot_db::SampleTerm;
use debot_db::TradingStrategy;
use debot_db::TrendType;
use debot_db::DECIMAL_SCALE;

#[test]
fn decimal_scales_mantissas() {
    assert_eq!(DECIMAL_SCALE, 6);
    assert_eq!(Decimal::new(1, 0).raw, 1_000_000);
    assert_eq!(Decimal::new(105, 0).raw, 105_000_000);
    assert_eq!(Decimal::new(25, 1).raw, 2_500_000);
    assert_eq!(Decimal::new(100, 2), Decimal::new(1, 0));
    assert_eq!(Decimal::new(-3, 0).raw, -3_000_000);
    assert_eq!(Decimal::one(), Decimal::new(1, 0));
    assert_eq!(Decimal::zero().raw, 0);
    assert_eq!(Decimal::new(2, 0).plus(Decimal::new(3, 0)), Decimal::new(5, 0));
    assert!(Decimal::new(3, 0).gt(Decimal::new(2, 0)));
    assert!(!Decimal::new(2, 0).gt(Decimal::new(2, 0)));
}

#[test]
fn sample_terms_have_fixed_codes() {
    assert_eq!(SampleTerm::TradingTerm.to_numeric(), Decimal::new(1, 0));
    assert_eq!(SampleTerm::ShortTerm.to_numeric(), Decimal::new(2, 0));
    assert_eq!(SampleTerm::LongTerm.to_numeric(), Decimal::new(3, 0));
}

#[test]
fn one_hot_encoding_marks_one_slot() {
    let v = CandlePattern::Hammer.to_one_hot();
    assert_eq!(v.len(), 16);
    for (i, d) in v.iter().enumerate() {
        if i == 1 {
            assert_eq!(*d, Decimal::new(1, 0));
        } else {
            assert_eq!(*d, Decimal::zero());
        }
    }
    let none = CandlePattern::NoPattern.to_one_hot();
    assert_eq!(none[0], Decimal::new(1, 0));
    let spinning = CandlePattern::SpinningTop.to_one_hot();
    assert_eq!(spinning[15], Decimal::new(1, 0));
    assert_eq!(spinning[0], Decimal::zero());
}

#[test]
fn trend_type_of_each_strategy() {
    assert_eq!(TradingStrategy::Inago(TrendType::Up).trend_type(), TrendType::Up);
    assert_eq!(
        TradingStrategy::MeanReversion(TrendType::Down).trend_type(),
        TrendType::Down
    );
    assert_eq!(
        TradingStrategy::RandomInago(TrendType::Any).trend_type(),
        TrendType::Any
    );
    assert_eq!(TradingStrategy::MarketMake.trend_type(), TrendType::Any);
    assert_eq!(TradingStrategy::Hybrid.trend_type(), TrendType::Any);
    assert_eq!(TradingStrategy::Rebalance.trend_type(), TrendType::Any);
}

#[test]
fn strategy_equality_is_a_wildcard_match() {
    let up = TrendType::Up;
    let down = TrendType::Down;
    let any = TrendType::Any;
    assert!(TradingStrategy::MarketMake == TradingStrategy::MarketMake);
    assert!(TradingStrategy::Rebalance == TradingStrategy::Rebalance);
    assert!(!(TradingStrategy::MarketMake == TradingStrategy::Rebalance));
    // `Any` matches every trend of the same family.
    assert!(TradingStrategy::Inago(any) == TradingStrategy::Inago(up));
    assert!(TradingStrategy::Inago(down) == TradingStrategy::Inago(any));
    assert!(!(TradingStrategy::Inago(up) == TradingStrategy::Inago(down)));
    assert!(TradingStrategy::MeanReversion(any) == TradingStrategy::MeanReversion(down));
    assert!(TradingStrategy::RandomInago(any) == TradingStrategy::RandomInago(up));
    assert!(TradingStrategy::RandomMeanReversion(down) == TradingStrategy::RandomMeanReversion(any));
    // `Hybrid` matches the directed trends of the two families.
    assert!(TradingStrategy::Hybrid == TradingStrategy::Inago(up));
    assert!(TradingStrategy::Hybrid == TradingStrategy::MeanReversion(down));
    assert!(TradingStrategy::Inago(down) == TradingStrategy::Hybrid);
    assert!(TradingStrategy::Hybrid == TradingStrategy::Hybrid);
    assert!(!(TradingStrategy::Hybrid == TradingStrategy::Inago(any)));
    assert!(!(TradingStrategy::Hybrid == TradingStrategy::MeanReversion(any)));
    assert!(!(TradingStrategy::Hybrid == TradingStrategy::RandomInago(up)));
    assert!(!(TradingStrategy::Hybrid == TradingStrategy::MarketMake));
    // No cross-family match.
    assert!(!(TradingStrategy::Inago(up) == TradingStrategy::MeanReversion(up)));
    assert!(!(TradingStrategy::RandomInago(up) == TradingStrategy::Inago(up)));
}

#[test]
fn price_point_keeps_a_supplied_timestamp() {
    let p = PricePoint::new(
        Decimal::new(100, 0),
        Some(123),
        Some(Decimal::new(7, 0)),
        Some(42),
        None,
        None,
        Some(Decimal::new(99, 0)),
        1_700_000_000,
        "2023-11-14T22:13:20+0000".to_string(),
    );
    assert_eq!(p.timestamp, 123);
    assert_eq!(p.timestamp_str, "2023-11-14T22:13:20+0000");
    assert_eq!(p.price, Decimal::new(100, 0));
    assert_eq!(p.volume, Some(Decimal::new(7, 0)));
    assert_eq!(p.num_trades, Some(42));
    assert_eq!(p.funding_rate, None);
    assert_eq!(p.open_interest, None);
    assert_eq!(p.oracle_price, Some(Decimal::new(99, 0)));
}

#[test]
fn price_point_takes_the_clock_reading_without_a_timestamp() {
    let p = PricePoint::new(
        Decimal::new(1, 0),
        None,
        None,
        None,
        None,
        None,
        None,
        1_700_000_000,
        "2023-11-14T22:13:20+0000".to_string(),
    );
    assert_eq!(p.timestamp, 1_700_000_000);
    assert_eq!(p.timestamp_str, "2023-11-14T22:13:20+0000");
}

#[test]
fn defaults_are_empty_records() {
    let p = PositionLog::default();
    assert_eq!(p.id, None);
    assert_eq!(p.fund_name, "");
    assert_eq!(p.open_timestamp, 0);
    assert_eq!(p.pnl, Decimal::zero());
    assert_eq!(p.debug.input_1, Decimal::zero());
    assert_eq!(p.debug.input_30, CandlePattern::NoPattern);
    assert_eq!(p.debug.output_3, None);
    let pr = PriceLog::default();
    assert_eq!(pr.id, None);
    assert_eq!(pr.name, "");
    assert_eq!(pr.price_point.timestamp, 0);
    let a = AppState::default();
    assert_eq!(a.id, 1);
    assert_eq!(a.cumulative_dd, Decimal::zero());
    assert_eq!(a.fund_configs.map(|v| v.len()), Some(0));
}

#[test]
fn counter_tracks_values_and_bounds() {
    let mut c = Counter::new(Some(6), None, Some(2), 5, 0, 2);
    assert_eq!(c.value(CounterType::Position), 5);
    assert_eq!(c.bound(CounterType::Position), Some(6));
    assert!(c.within_bound(CounterType::Position));
    assert_eq!(c.increment(CounterType::Position), 6);
    assert!(c.within_bound(CounterType::Position));
    assert_eq!(c.increment(CounterType::Position), 7);
    // The bound is advisory: allocation continues, the query reports it.
    assert!(!c.within_bound(CounterType::Position));
    assert!(c.within_bound(CounterType::Price));
    assert!(c.within_bound(CounterType::Pnl));
    assert_eq!(c.value(CounterType::Pnl), 2);
}
