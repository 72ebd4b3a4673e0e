//! Trading-strategy values embedded in fund configuration records.
//!
//! The persistence layer treats these as opaque, serializable values with one
//! behavioural quirk it must preserve: strategy equality is a wildcard match,
//! where the `Any` trend matches every trend of the same strategy family and
//! `Hybrid` matches the directed trends of the `Inago` and `MeanReversion`
//! families.

use vstd::prelude::*;

verus! {

/// Direction of the market trend a strategy follows.
#[derive(Debug, Clone, Copy, Eq, PartialEq, Structural, Hash)]
pub enum TrendType {
    Up,
    Down,
    Any,
}

/// The strategy a fund trades with.
#[derive(Clone, Copy, Debug, Hash)]
pub enum TradingStrategy {
    MarketMake,
    Inago(TrendType),
    MeanReversion(TrendType),
    RandomMarketMake,
    RandomInago(TrendType),
    RandomMeanReversion(TrendType),
    Hybrid,
    Rebalance,
}

/// Whether two trends match under the wildcard rule: `Any` matches
/// everything, the directed trends only themselves.
pub open spec fn trend_matches(a: TrendType, b: TrendType) -> bool {
    a == b || a == TrendType::Any || b == TrendType::Any
}

/// The wildcard-equality rule on strategies: the same family matches when
/// its trends match, and `Hybrid` additionally matches the directed trends
/// of `Inago` and `MeanReversion`.
pub open spec fn strategy_matches(a: TradingStrategy, b: TradingStrategy) -> bool {
    match (a, b) {
        (TradingStrategy::MarketMake, TradingStrategy::MarketMake) => true,
        (TradingStrategy::RandomMarketMake, TradingStrategy::RandomMarketMake) => true,
        (TradingStrategy::Rebalance, TradingStrategy::Rebalance) => true,
        (TradingStrategy::Hybrid, TradingStrategy::Hybrid) => true,
        (TradingStrategy::Hybrid, TradingStrategy::Inago(t)) => t != TrendType::Any,
        (TradingStrategy::Hybrid, TradingStrategy::MeanReversion(t)) => t != TrendType::Any,
        (TradingStrategy::Inago(t), TradingStrategy::Hybrid) => t != TrendType::Any,
        (TradingStrategy::MeanReversion(t), TradingStrategy::Hybrid) => t != TrendType::Any,
        (TradingStrategy::Inago(x), TradingStrategy::Inago(y)) => trend_matches(x, y),
        (TradingStrategy::MeanReversion(x), TradingStrategy::MeanReversion(y)) => trend_matches(
            x,
            y,
        ),
        (TradingStrategy::RandomInago(x), TradingStrategy::RandomInago(y)) => trend_matches(x, y),
        (TradingStrategy::RandomMeanReversion(x), TradingStrategy::RandomMeanReversion(y)) => trend_matches(
            x,
            y,
        ),
        _ => false,
    }
}

/// The trend a strategy follows.
pub open spec fn trend_of(s: TradingStrategy) -> TrendType {
    match s {
        TradingStrategy::Inago(t) => t,
        TradingStrategy::MeanReversion(t) => t,
        TradingStrategy::RandomInago(t) => t,
        TradingStrategy::RandomMeanReversion(t) => t,
        TradingStrategy::Hybrid => TrendType::Any,
        TradingStrategy::Rebalance => TrendType::Any,
        TradingStrategy::MarketMake => TrendType::Any,
        TradingStrategy::RandomMarketMake => TrendType::Any,
    }
}

impl TradingStrategy {
    /// The trend this strategy follows; families without a directed trend
    /// follow `Any`.
    pub fn trend_type(&self) -> (r: TrendType)
        ensures
            r == trend_of(*self),
    {
        match self {
            TradingStrategy::Inago(t) => *t,
            TradingStrategy::MeanReversion(t) => *t,
            TradingStrategy::RandomInago(t) => *t,
            TradingStrategy::RandomMeanReversion(t) => *t,
            TradingStrategy::Hybrid => TrendType::Any,
            TradingStrategy::Rebalance => TrendType::Any,
            TradingStrategy::MarketMake => TrendType::Any,
            TradingStrategy::RandomMarketMake => TrendType::Any,
        }
    }
}

impl PartialEq for TradingStrategy {
    fn eq(&self, other: &Self) -> (r: bool) {
        match (self, other) {
            (TradingStrategy::MarketMake, TradingStrategy::MarketMake) => true,
            (TradingStrategy::RandomMarketMake, TradingStrategy::RandomMarketMake) => true,
            (TradingStrategy::Rebalance, TradingStrategy::Rebalance) => true,
            (TradingStrategy::Hybrid, TradingStrategy::Hybrid) => true,
            (TradingStrategy::Hybrid, TradingStrategy::Inago(t)) => *t != TrendType::Any,
            (TradingStrategy::Hybrid, TradingStrategy::MeanReversion(t)) => *t != TrendType::Any,
            (TradingStrategy::Inago(t), TradingStrategy::Hybrid) => *t != TrendType::Any,
            (TradingStrategy::MeanReversion(t), TradingStrategy::Hybrid) => *t != TrendType::Any,
            (TradingStrategy::Inago(x), TradingStrategy::Inago(y)) => x == y || *x
                == TrendType::Any || *y == TrendType::Any,
            (TradingStrategy::MeanReversion(x), TradingStrategy::MeanReversion(y)) => x == y || *x
                == TrendType::Any || *y == TrendType::Any,
            (TradingStrategy::RandomInago(x), TradingStrategy::RandomInago(y)) => x == y || *x
                == TrendType::Any || *y == TrendType::Any,
            (
                TradingStrategy::RandomMeanReversion(x),
                TradingStrategy::RandomMeanReversion(y),
            ) => x == y || *x == TrendType::Any || *y == TrendType::Any,
            _ => false,
        }
    }
}

impl vstd::std_specs::cmp::PartialEqSpecImpl for TradingStrategy {
    open spec fn obeys_eq_spec() -> bool {
        true
    }

    open spec fn eq_spec(&self, other: &Self) -> bool {
        strategy_matches(*self, *other)
    }
}

} // verus!
