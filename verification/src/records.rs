//! The persisted record types.
//!
//! Plain data: positions, price samples, profit-and-loss entries, the
//! singleton application state, and the fund configuration embedded in it.
//! `Clone` and `Default` are written by hand so that their results are
//! pinned by contracts.

use vstd::prelude::*;

use crate::decimal::Decimal;
use crate::strategy::TradingStrategy;

verus! {

/// The sampling horizon a configuration parameter refers to.
#[derive(Clone, Copy, Debug)]
pub enum SampleTerm {
    TradingTerm,
    ShortTerm,
    LongTerm,
}

impl SampleTerm {
    /// The numeric code of this horizon: trading 1, short 2, long 3.
    pub fn to_numeric(&self) -> (r: Decimal)
        ensures
            r.raw == match *self {
                SampleTerm::TradingTerm => 1000000int,
                SampleTerm::ShortTerm => 2000000int,
                SampleTerm::LongTerm => 3000000int,
            },
    {
        match self {
            SampleTerm::TradingTerm => Decimal { raw: 1000000 },
            SampleTerm::ShortTerm => Decimal { raw: 2000000 },
            SampleTerm::LongTerm => Decimal { raw: 3000000 },
        }
    }
}

/// Per-fund trading configuration, embedded in the application state.
#[derive(Debug)]
pub struct FundConfig {
    pub token: String,
    pub trading_strategy: TradingStrategy,
    pub amount_per_strategy: Decimal,
    pub risk_reward: Decimal,
    pub take_profit_ratio: Option<Decimal>,
    pub atr_spread: Option<Decimal>,
    pub atr_term: SampleTerm,
    pub open_hours: i64,
}

impl Clone for FundConfig {
    fn clone(&self) -> (r: Self)
        ensures
            r == *self,
    {
        FundConfig {
            token: self.token.clone(),
            trading_strategy: self.trading_strategy,
            amount_per_strategy: self.amount_per_strategy,
            risk_reward: self.risk_reward,
            take_profit_ratio: self.take_profit_ratio,
            atr_spread: self.atr_spread,
            atr_term: self.atr_term,
            open_hours: self.open_hours,
        }
    }
}

/// Clones every string of `v`, preserving the sequence of values.
pub fn clone_strings(v: &Vec<String>) -> (r: Vec<String>)
    ensures
        r@ == v@,
{
    let mut r: Vec<String> = Vec::new();
    let mut i: usize = 0;
    while i < v.len()
        invariant
            i <= v.len(),
            r@ == v@.take(i as int),
        decreases v.len() - i,
    {
        r.push(v[i].clone());
        proof {
            assert(r@ =~= v@.take(i + 1));
        }
        i = i + 1;
    }
    proof {
        assert(v@.take(v@.len() as int) =~= v@);
    }
    r
}

/// Clones every fund configuration of `v`, preserving the sequence of values.
pub fn clone_fund_configs(v: &Vec<FundConfig>) -> (r: Vec<FundConfig>)
    ensures
        r@ == v@,
{
    let mut r: Vec<FundConfig> = Vec::new();
    let mut i: usize = 0;
    while i < v.len()
        invariant
            i <= v.len(),
            r@ == v@.take(i as int),
        decreases v.len() - i,
    {
        r.push(v[i].clone());
        proof {
            assert(r@ =~= v@.take(i + 1));
        }
        i = i + 1;
    }
    proof {
        assert(v@.take(v@.len() as int) =~= v@);
    }
    r
}

/// Abstract value of the application state: vectors become sequences.
pub struct AppStateV {
    pub id: u32,
    pub last_execution_time: Option<i64>,
    pub last_equity: Option<Decimal>,
    pub ave_dd: Option<Decimal>,
    pub max_dd: Option<Decimal>,
    pub cumulative_return: Decimal,
    pub cumulative_dd: Decimal,
    pub score: Option<Decimal>,
    pub score_2: Option<Decimal>,
    pub score_3: Option<Decimal>,
    pub curcuit_break: bool,
    pub error_time: Seq<String>,
    pub max_invested_amount: Decimal,
    pub fund_configs: Option<Seq<FundConfig>>,
}

/// The default application state: identifier 1, no history, zero totals,
/// circuit breaker off, and an empty (but present) fund-configuration list.
pub open spec fn app_state_default() -> AppStateV {
    AppStateV {
        id: 1,
        last_execution_time: None,
        last_equity: None,
        ave_dd: None,
        max_dd: None,
        cumulative_return: Decimal { raw: 0 },
        cumulative_dd: Decimal { raw: 0 },
        score: None,
        score_2: None,
        score_3: None,
        curcuit_break: false,
        error_time: Seq::empty(),
        max_invested_amount: Decimal { raw: 0 },
        fund_configs: Some(Seq::empty()),
    }
}

/// The singleton mutable state of the application, stored under the fixed
/// identifier 1 and changed only through merge-updates.
#[derive(Debug)]
pub struct AppState {
    pub id: u32,
    pub last_execution_time: Option<i64>,
    pub last_equity: Option<Decimal>,
    pub ave_dd: Option<Decimal>,
    pub max_dd: Option<Decimal>,
    pub cumulative_return: Decimal,
    pub cumulative_dd: Decimal,
    pub score: Option<Decimal>,
    pub score_2: Option<Decimal>,
    pub score_3: Option<Decimal>,
    pub curcuit_break: bool,
    pub error_time: Vec<String>,
    pub max_invested_amount: Decimal,
    pub fund_configs: Option<Vec<FundConfig>>,
}

impl View for AppState {
    type V = AppStateV;

    open spec fn view(&self) -> AppStateV {
        AppStateV {
            id: self.id,
            last_execution_time: self.last_execution_time,
            last_equity: self.last_equity,
            ave_dd: self.ave_dd,
            max_dd: self.max_dd,
            cumulative_return: self.cumulative_return,
            cumulative_dd: self.cumulative_dd,
            score: self.score,
            score_2: self.score_2,
            score_3: self.score_3,
            curcuit_break: self.curcuit_break,
            error_time: self.error_time@,
            max_invested_amount: self.max_invested_amount,
            fund_configs: match self.fund_configs {
                Some(v) => Some(v@),
                None => None,
            },
        }
    }
}

impl Clone for AppState {
    fn clone(&self) -> (r: Self)
        ensures
            r@ == self@,
    {
        AppState {
            id: self.id,
            last_execution_time: self.last_execution_time,
            last_equity: self.last_equity,
            ave_dd: self.ave_dd,
            max_dd: self.max_dd,
            cumulative_return: self.cumulative_return,
            cumulative_dd: self.cumulative_dd,
            score: self.score,
            score_2: self.score_2,
            score_3: self.score_3,
            curcuit_break: self.curcuit_break,
            error_time: clone_strings(&self.error_time),
            max_invested_amount: self.max_invested_amount,
            fund_configs: match &self.fund_configs {
                Some(v) => Some(clone_fund_configs(v)),
                None => None,
            },
        }
    }
}

impl Default for AppState {
    fn default() -> (r: Self)
        ensures
            r@ == app_state_default(),
    {
        let r = AppState {
            id: 1,
            last_execution_time: None,
            last_equity: None,
            ave_dd: None,
            max_dd: None,
            cumulative_return: Decimal { raw: 0 },
            cumulative_dd: Decimal { raw: 0 },
            score: None,
            score_2: None,
            score_3: None,
            curcuit_break: false,
            error_time: Vec::new(),
            max_invested_amount: Decimal { raw: 0 },
            fund_configs: Some(Vec::new()),
        };
        proof {
            assert(r@ =~= app_state_default());
        }
        r
    }
}

/// A dated profit-and-loss entry; insert-only.
#[derive(Debug)]
pub struct PnlLog {
    pub id: Option<u32>,
    pub date: String,
    pub pnl: Decimal,
}

impl Clone for PnlLog {
    fn clone(&self) -> (r: Self)
        ensures
            r == *self,
    {
        PnlLog { id: self.id, date: self.date.clone(), pnl: self.pnl }
    }
}

impl Default for PnlLog {
    fn default() -> (r: Self)
        ensures
            r.id == None::<u32>,
            r.date@ == Seq::<char>::empty(),
            r.pnl.raw == 0,
    {
        PnlLog { id: None, date: String::new(), pnl: Decimal { raw: 0 } }
    }
}

/// Whether a price point carries the default field values.
pub open spec fn price_point_is_default(p: PricePoint) -> bool {
    &&& p.timestamp == 0
    &&& p.timestamp_str@ == Seq::<char>::empty()
    &&& p.price.raw == 0
    &&& p.volume == None::<Decimal>
    &&& p.num_trades == None::<u64>
    &&& p.funding_rate == None::<Decimal>
    &&& p.open_interest == None::<Decimal>
    &&& p.oracle_price == None::<Decimal>
}

/// One market observation: timestamp, price and optional depth figures.
#[derive(Debug)]
pub struct PricePoint {
    pub timestamp: i64,
    pub timestamp_str: String,
    pub price: Decimal,
    pub volume: Option<Decimal>,
    pub num_trades: Option<u64>,
    pub funding_rate: Option<Decimal>,
    pub open_interest: Option<Decimal>,
    pub oracle_price: Option<Decimal>,
}

impl Clone for PricePoint {
    fn clone(&self) -> (r: Self)
        ensures
            r == *self,
    {
        PricePoint {
            timestamp: self.timestamp,
            timestamp_str: self.timestamp_str.clone(),
            price: self.price,
            volume: self.volume,
            num_trades: self.num_trades,
            funding_rate: self.funding_rate,
            open_interest: self.open_interest,
            oracle_price: self.oracle_price,
        }
    }
}

impl Default for PricePoint {
    fn default() -> (r: Self)
        ensures
            price_point_is_default(r),
    {
        PricePoint {
            timestamp: 0,
            timestamp_str: String::new(),
            price: Decimal { raw: 0 },
            volume: None,
            num_trades: None,
            funding_rate: None,
            open_interest: None,
            oracle_price: None,
        }
    }
}

impl PricePoint {
    /// A new observation. The host supplies the local clock reading (its
    /// timestamp and formatted text); a supplied `timestamp` is recorded
    /// as given, otherwise the clock timestamp is, and the clock's
    /// formatted text is kept either way.
    pub fn new(
        price: Decimal,
        timestamp: Option<i64>,
        volume: Option<Decimal>,
        num_trades: Option<u64>,
        funding_rate: Option<Decimal>,
        open_interest: Option<Decimal>,
        oracle_price: Option<Decimal>,
        local_timestamp: i64,
        timestamp_str: String,
    ) -> (r: Self)
        ensures
            r.price == price,
            r.volume == volume,
            r.num_trades == num_trades,
            r.funding_rate == funding_rate,
            r.open_interest == open_interest,
            r.oracle_price == oracle_price,
            r.timestamp == match timestamp {
                Some(t) => t,
                None => local_timestamp,
            },
            r.timestamp_str@ == timestamp_str@,
    {
        let ts = match timestamp {
            Some(t) => t,
            None => local_timestamp,
        };
        PricePoint {
            timestamp: ts,
            timestamp_str,
            price,
            volume,
            num_trades,
            funding_rate,
            open_interest,
            oracle_price,
        }
    }
}

/// A named price record holding one `PricePoint`.
#[derive(Debug)]
pub struct PriceLog {
    pub id: Option<u32>,
    pub name: String,
    pub token_name: String,
    pub price_point: PricePoint,
}

impl Clone for PriceLog {
    fn clone(&self) -> (r: Self)
        ensures
            r == *self,
    {
        PriceLog {
            id: self.id,
            name: self.name.clone(),
            token_name: self.token_name.clone(),
            price_point: self.price_point.clone(),
        }
    }
}

impl Default for PriceLog {
    fn default() -> (r: Self)
        ensures
            r.id == None::<u32>,
            r.name@ == Seq::<char>::empty(),
            r.token_name@ == Seq::<char>::empty(),
            price_point_is_default(r.price_point),
    {
        PriceLog {
            id: None,
            name: String::new(),
            token_name: String::new(),
            price_point: PricePoint::default(),
        }
    }
}

/// The candlestick pattern a debug feature slot records.
#[derive(Debug, Clone, Copy, PartialEq, Eq, Structural)]
pub enum CandlePattern {
    NoPattern,
    Hammer,
    InvertedHammer,
    BullishEngulfing,
    BearishEngulfing,
    Doji,
    Marubozu,
    MorningStar,
    EveningStar,
    ThreeWhiteSoldiers,
    ThreeBlackCrows,
    PiercingPattern,
    DarkCloudCover,
    Harami,
    HaramiCross,
    SpinningTop,
}

/// The position of a pattern in its one-hot encoding.
pub open spec fn pattern_index(p: CandlePattern) -> int {
    match p {
        CandlePattern::NoPattern => 0,
        CandlePattern::Hammer => 1,
        CandlePattern::InvertedHammer => 2,
        CandlePattern::BullishEngulfing => 3,
        CandlePattern::BearishEngulfing => 4,
        CandlePattern::Doji => 5,
        CandlePattern::Marubozu => 6,
        CandlePattern::MorningStar => 7,
        CandlePattern::EveningStar => 8,
        CandlePattern::ThreeWhiteSoldiers => 9,
        CandlePattern::ThreeBlackCrows => 10,
        CandlePattern::PiercingPattern => 11,
        CandlePattern::DarkCloudCover => 12,
        CandlePattern::Harami => 13,
        CandlePattern::HaramiCross => 14,
        CandlePattern::SpinningTop => 15,
    }
}

impl Default for CandlePattern {
    fn default() -> (r: Self)
        ensures
            r == CandlePattern::NoPattern,
    {
        CandlePattern::NoPattern
    }
}

impl CandlePattern {
    /// The index of this pattern in its one-hot encoding.
    fn one_hot_slot(&self) -> (r: usize)
        ensures
            r == pattern_index(*self),
    {
        match self {
            CandlePattern::NoPattern => 0,
            CandlePattern::Hammer => 1,
            CandlePattern::InvertedHammer => 2,
            CandlePattern::BullishEngulfing => 3,
            CandlePattern::BearishEngulfing => 4,
            CandlePattern::Doji => 5,
            CandlePattern::Marubozu => 6,
            CandlePattern::MorningStar => 7,
            CandlePattern::EveningStar => 8,
            CandlePattern::ThreeWhiteSoldiers => 9,
            CandlePattern::ThreeBlackCrows => 10,
            CandlePattern::PiercingPattern => 11,
            CandlePattern::DarkCloudCover => 12,
            CandlePattern::Harami => 13,
            CandlePattern::HaramiCross => 14,
            CandlePattern::SpinningTop => 15,
        }
    }

    /// The one-hot encoding of this pattern over the sixteen slots: one at
    /// the pattern's slot, zero everywhere else.
    pub fn to_one_hot(&self) -> (r: Vec<Decimal>)
        ensures
            r@.len() == 16,
            forall|i: int|
                0 <= i < 16 ==> (#[trigger] r@[i].raw) == if i == pattern_index(*self) {
                    1000000int
                } else {
                    0int
                },
    {
        let slot = self.one_hot_slot();
        let mut r: Vec<Decimal> = Vec::new();
        let mut i: usize = 0;
        while i < 16
            invariant
                i <= 16,
                r@.len() == i,
                slot == pattern_index(*self),
                forall|j: int|
                    0 <= j < i ==> (#[trigger] r@[j].raw) == if j == pattern_index(*self) {
                        1000000int
                    } else {
                        0int
                    },
            decreases 16 - i,
        {
            if i == slot {
                r.push(Decimal { raw: 1000000 });
            } else {
                r.push(Decimal { raw: 0 });
            }
            i = i + 1;
        }
        r
    }
}

/// The default debug feature vector: every amount zero, every pattern slot
/// empty, every optional output absent.
pub open spec fn debug_log_default() -> DebugLog {
    DebugLog {
        input_1: Decimal { raw: 0 },
        input_2: Decimal { raw: 0 },
        input_3: Decimal { raw: 0 },
        input_4: Decimal { raw: 0 },
        input_5: Decimal { raw: 0 },
        input_6: Decimal { raw: 0 },
        input_7: Decimal { raw: 0 },
        input_8: Decimal { raw: 0 },
        input_9: Decimal { raw: 0 },
        input_10: Decimal { raw: 0 },
        input_11: Decimal { raw: 0 },
        input_12: Decimal { raw: 0 },
        input_13: Decimal { raw: 0 },
        input_14: Decimal { raw: 0 },
        input_15: Decimal { raw: 0 },
        input_16: Decimal { raw: 0 },
        input_17: Decimal { raw: 0 },
        input_18: Decimal { raw: 0 },
        input_19: Decimal { raw: 0 },
        input_20: Decimal { raw: 0 },
        input_21: Decimal { raw: 0 },
        input_22: Decimal { raw: 0 },
        input_23: Decimal { raw: 0 },
        input_24: Decimal { raw: 0 },
        input_25: Decimal { raw: 0 },
        input_26: Decimal { raw: 0 },
        input_27: Decimal { raw: 0 },
        input_28: Decimal { raw: 0 },
        input_29: Decimal { raw: 0 },
        input_30: CandlePattern::NoPattern,
        input_31: CandlePattern::NoPattern,
        input_32: CandlePattern::NoPattern,
        input_33: CandlePattern::NoPattern,
        input_34: CandlePattern::NoPattern,
        input_35: CandlePattern::NoPattern,
        input_36: CandlePattern::NoPattern,
        input_37: CandlePattern::NoPattern,
        input_38: CandlePattern::NoPattern,
        input_39: CandlePattern::NoPattern,
        output_1: Decimal { raw: 0 },
        output_2: Decimal { raw: 0 },
        output_3: None,
        output_4: None,
        output_5: None,
    }
}

/// The feature vector recorded with a position for offline debugging.
#[derive(Debug, Clone, Copy)]
pub struct DebugLog {
    pub input_1: Decimal,
    pub input_2: Decimal,
    pub input_3: Decimal,
    pub input_4: Decimal,
    pub input_5: Decimal,
    pub input_6: Decimal,
    pub input_7: Decimal,
    pub input_8: Decimal,
    pub input_9: Decimal,
    pub input_10: Decimal,
    pub input_11: Decimal,
    pub input_12: Decimal,
    pub input_13: Decimal,
    pub input_14: Decimal,
    pub input_15: Decimal,
    pub input_16: Decimal,
    pub input_17: Decimal,
    pub input_18: Decimal,
    pub input_19: Decimal,
    pub input_20: Decimal,
    pub input_21: Decimal,
    pub input_22: Decimal,
    pub input_23: Decimal,
    pub input_24: Decimal,
    pub input_25: Decimal,
    pub input_26: Decimal,
    pub input_27: Decimal,
    pub input_28: Decimal,
    pub input_29: Decimal,
    pub input_30: CandlePattern,
    pub input_31: CandlePattern,
    pub input_32: CandlePattern,
    pub input_33: CandlePattern,
    pub input_34: CandlePattern,
    pub input_35: CandlePattern,
    pub input_36: CandlePattern,
    pub input_37: CandlePattern,
    pub input_38: CandlePattern,
    pub input_39: CandlePattern,
    pub output_1: Decimal,
    pub output_2: Decimal,
    pub output_3: Option<Decimal>,
    pub output_4: Option<Decimal>,
    pub output_5: Option<Decimal>,
}

impl Default for DebugLog {
    fn default() -> (r: Self)
        ensures
            r == debug_log_default(),
    {
        DebugLog {
            input_1: Decimal { raw: 0 },
            input_2: Decimal { raw: 0 },
            input_3: Decimal { raw: 0 },
            input_4: Decimal { raw: 0 },
            input_5: Decimal { raw: 0 },
            input_6: Decimal { raw: 0 },
            input_7: Decimal { raw: 0 },
            input_8: Decimal { raw: 0 },
            input_9: Decimal { raw: 0 },
            input_10: Decimal { raw: 0 },
            input_11: Decimal { raw: 0 },
            input_12: Decimal { raw: 0 },
            input_13: Decimal { raw: 0 },
            input_14: Decimal { raw: 0 },
            input_15: Decimal { raw: 0 },
            input_16: Decimal { raw: 0 },
            input_17: Decimal { raw: 0 },
            input_18: Decimal { raw: 0 },
            input_19: Decimal { raw: 0 },
            input_20: Decimal { raw: 0 },
            input_21: Decimal { raw: 0 },
            input_22: Decimal { raw: 0 },
            input_23: Decimal { raw: 0 },
            input_24: Decimal { raw: 0 },
            input_25: Decimal { raw: 0 },
            input_26: Decimal { raw: 0 },
            input_27: Decimal { raw: 0 },
            input_28: Decimal { raw: 0 },
            input_29: Decimal { raw: 0 },
            input_30: CandlePattern::NoPattern,
            input_31: CandlePattern::NoPattern,
            input_32: CandlePattern::NoPattern,
            input_33: CandlePattern::NoPattern,
            input_34: CandlePattern::NoPattern,
            input_35: CandlePattern::NoPattern,
            input_36: CandlePattern::NoPattern,
            input_37: CandlePattern::NoPattern,
            input_38: CandlePattern::NoPattern,
            input_39: CandlePattern::NoPattern,
            output_1: Decimal { raw: 0 },
            output_2: Decimal { raw: 0 },
            output_3: None,
            output_4: None,
            output_5: None,
        }
    }
}

/// One trade position from order to close, with its debug feature vector.
#[derive(Debug)]
pub struct PositionLog {
    pub id: Option<u32>,
    pub fund_name: String,
    pub order_id: String,
    pub ordered_price: Decimal,
    pub state: String,
    pub token_name: String,
    pub open_time_str: String,
    pub open_timestamp: i64,
    pub close_time_str: String,
    pub average_open_price: Decimal,
    pub position_type: String,
    pub close_price: Decimal,
    pub asset_in_usd: Decimal,
    pub pnl: Decimal,
    pub fee: Decimal,
    pub debug: DebugLog,
}

impl Clone for PositionLog {
    fn clone(&self) -> (r: Self)
        ensures
            r == *self,
    {
        PositionLog {
            id: self.id,
            fund_name: self.fund_name.clone(),
            order_id: self.order_id.clone(),
            ordered_price: self.ordered_price,
            state: self.state.clone(),
            token_name: self.token_name.clone(),
            open_time_str: self.open_time_str.clone(),
            open_timestamp: self.open_timestamp,
            close_time_str: self.close_time_str.clone(),
            average_open_price: self.average_open_price,
            position_type: self.position_type.clone(),
            close_price: self.close_price,
            asset_in_usd: self.asset_in_usd,
            pnl: self.pnl,
            fee: self.fee,
            debug: self.debug,
        }
    }
}

impl Default for PositionLog {
    fn default() -> (r: Self)
        ensures
            r.id == None::<u32>,
            r.fund_name@ == Seq::<char>::empty(),
            r.order_id@ == Seq::<char>::empty(),
            r.ordered_price.raw == 0,
            r.state@ == Seq::<char>::empty(),
            r.token_name@ == Seq::<char>::empty(),
            r.open_time_str@ == Seq::<char>::empty(),
            r.open_timestamp == 0,
            r.close_time_str@ == Seq::<char>::empty(),
            r.average_open_price.raw == 0,
            r.position_type@ == Seq::<char>::empty(),
            r.close_price.raw == 0,
            r.asset_in_usd.raw == 0,
            r.pnl.raw == 0,
            r.fee.raw == 0,
            r.debug == debug_log_default(),
    {
        PositionLog {
            id: None,
            fund_name: String::new(),
            order_id: String::new(),
            ordered_price: Decimal { raw: 0 },
            state: String::new(),
            token_name: String::new(),
            open_time_str: String::new(),
            open_timestamp: 0,
            close_time_str: String::new(),
            average_open_price: Decimal { raw: 0 },
            position_type: String::new(),
            close_price: Decimal { raw: 0 },
            asset_in_usd: Decimal { raw: 0 },
            pnl: Decimal { raw: 0 },
            fee: Decimal { raw: 0 },
            debug: DebugLog::default(),
        }
    }
}

} // verus!
