//! Persistence core of an automated trading application.
//!
//! The crate records trade positions, price samples, profit-and-loss entries,
//! a singleton application state, and binary model checkpoints in a
//! document-oriented store, and allocates crash-safe monotonic identifiers
//! for new records. The store semantics (filtering, sorting, pagination,
//! unique-identifier enforcement, index reconciliation) are modelled and
//! verified here; a host process supplies the actual driver and wires it to
//! the same contracts.

mod counter;
mod decimal;
mod errors;
mod model_params;
mod records;
mod store;
mod strategy;
mod transaction_log;

pub use counter::Counter;
pub use counter::CounterType;
pub use decimal::Decimal;
pub use decimal::DECIMAL_SCALE;
pub use errors::DbError;
pub use model_params::CheckpointRecord;
pub use model_params::CheckpointStore;
pub use model_params::decode_model;
pub use model_params::encode_model;
pub use model_params::encode_model_spec;
pub use model_params::find_key;
pub use model_params::ModelParams;
pub use model_params::SerializableModel;
pub use records::app_state_default;
pub use records::AppState;
pub use records::AppStateV;
pub use records::CandlePattern;
pub use records::clone_fund_configs;
pub use records::clone_strings;
pub use records::debug_log_default;
pub use records::DebugLog;
pub use records::FundConfig;
pub use records::pattern_index;
pub use records::PnlLog;
pub use records::PositionLog;
pub use records::price_point_is_default;
pub use records::PriceLog;
pub use records::PricePoint;
pub use records::SampleTerm;
pub use store::add_if_missing;
pub use store::all_collection_indexes;
pub use store::all_collection_indexes_spec;
pub use store::AppStateStore;
pub use store::create_indexes;
pub use store::delete_item;
pub use store::delete_item_all;
pub use store::Entity;
pub use store::find_by_id;
pub use store::has_conflict;
pub use store::id_matches;
pub use store::IdFilter;
pub use store::IndexSpec;
pub use store::IndexSpecV;
pub use store::insert_by;
pub use store::insert_item;
pub use store::key_le;
pub use store::lemma_filter_subset;
pub use store::lemma_insert_by_props;
pub use store::lemma_matching_exact_unique;
pub use store::lemma_reconcile_idempotent;
pub use store::lemma_sort_by_contains;
pub use store::lemma_sort_by_props;
pub use store::matching;
pub use store::OpsSupport;
pub use store::opt_str_view;
pub use store::parse_sort_key;
pub use store::parse_sort_key_spec;
pub use store::pnl_indexes_spec;
pub use store::position_indexes_spec;
pub use store::price_indexes_spec;
pub use store::reconcile_spec;
pub use store::res_matches;
pub use store::scan_spec;
pub use store::search_item;
pub use store::search_items;
pub use store::search_spec;
pub use store::SearchMode;
pub use store::sort_by_spec;
pub use store::sorted_by;
pub use store::SortField;
pub use store::SortKeyed;
pub use store::Store;
pub use store::str_eq;
pub use store::take_count;
pub use store::unique_ids;
pub use store::update_item;
pub use strategy::strategy_matches;
pub use strategy::TradingStrategy;
pub use strategy::trend_matches;
pub use strategy::trend_of;
pub use strategy::TrendType;
pub use transaction_log::all_index_names;
pub use transaction_log::create_unique_index;
pub use transaction_log::current_app_state;
pub use transaction_log::Db;
pub use transaction_log::find_group;
pub use transaction_log::group_logs;
pub use transaction_log::group_price_logs;
pub use transaction_log::groups_view;
pub use transaction_log::lemma_max_dd_monotonic;
pub use transaction_log::lemma_max_pos_id_props;
pub use transaction_log::lemma_merge_accumulates;
pub use transaction_log::lemma_merge_idempotent_non_accumulator;
pub use transaction_log::max_pos_id;
pub use transaction_log::merge_app_state;
pub use transaction_log::merge_app_state_spec;
pub use transaction_log::opt_configs_view;
pub use transaction_log::price_fetch_spec;
pub use transaction_log::PriceGroup;
pub use transaction_log::TransactionLog;
pub use transaction_log::upd_groups;
