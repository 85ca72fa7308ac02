//! Aggregated financial reporting over energy-market trades.
//!
//! The library folds trade records into per-area, per-market, per-side running
//! totals and answers revenue / cost / volume / gross-profit queries against
//! the accumulated state, with flexible market and area selection. All
//! arithmetic is exact fixed-point decimal arithmetic; monetary results are
//! rounded to two decimal places and volumes to one, once, at the query
//! boundary.

pub mod agg;
pub mod decimal;
pub mod error;
pub mod laws;
pub mod report;
pub mod rounding;
pub mod trade;

pub use decimal::Dec;
pub use error::Error;
pub use report::{Report, ReportBuilder, ReportEntry};
pub use trade::{Area, AreaSelection, CounterPart, Market, MarketSelection, Trade, TradeForReport,
    TradeSide, TradeType};
