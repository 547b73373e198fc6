//! Control plane of a multi-market trading engine for a perpetual-futures
//! exchange: indicator trackers and signals, the position state machine, the
//! margin book and the fleet supervisor's bookkeeping. Amounts are
//! fixed-point integers (see `units::SCALE`).

pub mod bot;
pub mod decimal;
pub mod engine;
pub mod error;
pub mod exchange;
pub mod executor;
pub mod fills;
pub mod frontend;
pub mod history;
pub mod keyed;
pub mod margin;
pub mod market;
pub mod signal;
pub mod strategy;
pub mod timeframe;
pub mod trade;
pub mod types;
pub mod units;

pub use bot::{AddOutcome, Bot};
pub use engine::SignalEngine;
pub use error::Error;
pub use executor::{ExecAction, Executor};
pub use frontend::{AddMarketInfo, BotEvent, BotToMarket, EditMarketInfo, UpdateFrontend};
pub use history::MAX_HISTORY;
pub use margin::{AssetMargin, MarginAllocation, MarginBook};
pub use market::{AssetMeta, AssetPrice, Market, MarketCommand, MarketInfo, MarketUpdate};
pub use signal::{Handler, Indicator, Tracker};
pub use timeframe::TimeFrame;
pub use trade::{
    LiquidationFillInfo, MarketTradeInfo, TradeCommand, TradeFillInfo, TradeInfo, TradeParams,
};
pub use types::{EditType, Entry, ExecParam, ExecParams, IndexId, IndicatorData, IndicatorKind, Price, Value};
