use vstd::prelude::*;

use crate::margin::{AssetMargin, MarginAllocation};
use crate::market::{AssetPrice, MarketCommand, MarketInfo};
use crate::trade::{MarketTradeInfo, TradeParams};
use crate::types::{IndexId, IndicatorData};

verus! {

/// Request to start trading an asset.
#[derive(Clone, Debug)]
pub struct AddMarketInfo {
    pub asset: String,
    pub margin_alloc: MarginAllocation,
    pub trade_params: TradeParams,
    pub config: Option<Vec<IndexId>>,
}

#[derive(Clone, Debug)]
pub enum EditMarketInfo {
    Lev(u32),
    Strategy,
    Indicator(Vec<IndexId>),
}

/// Events shipped to the frontend.
pub enum UpdateFrontend {
    ConfirmMarket(MarketInfo),
    UpdatePrice(AssetPrice),
    NewTradeInfo(MarketTradeInfo),
    UpdateTotalMargin(i128),
    UpdateMarketMargin(AssetMargin),
    UpdateIndicatorValues { asset: String, data: Vec<IndicatorData> },
    MarketInfoEdit((String, EditMarketInfo)),
    UserError(String),
    LoadSession(Vec<MarketInfo>),
}

/// Control events handled by the supervisor.
pub enum BotEvent {
    AddMarket(AddMarketInfo),
    ToggleMarket(String),
    RemoveMarket(String),
    MarketComm(BotToMarket),
    ManualUpdateMargin(AssetMargin),
    ResumeAll,
    PauseAll,
    CloseAll,
    GetSession,
}

/// A command for the market of `asset`.
#[derive(Clone, Debug)]
pub struct BotToMarket {
    pub asset: String,
    pub cmd: MarketCommand,
}

} // verus!
