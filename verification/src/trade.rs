//! The trade domain model: delivery areas, counterparties, trade sides,
//! contract types, and the classification of contract types into markets.

use vstd::prelude::*;
use crate::decimal::Dec;

verus! {

/// A delivery / settlement price zone.
#[derive(Debug, Hash, PartialEq, Eq, Clone, Copy, Structural)]
pub enum Area {
    Amp,
    DK1,
    DK2,
    FR,
    GB,
    NL,
    NO2,
    SE1,
    SE3,
}

/// Query over one area, or summed across every area.
#[derive(Debug, PartialEq, Eq, Clone, Copy, Structural)]
pub enum AreaSelection {
    All,
    Specific(Area),
}

/// A market-operator identity; carried for traceability, never aggregated on.
#[derive(Debug, PartialEq, Eq, Clone, Copy, Structural)]
pub enum CounterPart {
    Nordpool,
    Epex,
    Esett,
    Elexon,
    Rte,
    Semo,
    Tennet,
    Amprion,
}

/// Whether energy was bought or sold.
#[derive(Debug, Hash, PartialEq, Eq, Clone, Copy, Structural)]
pub enum TradeSide {
    Buy,
    Sell,
}

/// The fine-grained contract type of a trade.
#[derive(Debug, PartialEq, Eq, Clone, Copy, Structural)]
pub enum TradeType {
    Intraday,
    Imbalance,
    AuctionGbDahH,
    AuctionGbDahHh,
    AuctionGbId1Hh,
    AuctionGbId2Hh,
    AuctionEurDahH,
    AuctionEurId1H,
    AuctionEurId2H,
    AuctionEurId3H,
}

/// The trading mechanism a contract was dealt through. Every trade type maps
/// to exactly one market.
#[derive(Debug, Hash, PartialEq, Eq, Clone, Copy, Structural)]
pub enum Market {
    Auction,
    Intraday,
    Imbalance,
}

/// The total classification of contract types into markets.
pub open spec fn market_of(t: TradeType) -> Market {
    match t {
        TradeType::Intraday => Market::Intraday,
        TradeType::Imbalance => Market::Imbalance,
        TradeType::AuctionGbDahH => Market::Auction,
        TradeType::AuctionGbDahHh => Market::Auction,
        TradeType::AuctionGbId1Hh => Market::Auction,
        TradeType::AuctionGbId2Hh => Market::Auction,
        TradeType::AuctionEurDahH => Market::Auction,
        TradeType::AuctionEurId1H => Market::Auction,
        TradeType::AuctionEurId2H => Market::Auction,
        TradeType::AuctionEurId3H => Market::Auction,
    }
}

impl core::convert::From<TradeType> for Market {
    /// Classify a contract type into its market; the match is exhaustive, so
    /// the mapping is total.
    fn from(value: TradeType) -> (r: Market) {
        match value {
            TradeType::Intraday => Market::Intraday,
            TradeType::Imbalance => Market::Imbalance,
            TradeType::AuctionGbDahH
            | TradeType::AuctionGbDahHh
            | TradeType::AuctionGbId1Hh
            | TradeType::AuctionGbId2Hh
            | TradeType::AuctionEurDahH
            | TradeType::AuctionEurId1H
            | TradeType::AuctionEurId2H
            | TradeType::AuctionEurId3H => Market::Auction,
        }
    }
}

impl vstd::std_specs::convert::FromSpecImpl<TradeType> for Market {
    open spec fn obeys_from_spec() -> bool {
        true
    }

    open spec fn from_spec(t: TradeType) -> Market {
        market_of(t)
    }
}

/// Query over one market, or summed across every market.
#[derive(Debug, PartialEq, Eq, Clone, Copy, Structural)]
pub enum MarketSelection {
    All,
    Specific(Market),
}

/// A trade record with an explicit buy/sell tag; `quantity_mwh` enters the
/// aggregation by magnitude only, the side key alone carries the sign.
///
/// Delivery bounds are instants, in whole seconds since the Unix epoch; a
/// contract spanning a daylight-saving transition therefore gets a length
/// computed from wall-clock seconds, which may differ from the intended
/// number of delivery hours (a known, unresolved limitation).
#[derive(Debug, Clone, Copy)]
pub struct Trade {
    pub id: i32,
    pub area: Area,
    pub counter_part: CounterPart,
    pub delivery_end: i64,
    pub delivery_start: i64,
    pub price: Option<Dec>,
    pub quantity_mwh: Dec,
    pub trade_side: TradeSide,
    pub trade_type: TradeType,
}

impl Trade {
    /// A record the aggregation accepts: decimals within range and a
    /// non-negative delivery interval.
    pub open spec fn valid(self) -> bool {
        &&& self.quantity_mwh.valid()
        &&& (self.price matches Some(p) ==> p.valid())
        &&& self.delivery_start <= self.delivery_end
    }
}

/// The parallel input shape without an explicit side tag: the side is derived
/// from the sign of `quantity_mwh` (negative means sold). Records of this
/// shape and of `Trade` come from mutually exclusive sources and must never
/// be folded into the same accumulator.
#[derive(Debug, Clone, Copy)]
pub struct TradeForReport {
    pub area: Area,
    pub delivery_end: i64,
    pub delivery_start: i64,
    pub price: Option<Dec>,
    pub quantity_mwh: Dec,
    pub trade_type: TradeType,
}

impl TradeForReport {
    /// A record the aggregation accepts.
    pub open spec fn valid(self) -> bool {
        &&& self.quantity_mwh.valid()
        &&& (self.price matches Some(p) ==> p.valid())
        &&& self.delivery_start <= self.delivery_end
    }
}

/// The side a sign-tagged quantity stands for.
pub open spec fn side_of_quantity(q: Dec) -> TradeSide {
    if q.mantissa < 0 {
        TradeSide::Sell
    } else {
        TradeSide::Buy
    }
}

} // verus!
