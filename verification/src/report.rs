//! The per-area accumulator and the report it builds: fold trades into
//! (side, market) running totals, then answer rounded revenue / cost /
//! volume / gross-profit queries with market and area selection.

use vstd::prelude::*;
use vstd::arithmetic::mul::lemma_mul_nonnegative;
use vstd::arithmetic::power::lemma_pow_positive;
use crate::agg::{
    abs_m, cash_term, cash_term_in_bucket, cash_term_in_bucket_rpt, duration_fits, fold_error,
    fold_error_rpt, lemma_fold_error_prefix, lemma_fold_error_rpt_prefix,
    lemma_fold_error_rpt_take_step, lemma_fold_error_take_step, lemma_sum_rpt_take_step,
    lemma_sum_take_step, step_error, step_ok, sum_cash, sum_cash_rpt, sum_vol, sum_vol_rpt,
    terms_ok, vol_term, vol_term_in_bucket, vol_term_in_bucket_rpt, ACC_LIMIT, ACC_SCALE,
};
use crate::decimal::Dec;
use crate::error::Error;
use crate::rounding::{div_half_even, div_round_half_even, lemma_div_half_even_magnitude, pow10};
use crate::trade::{
    market_of, side_of_quantity, Area, AreaSelection, Market, MarketSelection, Trade,
    TradeForReport, TradeSide,
};

verus! {

/// Length of a delivery interval in whole seconds. Together with the fixed
/// accumulator denominator `3600 * 10^ACC_SCALE`, a second count carries the
/// contract length in hours exactly, with no division and so no rounding
/// drift. Fails when the duration does not fit a 64-bit second count. Days
/// that are 23 or 25 wall-clock hours long around a daylight-saving
/// transition are not special-cased: the length is whatever the instants are
/// apart (a known, unresolved limitation).
pub fn contract_length_seconds(delivery_start: i64, delivery_end: i64) -> (r: Result<i64, Error>)
    ensures
        r == (if duration_fits(delivery_start as int, delivery_end as int) {
            Ok::<i64, Error>((delivery_end - delivery_start) as i64)
        } else {
            Err::<i64, Error>(Error::DurationOverflow)
        }),
{
    match delivery_end.checked_sub(delivery_start) {
        Some(secs) => Ok(secs),
        None => Err(Error::DurationOverflow),
    }
}

/// Both contribution numerators of a priced trade: volume and cash flow,
/// over the denominator `3600 * 10^ACC_SCALE`.
fn contribution_terms(q: Dec, p: Dec, delivery_start: i64, delivery_end: i64) -> (r: Result<
    (i128, i128),
    Error,
>)
    requires
        q.valid(),
        p.valid(),
        delivery_start <= delivery_end,
    ensures
        (match r {
            Ok(terms) => {
                &&& duration_fits(delivery_start as int, delivery_end as int)
                &&& terms_ok(q, p, delivery_end - delivery_start)
                &&& terms.0 == vol_term(q, delivery_end - delivery_start)
                &&& terms.1 == cash_term(q, p, delivery_end - delivery_start)
                &&& 0 <= terms.0 <= ACC_LIMIT
                &&& -ACC_LIMIT <= terms.1 <= ACC_LIMIT
            },
            Err(e) => {
                &&& !(duration_fits(delivery_start as int, delivery_end as int) && terms_ok(
                    q,
                    p,
                    delivery_end - delivery_start,
                ))
                &&& e == step_error(delivery_start as int, delivery_end as int)
            },
        }),
{
    let secs: i64 = match contract_length_seconds(delivery_start, delivery_end) {
        Ok(secs) => secs,
        Err(e) => {
            return Err(e);
        },
    };
    let aq: i128 = if q.mantissa < 0 {
        -q.mantissa
    } else {
        q.mantissa
    };
    let ap: i128 = if p.mantissa < 0 {
        -p.mantissa
    } else {
        p.mantissa
    };
    proof {
        lemma_mul_nonnegative(aq as int, secs as int);
        lemma_pow_positive(10, (ACC_SCALE - q.scale) as nat);
        lemma_pow_positive(10, (ACC_SCALE - q.scale - p.scale) as nat);
    }
    let m1: i128 = match aq.checked_mul(secs as i128) {
        Some(v) => v,
        None => {
            return Err(Error::AmountOverflow);
        },
    };
    let ev: i128 = pow10(ACC_SCALE - q.scale);
    proof {
        lemma_mul_nonnegative(m1 as int, ev as int);
        lemma_mul_nonnegative(m1 as int, abs_m(p.mantissa as int));
    }
    let voln: i128 = match m1.checked_mul(ev) {
        Some(v) => v,
        None => {
            return Err(Error::AmountOverflow);
        },
    };
    if voln > ACC_LIMIT {
        return Err(Error::AmountOverflow);
    }
    let m2: i128 = match m1.checked_mul(ap) {
        Some(v) => v,
        None => {
            return Err(Error::AmountOverflow);
        },
    };
    let ec: i128 = pow10(ACC_SCALE - q.scale - p.scale);
    proof {
        lemma_mul_nonnegative(m2 as int, ec as int);
    }
    let cash_mag: i128 = match m2.checked_mul(ec) {
        Some(v) => v,
        None => {
            return Err(Error::AmountOverflow);
        },
    };
    if cash_mag > ACC_LIMIT {
        return Err(Error::AmountOverflow);
    }
    let cashn: i128 = if p.mantissa < 0 {
        -cash_mag
    } else {
        cash_mag
    };
    Ok((voln, cashn))
}

/// The running totals of one delivery area: cumulative volume and cash flow
/// for each (side, market) pair. A pair never traded in holds zero, which is
/// also what a query reads for it.
#[derive(Debug, Clone, Copy)]
pub struct ReportEntry {
    pub area: Area,
    pub mw_buy_auction: i128,
    pub mw_buy_intraday: i128,
    pub mw_buy_imbalance: i128,
    pub mw_sell_auction: i128,
    pub mw_sell_intraday: i128,
    pub mw_sell_imbalance: i128,
    pub cash_buy_auction: i128,
    pub cash_buy_intraday: i128,
    pub cash_buy_imbalance: i128,
    pub cash_sell_auction: i128,
    pub cash_sell_intraday: i128,
    pub cash_sell_imbalance: i128,
}

impl ReportEntry {
    /// The volume numerator accumulated for a (side, market) pair.
    pub open spec fn mw_at(self, sd: TradeSide, mk: Market) -> int {
        match (sd, mk) {
            (TradeSide::Buy, Market::Auction) => self.mw_buy_auction as int,
            (TradeSide::Buy, Market::Intraday) => self.mw_buy_intraday as int,
            (TradeSide::Buy, Market::Imbalance) => self.mw_buy_imbalance as int,
            (TradeSide::Sell, Market::Auction) => self.mw_sell_auction as int,
            (TradeSide::Sell, Market::Intraday) => self.mw_sell_intraday as int,
            (TradeSide::Sell, Market::Imbalance) => self.mw_sell_imbalance as int,
        }
    }

    /// The cash-flow numerator accumulated for a (side, market) pair.
    pub open spec fn cash_at(self, sd: TradeSide, mk: Market) -> int {
        match (sd, mk) {
            (TradeSide::Buy, Market::Auction) => self.cash_buy_auction as int,
            (TradeSide::Buy, Market::Intraday) => self.cash_buy_intraday as int,
            (TradeSide::Buy, Market::Imbalance) => self.cash_buy_imbalance as int,
            (TradeSide::Sell, Market::Auction) => self.cash_sell_auction as int,
            (TradeSide::Sell, Market::Intraday) => self.cash_sell_intraday as int,
            (TradeSide::Sell, Market::Imbalance) => self.cash_sell_imbalance as int,
        }
    }

    /// Every total within the accumulator's numeric range; volumes are
    /// magnitudes, so also non-negative.
    pub open spec fn wf(self) -> bool {
        &&& 0 <= self.mw_at(TradeSide::Buy, Market::Auction) <= ACC_LIMIT
        &&& 0 <= self.mw_at(TradeSide::Buy, Market::Intraday) <= ACC_LIMIT
        &&& 0 <= self.mw_at(TradeSide::Buy, Market::Imbalance) <= ACC_LIMIT
        &&& 0 <= self.mw_at(TradeSide::Sell, Market::Auction) <= ACC_LIMIT
        &&& 0 <= self.mw_at(TradeSide::Sell, Market::Intraday) <= ACC_LIMIT
        &&& 0 <= self.mw_at(TradeSide::Sell, Market::Imbalance) <= ACC_LIMIT
        &&& -ACC_LIMIT <= self.cash_at(TradeSide::Buy, Market::Auction) <= ACC_LIMIT
        &&& -ACC_LIMIT <= self.cash_at(TradeSide::Buy, Market::Intraday) <= ACC_LIMIT
        &&& -ACC_LIMIT <= self.cash_at(TradeSide::Buy, Market::Imbalance) <= ACC_LIMIT
        &&& -ACC_LIMIT <= self.cash_at(TradeSide::Sell, Market::Auction) <= ACC_LIMIT
        &&& -ACC_LIMIT <= self.cash_at(TradeSide::Sell, Market::Intraday) <= ACC_LIMIT
        &&& -ACC_LIMIT <= self.cash_at(TradeSide::Sell, Market::Imbalance) <= ACC_LIMIT
    }

    /// A fresh accumulator for an area, all totals zero.
    pub fn new(area: Area) -> (r: ReportEntry)
        ensures
            r.wf(),
            r.area == area,
            forall|sd: TradeSide, mk: Market| #[trigger] r.mw_at(sd, mk) == 0,
            forall|sd: TradeSide, mk: Market| #[trigger] r.cash_at(sd, mk) == 0,
    {
        ReportEntry {
            area,
            mw_buy_auction: 0,
            mw_buy_intraday: 0,
            mw_buy_imbalance: 0,
            mw_sell_auction: 0,
            mw_sell_intraday: 0,
            mw_sell_imbalance: 0,
            cash_buy_auction: 0,
            cash_buy_intraday: 0,
            cash_buy_imbalance: 0,
            cash_sell_auction: 0,
            cash_sell_intraday: 0,
            cash_sell_imbalance: 0,
        }
    }

    /// Read one (side, market) pair's totals.
    fn buckets(&self, sd: TradeSide, mk: Market) -> (r: (i128, i128))
        ensures
            r.0 == self.mw_at(sd, mk),
            r.1 == self.cash_at(sd, mk),
    {
        match (sd, mk) {
            (TradeSide::Buy, Market::Auction) => (self.mw_buy_auction, self.cash_buy_auction),
            (TradeSide::Buy, Market::Intraday) => (self.mw_buy_intraday, self.cash_buy_intraday),
            (TradeSide::Buy, Market::Imbalance) => (
                self.mw_buy_imbalance,
                self.cash_buy_imbalance,
            ),
            (TradeSide::Sell, Market::Auction) => (self.mw_sell_auction, self.cash_sell_auction),
            (TradeSide::Sell, Market::Intraday) => (
                self.mw_sell_intraday,
                self.cash_sell_intraday,
            ),
            (TradeSide::Sell, Market::Imbalance) => (
                self.mw_sell_imbalance,
                self.cash_sell_imbalance,
            ),
        }
    }

    /// Overwrite one (side, market) pair's totals, leaving the rest alone.
    fn set_buckets(&mut self, sd: TradeSide, mk: Market, mw: i128, cash: i128)
        ensures
            final(self).area == old(self).area,
            final(self).mw_at(sd, mk) == mw as int,
            final(self).cash_at(sd, mk) == cash as int,
            forall|sd2: TradeSide, mk2: Market|
                !(sd2 == sd && mk2 == mk) ==> #[trigger] final(self).mw_at(sd2, mk2) == old(self).mw_at(
                    sd2,
                    mk2,
                ),
            forall|sd2: TradeSide, mk2: Market|
                !(sd2 == sd && mk2 == mk) ==> #[trigger] final(self).cash_at(sd2, mk2) == old(
                    self,
                ).cash_at(sd2, mk2),
    {
        match (sd, mk) {
            (TradeSide::Buy, Market::Auction) => {
                self.mw_buy_auction = mw;
                self.cash_buy_auction = cash;
            },
            (TradeSide::Buy, Market::Intraday) => {
                self.mw_buy_intraday = mw;
                self.cash_buy_intraday = cash;
            },
            (TradeSide::Buy, Market::Imbalance) => {
                self.mw_buy_imbalance = mw;
                self.cash_buy_imbalance = cash;
            },
            (TradeSide::Sell, Market::Auction) => {
                self.mw_sell_auction = mw;
                self.cash_sell_auction = cash;
            },
            (TradeSide::Sell, Market::Intraday) => {
                self.mw_sell_intraday = mw;
                self.cash_sell_intraday = cash;
            },
            (TradeSide::Sell, Market::Imbalance) => {
                self.mw_sell_imbalance = mw;
                self.cash_sell_imbalance = cash;
            },
        }
    }

    /// Fold one side-tagged trade into this accumulator.
    ///
    /// Rejects a trade routed to the wrong area; silently accepts an
    /// un-priced trade without changing any total; otherwise classifies the
    /// trade and adds its volume and cash-flow contributions to the
    /// (side, market) pair, both at once or not at all.
    pub fn add_trade(&mut self, trade: &Trade) -> (result: Result<(), Error>)
        requires
            old(self).wf(),
            trade.valid(),
        ensures
            final(self).wf(),
            final(self).area == old(self).area,
            result == Err::<(), Error>(Error::AreaMismatch) <==> trade.area != old(self).area,
            result is Err ==> *final(self) == *old(self),
            trade.area == old(self).area ==> (result is Ok <==> step_ok(
                old(self).mw_at(trade.trade_side, market_of(trade.trade_type)),
                old(self).cash_at(trade.trade_side, market_of(trade.trade_type)),
                trade.quantity_mwh,
                trade.price,
                trade.delivery_start as int,
                trade.delivery_end as int,
            )),
            trade.area == old(self).area && result is Err ==> result == Err::<(), Error>(
                step_error(trade.delivery_start as int, trade.delivery_end as int),
            ),
            result is Ok ==> forall|sd: TradeSide, mk: Market|
                #[trigger] final(self).mw_at(sd, mk) == old(self).mw_at(sd, mk) + vol_term_in_bucket(
                    *trade,
                    old(self).area,
                    sd,
                    mk,
                ),
            result is Ok ==> forall|sd: TradeSide, mk: Market|
                #[trigger] final(self).cash_at(sd, mk) == old(self).cash_at(sd, mk) + cash_term_in_bucket(
                    *trade,
                    old(self).area,
                    sd,
                    mk,
                ),
    {
        if trade.area != self.area {
            return Err(Error::AreaMismatch);
        }
        let price: Dec = match trade.price {
            Some(p) => p,
            None => {
                return Ok(());
            },
        };
        let terms: (i128, i128) = match contribution_terms(
            trade.quantity_mwh,
            price,
            trade.delivery_start,
            trade.delivery_end,
        ) {
            Ok(t) => t,
            Err(e) => {
                return Err(e);
            },
        };
        let side = trade.trade_side;
        let market = Market::from(trade.trade_type);
        let prior = self.buckets(side, market);
        let new_mw = prior.0 + terms.0;
        if new_mw > ACC_LIMIT {
            return Err(Error::AmountOverflow);
        }
        let new_cash = prior.1 + terms.1;
        if new_cash > ACC_LIMIT || new_cash < -ACC_LIMIT {
            return Err(Error::AmountOverflow);
        }
        self.set_buckets(side, market, new_mw, new_cash);
        Ok(())
    }

    /// Fold one sign-tagged trade into this accumulator, deriving the side
    /// from the sign of the quantity (negative means sold). Trades of this
    /// shape and side-tagged trades come from mutually exclusive sources and
    /// must never be folded into the same accumulator.
    pub fn add_trade_for_report(&mut self, trade: &TradeForReport) -> (result: Result<(), Error>)
        requires
            old(self).wf(),
            trade.valid(),
        ensures
            final(self).wf(),
            final(self).area == old(self).area,
            result == Err::<(), Error>(Error::AreaMismatch) <==> trade.area != old(self).area,
            result is Err ==> *final(self) == *old(self),
            trade.area == old(self).area ==> (result is Ok <==> step_ok(
                old(self).mw_at(side_of_quantity(trade.quantity_mwh), market_of(trade.trade_type)),
                old(self).cash_at(
                    side_of_quantity(trade.quantity_mwh),
                    market_of(trade.trade_type),
                ),
                trade.quantity_mwh,
                trade.price,
                trade.delivery_start as int,
                trade.delivery_end as int,
            )),
            trade.area == old(self).area && result is Err ==> result == Err::<(), Error>(
                step_error(trade.delivery_start as int, trade.delivery_end as int),
            ),
            result is Ok ==> forall|sd: TradeSide, mk: Market|
                #[trigger] final(self).mw_at(sd, mk) == old(self).mw_at(sd, mk) + vol_term_in_bucket_rpt(
                    *trade,
                    old(self).area,
                    sd,
                    mk,
                ),
            result is Ok ==> forall|sd: TradeSide, mk: Market|
                #[trigger] final(self).cash_at(sd, mk) == old(self).cash_at(sd, mk)
                    + cash_term_in_bucket_rpt(*trade, old(self).area, sd, mk),
    {
        if trade.area != self.area {
            return Err(Error::AreaMismatch);
        }
        let price: Dec = match trade.price {
            Some(p) => p,
            None => {
                return Ok(());
            },
        };
        let terms: (i128, i128) = match contribution_terms(
            trade.quantity_mwh,
            price,
            trade.delivery_start,
            trade.delivery_end,
        ) {
            Ok(t) => t,
            Err(e) => {
                return Err(e);
            },
        };
        let side = if trade.quantity_mwh.mantissa < 0 {
            TradeSide::Sell
        } else {
            TradeSide::Buy
        };
        let market = Market::from(trade.trade_type);
        let prior = self.buckets(side, market);
        let new_mw = prior.0 + terms.0;
        if new_mw > ACC_LIMIT {
            return Err(Error::AmountOverflow);
        }
        let new_cash = prior.1 + terms.1;
        if new_cash > ACC_LIMIT || new_cash < -ACC_LIMIT {
            return Err(Error::AmountOverflow);
        }
        self.set_buckets(side, market, new_mw, new_cash);
        Ok(())
    }
}


/// Position of each area in a report's entry table.
pub open spec fn area_index(a: Area) -> int {
    match a {
        Area::Amp => 0,
        Area::DK1 => 1,
        Area::DK2 => 2,
        Area::FR => 3,
        Area::GB => 4,
        Area::NL => 5,
        Area::NO2 => 6,
        Area::SE1 => 7,
        Area::SE3 => 8,
    }
}

/// No two areas share a table position.
pub proof fn lemma_area_index_injective(a: Area, b: Area)
    requires
        area_index(a) == area_index(b),
    ensures
        a == b,
{
}

fn area_slot(a: Area) -> (r: usize)
    ensures
        r as int == area_index(a),
        r < 9,
{
    match a {
        Area::Amp => 0,
        Area::DK1 => 1,
        Area::DK2 => 2,
        Area::FR => 3,
        Area::GB => 4,
        Area::NL => 5,
        Area::NO2 => 6,
        Area::SE1 => 7,
        Area::SE3 => 8,
    }
}

/// A full accumulator table: one well-formed entry per area, in table order.
pub open spec fn entries_wf(entries: Seq<ReportEntry>) -> bool {
    &&& entries.len() == 9
    &&& forall|i: int| 0 <= i < 9 ==> (#[trigger] entries[i]).wf()
    &&& forall|i: int| 0 <= i < 9 ==> area_index((#[trigger] entries[i]).area) == i
}

/// An aggregation in progress: the same accumulator table a finished report
/// holds, still accepting trades one at a time. This serves every delivery
/// mechanism that yields trades singly (a lazy producer, a channel fan-in):
/// the caller performs the waiting and hands each arrived trade to
/// `push_trade`, aborting on the first failure.
#[derive(Debug)]
pub struct ReportBuilder {
    pub delivery_from: i64,
    pub delivery_to: i64,
    pub entries: Vec<ReportEntry>,
}

/// The finished aggregation: per-area running totals and the delivery window
/// the report claims to cover (informational; trades are not filtered by it).
/// Once constructed it only answers queries.
#[derive(Debug)]
pub struct Report {
    pub delivery_from: i64,
    pub delivery_to: i64,
    pub entries: Vec<ReportEntry>,
}

impl ReportBuilder {
    pub open spec fn wf(self) -> bool {
        &&& entries_wf(self.entries@)
        &&& self.delivery_from <= self.delivery_to
    }

    /// The volume numerator accumulated so far for a bucket.
    pub open spec fn mw_total(self, a: Area, sd: TradeSide, mk: Market) -> int {
        self.entries@[area_index(a)].mw_at(sd, mk)
    }

    /// The cash-flow numerator accumulated so far for a bucket.
    pub open spec fn cash_total(self, a: Area, sd: TradeSide, mk: Market) -> int {
        self.entries@[area_index(a)].cash_at(sd, mk)
    }

    /// An empty aggregation over the given delivery window; fails when the
    /// window ends before it starts.
    pub fn new(delivery_from: i64, delivery_to: i64) -> (result: Result<ReportBuilder, Error>)
        ensures
            result is Err <==> delivery_to < delivery_from,
            result is Err ==> result == Err::<ReportBuilder, Error>(Error::InvalidWindow),
            (result matches Ok(b) ==> {
                &&& b.wf()
                &&& b.delivery_from == delivery_from
                &&& b.delivery_to == delivery_to
                &&& forall|a: Area, sd: TradeSide, mk: Market| #[trigger] b.mw_total(a, sd, mk) == 0
                &&& forall|a: Area, sd: TradeSide, mk: Market|
                    #[trigger] b.cash_total(a, sd, mk) == 0
            }),
    {
        if delivery_to < delivery_from {
            return Err(Error::InvalidWindow);
        }
        let mut entries: Vec<ReportEntry> = Vec::new();
        entries.push(ReportEntry::new(Area::Amp));
        entries.push(ReportEntry::new(Area::DK1));
        entries.push(ReportEntry::new(Area::DK2));
        entries.push(ReportEntry::new(Area::FR));
        entries.push(ReportEntry::new(Area::GB));
        entries.push(ReportEntry::new(Area::NL));
        entries.push(ReportEntry::new(Area::NO2));
        entries.push(ReportEntry::new(Area::SE1));
        entries.push(ReportEntry::new(Area::SE3));
        Ok(ReportBuilder { delivery_from, delivery_to, entries })
    }

    /// Fold one side-tagged trade into the area it belongs to.
    pub fn push_trade(&mut self, trade: &Trade) -> (result: Result<(), Error>)
        requires
            old(self).wf(),
            trade.valid(),
        ensures
            final(self).wf(),
            final(self).delivery_from == old(self).delivery_from,
            final(self).delivery_to == old(self).delivery_to,
            result is Ok <==> step_ok(
                old(self).mw_total(trade.area, trade.trade_side, market_of(trade.trade_type)),
                old(self).cash_total(trade.area, trade.trade_side, market_of(trade.trade_type)),
                trade.quantity_mwh,
                trade.price,
                trade.delivery_start as int,
                trade.delivery_end as int,
            ),
            result is Err ==> *final(self) == *old(self) && result == Err::<(), Error>(
                step_error(trade.delivery_start as int, trade.delivery_end as int),
            ),
            result is Ok ==> forall|a: Area, sd: TradeSide, mk: Market|
                #[trigger] final(self).mw_total(a, sd, mk) == old(self).mw_total(a, sd, mk)
                    + vol_term_in_bucket(*trade, a, sd, mk),
            result is Ok ==> forall|a: Area, sd: TradeSide, mk: Market|
                #[trigger] final(self).cash_total(a, sd, mk) == old(self).cash_total(a, sd, mk)
                    + cash_term_in_bucket(*trade, a, sd, mk),
    {
        let slot = area_slot(trade.area);
        let mut entry = self.entries[slot];
        proof {
            lemma_area_index_injective(entry.area, trade.area);
        }
        match entry.add_trade(trade) {
            Ok(()) => {
                self.entries.set(slot, entry);
                proof {
                    assert forall|a: Area, sd: TradeSide, mk: Market|
                        #[trigger] self.mw_total(a, sd, mk) == old(self).mw_total(a, sd, mk)
                            + vol_term_in_bucket(*trade, a, sd, mk) by {
                        if area_index(a) != slot as int {
                            assert(a != trade.area);
                        } else {
                            lemma_area_index_injective(a, trade.area);
                        }
                    }
                    assert forall|a: Area, sd: TradeSide, mk: Market|
                        #[trigger] self.cash_total(a, sd, mk) == old(self).cash_total(a, sd, mk)
                            + cash_term_in_bucket(*trade, a, sd, mk) by {
                        if area_index(a) != slot as int {
                            assert(a != trade.area);
                        } else {
                            lemma_area_index_injective(a, trade.area);
                        }
                    }
                }
                Ok(())
            },
            Err(e) => Err(e),
        }
    }

    /// Fold one sign-tagged trade into the area it belongs to.
    pub fn push_trade_for_report(&mut self, trade: &TradeForReport) -> (result: Result<(), Error>)
        requires
            old(self).wf(),
            trade.valid(),
        ensures
            final(self).wf(),
            final(self).delivery_from == old(self).delivery_from,
            final(self).delivery_to == old(self).delivery_to,
            result is Ok <==> step_ok(
                old(self).mw_total(
                    trade.area,
                    side_of_quantity(trade.quantity_mwh),
                    market_of(trade.trade_type),
                ),
                old(self).cash_total(
                    trade.area,
                    side_of_quantity(trade.quantity_mwh),
                    market_of(trade.trade_type),
                ),
                trade.quantity_mwh,
                trade.price,
                trade.delivery_start as int,
                trade.delivery_end as int,
            ),
            result is Err ==> *final(self) == *old(self) && result == Err::<(), Error>(
                step_error(trade.delivery_start as int, trade.delivery_end as int),
            ),
            result is Ok ==> forall|a: Area, sd: TradeSide, mk: Market|
                #[trigger] final(self).mw_total(a, sd, mk) == old(self).mw_total(a, sd, mk)
                    + vol_term_in_bucket_rpt(*trade, a, sd, mk),
            result is Ok ==> forall|a: Area, sd: TradeSide, mk: Market|
                #[trigger] final(self).cash_total(a, sd, mk) == old(self).cash_total(a, sd, mk)
                    + cash_term_in_bucket_rpt(*trade, a, sd, mk),
    {
        let slot = area_slot(trade.area);
        let mut entry = self.entries[slot];
        proof {
            lemma_area_index_injective(entry.area, trade.area);
        }
        match entry.add_trade_for_report(trade) {
            Ok(()) => {
                self.entries.set(slot, entry);
                proof {
                    assert forall|a: Area, sd: TradeSide, mk: Market|
                        #[trigger] self.mw_total(a, sd, mk) == old(self).mw_total(a, sd, mk)
                            + vol_term_in_bucket_rpt(*trade, a, sd, mk) by {
                        if area_index(a) != slot as int {
                            assert(a != trade.area);
                        } else {
                            lemma_area_index_injective(a, trade.area);
                        }
                    }
                    assert forall|a: Area, sd: TradeSide, mk: Market|
                        #[trigger] self.cash_total(a, sd, mk) == old(self).cash_total(a, sd, mk)
                            + cash_term_in_bucket_rpt(*trade, a, sd, mk) by {
                        if area_index(a) != slot as int {
                            assert(a != trade.area);
                        } else {
                            lemma_area_index_injective(a, trade.area);
                        }
                    }
                }
                Ok(())
            },
            Err(e) => Err(e),
        }
    }

    /// Seal the aggregation into a report.
    pub fn finish(self) -> (r: Report)
        requires
            self.wf(),
        ensures
            r.wf(),
            r.delivery_from == self.delivery_from,
            r.delivery_to == self.delivery_to,
            forall|a: Area, sd: TradeSide, mk: Market| #[trigger] r.mw_total(a, sd, mk)
                == self.mw_total(a, sd, mk),
            forall|a: Area, sd: TradeSide, mk: Market| #[trigger] r.cash_total(a, sd, mk)
                == self.cash_total(a, sd, mk),
    {
        Report { delivery_from: self.delivery_from, delivery_to: self.delivery_to, entries: self.entries }
    }
}


/// Divisor turning an accumulator numerator into a mantissa with two
/// fractional digits: `3600 * 10^(ACC_SCALE - 2)`. Monetary results carry
/// two decimals.
pub const MONEY_ROUND_DIV: i128 = 36_000_000_000_000_000_000_000_000;

/// Divisor turning an accumulator numerator into a mantissa with one
/// fractional digit: `3600 * 10^(ACC_SCALE - 1)`. Volume results carry one
/// decimal.
pub const VOLUME_ROUND_DIV: i128 = 360_000_000_000_000_000_000_000_000;

impl Report {
    pub open spec fn wf(self) -> bool {
        &&& entries_wf(self.entries@)
        &&& self.delivery_from <= self.delivery_to
    }

    /// The volume numerator accumulated for a bucket.
    pub open spec fn mw_total(self, a: Area, sd: TradeSide, mk: Market) -> int {
        self.entries@[area_index(a)].mw_at(sd, mk)
    }

    /// The cash-flow numerator accumulated for a bucket.
    pub open spec fn cash_total(self, a: Area, sd: TradeSide, mk: Market) -> int {
        self.entries@[area_index(a)].cash_at(sd, mk)
    }

    /// One area's cash-flow numerator under a market selection.
    pub open spec fn cash_sel_area(self, a: Area, sd: TradeSide, market: MarketSelection) -> int {
        match market {
            MarketSelection::Specific(mk) => self.cash_total(a, sd, mk),
            MarketSelection::All => self.cash_total(a, sd, Market::Auction) + self.cash_total(
                a,
                sd,
                Market::Intraday,
            ) + self.cash_total(a, sd, Market::Imbalance),
        }
    }

    /// The cash-flow numerator selected by a (market, area) pair of filters.
    pub open spec fn cash_sel(self, sd: TradeSide, market: MarketSelection, area: AreaSelection) -> int {
        match area {
            AreaSelection::Specific(a) => self.cash_sel_area(a, sd, market),
            AreaSelection::All => self.cash_sel_area(Area::Amp, sd, market) + self.cash_sel_area(
                Area::DK1,
                sd,
                market,
            ) + self.cash_sel_area(Area::DK2, sd, market) + self.cash_sel_area(Area::FR, sd, market)
                + self.cash_sel_area(Area::GB, sd, market) + self.cash_sel_area(
                Area::NL,
                sd,
                market,
            ) + self.cash_sel_area(Area::NO2, sd, market) + self.cash_sel_area(
                Area::SE1,
                sd,
                market,
            ) + self.cash_sel_area(Area::SE3, sd, market),
        }
    }

    /// One area's volume numerator under a market selection.
    pub open spec fn mw_sel_area(self, a: Area, sd: TradeSide, market: MarketSelection) -> int {
        match market {
            MarketSelection::Specific(mk) => self.mw_total(a, sd, mk),
            MarketSelection::All => self.mw_total(a, sd, Market::Auction) + self.mw_total(
                a,
                sd,
                Market::Intraday,
            ) + self.mw_total(a, sd, Market::Imbalance),
        }
    }

    /// The volume numerator selected by a (market, area) pair of filters.
    pub open spec fn mw_sel(self, sd: TradeSide, market: MarketSelection, area: AreaSelection) -> int {
        match area {
            AreaSelection::Specific(a) => self.mw_sel_area(a, sd, market),
            AreaSelection::All => self.mw_sel_area(Area::Amp, sd, market) + self.mw_sel_area(
                Area::DK1,
                sd,
                market,
            ) + self.mw_sel_area(Area::DK2, sd, market) + self.mw_sel_area(Area::FR, sd, market)
                + self.mw_sel_area(Area::GB, sd, market) + self.mw_sel_area(Area::NL, sd, market)
                + self.mw_sel_area(Area::NO2, sd, market) + self.mw_sel_area(Area::SE1, sd, market)
                + self.mw_sel_area(Area::SE3, sd, market),
        }
    }

    /// Build a report by folding a fully materialized batch of side-tagged
    /// trades, each routed to its own area's accumulator.
    pub fn new(delivery_from: i64, delivery_to: i64, trades: Vec<Trade>) -> (result: Result<
        Report,
        Error,
    >)
        requires
            forall|j: int| 0 <= j < trades@.len() ==> (#[trigger] trades@[j]).valid(),
        ensures
            result == Err::<Report, Error>(Error::InvalidWindow) <==> delivery_to < delivery_from,
            delivery_from <= delivery_to ==> (match fold_error(trades@) {
                Some(e) => result == Err::<Report, Error>(e),
                None => (result matches Ok(rep) && {
                    &&& rep.wf()
                    &&& rep.delivery_from == delivery_from
                    &&& rep.delivery_to == delivery_to
                    &&& forall|a: Area, sd: TradeSide, mk: Market| #[trigger] rep.mw_total(
                        a,
                        sd,
                        mk,
                    ) == sum_vol(trades@, a, sd, mk)
                    &&& forall|a: Area, sd: TradeSide, mk: Market| #[trigger] rep.cash_total(
                        a,
                        sd,
                        mk,
                    ) == sum_cash(trades@, a, sd, mk)
                }),
            }),
    {
        let mut builder = match ReportBuilder::new(delivery_from, delivery_to) {
            Ok(b) => b,
            Err(e) => {
                return Err(e);
            },
        };
        let n = trades.len();
        let mut i: usize = 0;
        while i < n
            invariant
                n == trades@.len(),
                i <= n,
                forall|j: int| 0 <= j < trades@.len() ==> (#[trigger] trades@[j]).valid(),
                builder.wf(),
                builder.delivery_from == delivery_from,
                builder.delivery_to == delivery_to,
                delivery_from <= delivery_to,
                fold_error(trades@.take(i as int)) is None,
                forall|a: Area, sd: TradeSide, mk: Market| #[trigger] builder.mw_total(a, sd, mk)
                    == sum_vol(trades@.take(i as int), a, sd, mk),
                forall|a: Area, sd: TradeSide, mk: Market| #[trigger] builder.cash_total(a, sd, mk)
                    == sum_cash(trades@.take(i as int), a, sd, mk),
            decreases n - i,
        {
            match builder.push_trade(&trades[i]) {
                Ok(()) => {
                    proof {
                        lemma_fold_error_take_step(trades@, i as int);
                        assert forall|a: Area, sd: TradeSide, mk: Market|
                            #[trigger] builder.mw_total(a, sd, mk) == sum_vol(
                                trades@.take(i as int + 1),
                                a,
                                sd,
                                mk,
                            ) by {
                            lemma_sum_take_step(trades@, i as int, a, sd, mk);
                        }
                        assert forall|a: Area, sd: TradeSide, mk: Market|
                            #[trigger] builder.cash_total(a, sd, mk) == sum_cash(
                                trades@.take(i as int + 1),
                                a,
                                sd,
                                mk,
                            ) by {
                            lemma_sum_take_step(trades@, i as int, a, sd, mk);
                        }
                    }
                },
                Err(e) => {
                    proof {
                        lemma_fold_error_take_step(trades@, i as int);
                        lemma_fold_error_prefix(trades@, i as int + 1);
                    }
                    return Err(e);
                },
            }
            i = i + 1;
        }
        proof {
            assert(trades@.take(n as int) =~= trades@);
        }
        Ok(builder.finish())
    }

    /// Build a report by folding a fully materialized batch of sign-tagged
    /// trades, deriving each side from the sign of the quantity.
    pub fn new_from_trade_for_report(
        delivery_from: i64,
        delivery_to: i64,
        trades: Vec<TradeForReport>,
    ) -> (result: Result<Report, Error>)
        requires
            forall|j: int| 0 <= j < trades@.len() ==> (#[trigger] trades@[j]).valid(),
        ensures
            result == Err::<Report, Error>(Error::InvalidWindow) <==> delivery_to < delivery_from,
            delivery_from <= delivery_to ==> (match fold_error_rpt(trades@) {
                Some(e) => result == Err::<Report, Error>(e),
                None => (result matches Ok(rep) && {
                    &&& rep.wf()
                    &&& rep.delivery_from == delivery_from
                    &&& rep.delivery_to == delivery_to
                    &&& forall|a: Area, sd: TradeSide, mk: Market| #[trigger] rep.mw_total(
                        a,
                        sd,
                        mk,
                    ) == sum_vol_rpt(trades@, a, sd, mk)
                    &&& forall|a: Area, sd: TradeSide, mk: Market| #[trigger] rep.cash_total(
                        a,
                        sd,
                        mk,
                    ) == sum_cash_rpt(trades@, a, sd, mk)
                }),
            }),
    {
        let mut builder = match ReportBuilder::new(delivery_from, delivery_to) {
            Ok(b) => b,
            Err(e) => {
                return Err(e);
            },
        };
        let n = trades.len();
        let mut i: usize = 0;
        while i < n
            invariant
                n == trades@.len(),
                i <= n,
                forall|j: int| 0 <= j < trades@.len() ==> (#[trigger] trades@[j]).valid(),
                builder.wf(),
                builder.delivery_from == delivery_from,
                builder.delivery_to == delivery_to,
                delivery_from <= delivery_to,
                fold_error_rpt(trades@.take(i as int)) is None,
                forall|a: Area, sd: TradeSide, mk: Market| #[trigger] builder.mw_total(a, sd, mk)
                    == sum_vol_rpt(trades@.take(i as int), a, sd, mk),
                forall|a: Area, sd: TradeSide, mk: Market| #[trigger] builder.cash_total(a, sd, mk)
                    == sum_cash_rpt(trades@.take(i as int), a, sd, mk),
            decreases n - i,
        {
            match builder.push_trade_for_report(&trades[i]) {
                Ok(()) => {
                    proof {
                        lemma_fold_error_rpt_take_step(trades@, i as int);
                        assert forall|a: Area, sd: TradeSide, mk: Market|
                            #[trigger] builder.mw_total(a, sd, mk) == sum_vol_rpt(
                                trades@.take(i as int + 1),
                                a,
                                sd,
                                mk,
                            ) by {
                            lemma_sum_rpt_take_step(trades@, i as int, a, sd, mk);
                        }
                        assert forall|a: Area, sd: TradeSide, mk: Market|
                            #[trigger] builder.cash_total(a, sd, mk) == sum_cash_rpt(
                                trades@.take(i as int + 1),
                                a,
                                sd,
                                mk,
                            ) by {
                            lemma_sum_rpt_take_step(trades@, i as int, a, sd, mk);
                        }
                    }
                },
                Err(e) => {
                    proof {
                        lemma_fold_error_rpt_take_step(trades@, i as int);
                        lemma_fold_error_rpt_prefix(trades@, i as int + 1);
                    }
                    return Err(e);
                },
            }
            i = i + 1;
        }
        proof {
            assert(trades@.take(n as int) =~= trades@);
        }
        Ok(builder.finish())
    }

    /// Both numerators of one bucket.
    fn bucket_totals(&self, a: Area, sd: TradeSide, mk: Market) -> (r: (i128, i128))
        requires
            self.wf(),
        ensures
            r.0 as int == self.mw_total(a, sd, mk),
            r.1 as int == self.cash_total(a, sd, mk),
            0 <= r.0 <= ACC_LIMIT,
            -ACC_LIMIT <= r.1 <= ACC_LIMIT,
    {
        let slot = area_slot(a);
        let entry = self.entries[slot];
        entry.buckets(sd, mk)
    }

    /// One area's cash-flow numerator under a market selection.
    fn cash_for_area(&self, a: Area, sd: TradeSide, market: MarketSelection) -> (r: i128)
        requires
            self.wf(),
        ensures
            r as int == self.cash_sel_area(a, sd, market),
            -3 * (ACC_LIMIT as int) <= r as int <= 3 * (ACC_LIMIT as int),
    {
        match market {
            MarketSelection::Specific(mk) => self.bucket_totals(a, sd, mk).1,
            MarketSelection::All => {
                let x = self.bucket_totals(a, sd, Market::Auction).1;
                let y = self.bucket_totals(a, sd, Market::Intraday).1;
                let z = self.bucket_totals(a, sd, Market::Imbalance).1;
                x + y + z
            },
        }
    }

    /// The cash-flow numerator selected by a (market, area) pair of filters.
    fn cash_selected(&self, sd: TradeSide, market: MarketSelection, area: AreaSelection) -> (r:
        i128)
        requires
            self.wf(),
        ensures
            r as int == self.cash_sel(sd, market, area),
            -27 * (ACC_LIMIT as int) <= r as int <= 27 * (ACC_LIMIT as int),
    {
        match area {
            AreaSelection::Specific(a) => self.cash_for_area(a, sd, market),
            AreaSelection::All => {
                let mut total: i128 = self.cash_for_area(Area::Amp, sd, market);
                total = total + self.cash_for_area(Area::DK1, sd, market);
                total = total + self.cash_for_area(Area::DK2, sd, market);
                total = total + self.cash_for_area(Area::FR, sd, market);
                total = total + self.cash_for_area(Area::GB, sd, market);
                total = total + self.cash_for_area(Area::NL, sd, market);
                total = total + self.cash_for_area(Area::NO2, sd, market);
                total = total + self.cash_for_area(Area::SE1, sd, market);
                total = total + self.cash_for_area(Area::SE3, sd, market);
                total
            },
        }
    }

    /// One area's volume numerator under a market selection.
    fn mw_for_area(&self, a: Area, sd: TradeSide, market: MarketSelection) -> (r: i128)
        requires
            self.wf(),
        ensures
            r as int == self.mw_sel_area(a, sd, market),
            0 <= r as int <= 3 * (ACC_LIMIT as int),
    {
        match market {
            MarketSelection::Specific(mk) => self.bucket_totals(a, sd, mk).0,
            MarketSelection::All => {
                let x = self.bucket_totals(a, sd, Market::Auction).0;
                let y = self.bucket_totals(a, sd, Market::Intraday).0;
                let z = self.bucket_totals(a, sd, Market::Imbalance).0;
                x + y + z
            },
        }
    }

    /// The volume numerator selected by a (market, area) pair of filters.
    fn mw_selected(&self, sd: TradeSide, market: MarketSelection, area: AreaSelection) -> (r: i128)
        requires
            self.wf(),
        ensures
            r as int == self.mw_sel(sd, market, area),
            0 <= r as int <= 27 * (ACC_LIMIT as int),
    {
        match area {
            AreaSelection::Specific(a) => self.mw_for_area(a, sd, market),
            AreaSelection::All => {
                let mut total: i128 = self.mw_for_area(Area::Amp, sd, market);
                total = total + self.mw_for_area(Area::DK1, sd, market);
                total = total + self.mw_for_area(Area::DK2, sd, market);
                total = total + self.mw_for_area(Area::FR, sd, market);
                total = total + self.mw_for_area(Area::GB, sd, market);
                total = total + self.mw_for_area(Area::NL, sd, market);
                total = total + self.mw_for_area(Area::NO2, sd, market);
                total = total + self.mw_for_area(Area::SE1, sd, market);
                total = total + self.mw_for_area(Area::SE3, sd, market);
                total
            },
        }
    }

    /// Money received for energy sold under the selected market and area,
    /// rounded half-to-even to two decimals at this boundary alone. An area
    /// or market nothing was routed to contributes zero.
    pub fn revenue(&self, market: MarketSelection, area: AreaSelection) -> (r: Dec)
        requires
            self.wf(),
        ensures
            r.scale == 2,
            r.mantissa as int == div_half_even(
                self.cash_sel(TradeSide::Sell, market, area),
                MONEY_ROUND_DIV as int,
            ),
    {
        let total = self.cash_selected(TradeSide::Sell, market, area);
        let m = div_round_half_even(total, MONEY_ROUND_DIV);
        Dec { mantissa: m, scale: 2 }
    }

    /// Money paid for energy bought under the selected market and area,
    /// rounded half-to-even to two decimals.
    pub fn costs(&self, market: MarketSelection, area: AreaSelection) -> (r: Dec)
        requires
            self.wf(),
        ensures
            r.scale == 2,
            r.mantissa as int == div_half_even(
                self.cash_sel(TradeSide::Buy, market, area),
                MONEY_ROUND_DIV as int,
            ),
    {
        let total = self.cash_selected(TradeSide::Buy, market, area);
        let m = div_round_half_even(total, MONEY_ROUND_DIV);
        Dec { mantissa: m, scale: 2 }
    }

    /// Energy sold under the selected market and area, rounded half-to-even
    /// to one decimal.
    pub fn mw_sold(&self, market: MarketSelection, area: AreaSelection) -> (r: Dec)
        requires
            self.wf(),
        ensures
            r.scale == 1,
            r.mantissa as int == div_half_even(
                self.mw_sel(TradeSide::Sell, market, area),
                VOLUME_ROUND_DIV as int,
            ),
    {
        let total = self.mw_selected(TradeSide::Sell, market, area);
        let m = div_round_half_even(total, VOLUME_ROUND_DIV);
        Dec { mantissa: m, scale: 1 }
    }

    /// Energy bought under the selected market and area, rounded half-to-even
    /// to one decimal.
    pub fn mw_bought(&self, market: MarketSelection, area: AreaSelection) -> (r: Dec)
        requires
            self.wf(),
        ensures
            r.scale == 1,
            r.mantissa as int == div_half_even(
                self.mw_sel(TradeSide::Buy, market, area),
                VOLUME_ROUND_DIV as int,
            ),
    {
        let total = self.mw_selected(TradeSide::Buy, market, area);
        let m = div_round_half_even(total, VOLUME_ROUND_DIV);
        Dec { mantissa: m, scale: 1 }
    }

    /// Revenue minus costs for the same selectors, exactly: the difference of
    /// the two rounded two-decimal results.
    pub fn gross_profit(&self, market: MarketSelection, area: AreaSelection) -> (r: Dec)
        requires
            self.wf(),
        ensures
            r.scale == 2,
            r.mantissa as int == div_half_even(
                self.cash_sel(TradeSide::Sell, market, area),
                MONEY_ROUND_DIV as int,
            ) - div_half_even(self.cash_sel(TradeSide::Buy, market, area), MONEY_ROUND_DIV as int),
    {
        let sold = self.cash_selected(TradeSide::Sell, market, area);
        let bought = self.cash_selected(TradeSide::Buy, market, area);
        proof {
            lemma_div_half_even_magnitude(
                sold as int,
                MONEY_ROUND_DIV as int,
                100_000_000_000_000,
            );
            lemma_div_half_even_magnitude(
                bought as int,
                MONEY_ROUND_DIV as int,
                100_000_000_000_000,
            );
        }
        let rev_m = div_round_half_even(sold, MONEY_ROUND_DIV);
        let cost_m = div_round_half_even(bought, MONEY_ROUND_DIV);
        Dec { mantissa: rev_m - cost_m, scale: 2 }
    }
}

} // verus!
