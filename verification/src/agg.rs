//! The mathematical model of the accumulation: what a single trade
//! contributes to its (area, side, market) bucket, what a sequence of trades
//! sums to, and when a fold succeeds.
//!
//! Every running total is a numerator over the fixed denominator
//! `3600 * 10^ACC_SCALE`. A priced trade's volume contribution is
//! `|quantity| * (length of the delivery interval in hours)`; carrying the
//! interval length as whole seconds over the denominator's factor 3600 keeps
//! the arithmetic exact, with no intermediate rounding anywhere.

use vstd::prelude::*;
use vstd::arithmetic::power::pow;
use crate::decimal::Dec;
use crate::error::Error;
use crate::trade::{market_of, side_of_quantity, Area, Market, Trade, TradeForReport, TradeSide};

verus! {

/// Decimal scale of accumulator numerators: a numerator `n` stands for the
/// value `n / (3600 * 10^ACC_SCALE)`.
pub const ACC_SCALE: u32 = 24;

/// Bound kept on every running total's numerator: `2^122 - 1`, a thirty-second
/// of `i128::MAX`, with headroom enough that a query can sum the totals of
/// every area and market without overflow.
pub const ACC_LIMIT: i128 = 5_316_911_983_139_663_491_615_228_241_121_378_303;

/// The magnitude of a mantissa.
pub open spec fn abs_m(m: int) -> int {
    if m < 0 {
        -m
    } else {
        m
    }
}

/// Whether a delivery interval's length fits a 64-bit second count.
pub open spec fn duration_fits(start: int, end: int) -> bool {
    i64::MIN <= end - start <= i64::MAX
}

/// Numerator of the volume a priced trade adds to its bucket:
/// `|quantity| * seconds`, rescaled to `ACC_SCALE` fractional digits.
pub open spec fn vol_term(q: Dec, secs: int) -> int {
    abs_m(q.mantissa as int) * secs * pow(10, (ACC_SCALE - q.scale) as nat)
}

/// Numerator of the cash flow a priced trade adds to its bucket:
/// `|quantity| * seconds * price`, rescaled; the price alone carries the sign.
pub open spec fn cash_term(q: Dec, p: Dec, secs: int) -> int {
    let mag = abs_m(q.mantissa as int) * secs * abs_m(p.mantissa as int) * pow(
        10,
        (ACC_SCALE - q.scale - p.scale) as nat,
    );
    if p.mantissa < 0 {
        -mag
    } else {
        mag
    }
}

/// Whether both contribution numerators of a priced trade can be computed in
/// 128-bit arithmetic and lie within the accumulator bound.
pub open spec fn terms_ok(q: Dec, p: Dec, secs: int) -> bool {
    let m1 = abs_m(q.mantissa as int) * secs;
    let m2 = m1 * abs_m(p.mantissa as int);
    &&& m1 <= i128::MAX as int
    &&& vol_term(q, secs) <= ACC_LIMIT
    &&& m2 <= i128::MAX as int
    &&& abs_m(cash_term(q, p, secs)) <= ACC_LIMIT
}

/// Whether folding one trade into a bucket holding the given totals succeeds,
/// given that the trade is already routed to its own area's accumulator.
pub open spec fn step_ok(prior_vol: int, prior_cash: int, q: Dec, p: Option<Dec>, start: int, end: int) -> bool {
    p matches Some(p) ==> {
        &&& duration_fits(start, end)
        &&& terms_ok(q, p, end - start)
        &&& prior_vol + vol_term(q, end - start) <= ACC_LIMIT
        &&& -ACC_LIMIT <= prior_cash + cash_term(q, p, end - start) <= ACC_LIMIT
    }
}

/// The error a failing fold step reports: the duration conversion is checked
/// first, every later failure is a numeric-range failure.
pub open spec fn step_error(start: int, end: int) -> Error {
    if !duration_fits(start, end) {
        Error::DurationOverflow
    } else {
        Error::AmountOverflow
    }
}

/// The volume numerator a side-tagged trade adds to the given bucket: its
/// contribution if it is priced and routed there, zero otherwise.
pub open spec fn vol_term_in_bucket(t: Trade, a: Area, sd: TradeSide, mk: Market) -> int {
    if t.price is Some && t.area == a && t.trade_side == sd && market_of(t.trade_type) == mk {
        vol_term(t.quantity_mwh, t.delivery_end - t.delivery_start)
    } else {
        0
    }
}

/// The cash-flow numerator a side-tagged trade adds to the given bucket.
pub open spec fn cash_term_in_bucket(t: Trade, a: Area, sd: TradeSide, mk: Market) -> int {
    match t.price {
        Some(p) => if t.area == a && t.trade_side == sd && market_of(t.trade_type) == mk {
            cash_term(t.quantity_mwh, p, t.delivery_end - t.delivery_start)
        } else {
            0
        },
        None => 0,
    }
}

/// Total volume numerator of a bucket after folding a sequence of
/// side-tagged trades.
pub open spec fn sum_vol(s: Seq<Trade>, a: Area, sd: TradeSide, mk: Market) -> int
    decreases s.len(),
{
    if s.len() == 0 {
        0
    } else {
        sum_vol(s.drop_last(), a, sd, mk) + vol_term_in_bucket(s.last(), a, sd, mk)
    }
}

/// Total cash-flow numerator of a bucket after folding a sequence of
/// side-tagged trades.
pub open spec fn sum_cash(s: Seq<Trade>, a: Area, sd: TradeSide, mk: Market) -> int
    decreases s.len(),
{
    if s.len() == 0 {
        0
    } else {
        sum_cash(s.drop_last(), a, sd, mk) + cash_term_in_bucket(s.last(), a, sd, mk)
    }
}

/// Outcome of folding one more side-tagged trade after a prefix that folded
/// cleanly.
pub open spec fn step_outcome(prefix: Seq<Trade>, t: Trade) -> Option<Error> {
    let a = t.area;
    let sd = t.trade_side;
    let mk = market_of(t.trade_type);
    if step_ok(
        sum_vol(prefix, a, sd, mk),
        sum_cash(prefix, a, sd, mk),
        t.quantity_mwh,
        t.price,
        t.delivery_start as int,
        t.delivery_end as int,
    ) {
        None
    } else {
        Some(step_error(t.delivery_start as int, t.delivery_end as int))
    }
}

/// Outcome of folding a sequence of side-tagged trades, each routed to its
/// own area: `None` when every step succeeds, otherwise the first failure.
pub open spec fn fold_error(s: Seq<Trade>) -> Option<Error>
    decreases s.len(),
{
    if s.len() == 0 {
        None
    } else {
        match fold_error(s.drop_last()) {
            Some(e) => Some(e),
            None => step_outcome(s.drop_last(), s.last()),
        }
    }
}

/// The volume numerator a sign-tagged trade adds to the given bucket; its
/// side is derived from the sign of the quantity.
pub open spec fn vol_term_in_bucket_rpt(t: TradeForReport, a: Area, sd: TradeSide, mk: Market) -> int {
    if t.price is Some && t.area == a && side_of_quantity(t.quantity_mwh) == sd && market_of(
        t.trade_type,
    ) == mk {
        vol_term(t.quantity_mwh, t.delivery_end - t.delivery_start)
    } else {
        0
    }
}

/// The cash-flow numerator a sign-tagged trade adds to the given bucket.
pub open spec fn cash_term_in_bucket_rpt(t: TradeForReport, a: Area, sd: TradeSide, mk: Market) -> int {
    match t.price {
        Some(p) => if t.area == a && side_of_quantity(t.quantity_mwh) == sd && market_of(
            t.trade_type,
        ) == mk {
            cash_term(t.quantity_mwh, p, t.delivery_end - t.delivery_start)
        } else {
            0
        },
        None => 0,
    }
}

/// Total volume numerator of a bucket after folding sign-tagged trades.
pub open spec fn sum_vol_rpt(s: Seq<TradeForReport>, a: Area, sd: TradeSide, mk: Market) -> int
    decreases s.len(),
{
    if s.len() == 0 {
        0
    } else {
        sum_vol_rpt(s.drop_last(), a, sd, mk) + vol_term_in_bucket_rpt(s.last(), a, sd, mk)
    }
}

/// Total cash-flow numerator of a bucket after folding sign-tagged trades.
pub open spec fn sum_cash_rpt(s: Seq<TradeForReport>, a: Area, sd: TradeSide, mk: Market) -> int
    decreases s.len(),
{
    if s.len() == 0 {
        0
    } else {
        sum_cash_rpt(s.drop_last(), a, sd, mk) + cash_term_in_bucket_rpt(s.last(), a, sd, mk)
    }
}

/// Outcome of folding one more sign-tagged trade after a prefix that folded
/// cleanly.
pub open spec fn step_outcome_rpt(prefix: Seq<TradeForReport>, t: TradeForReport) -> Option<
    Error,
> {
    let a = t.area;
    let sd = side_of_quantity(t.quantity_mwh);
    let mk = market_of(t.trade_type);
    if step_ok(
        sum_vol_rpt(prefix, a, sd, mk),
        sum_cash_rpt(prefix, a, sd, mk),
        t.quantity_mwh,
        t.price,
        t.delivery_start as int,
        t.delivery_end as int,
    ) {
        None
    } else {
        Some(step_error(t.delivery_start as int, t.delivery_end as int))
    }
}

/// Outcome of folding a sequence of sign-tagged trades.
pub open spec fn fold_error_rpt(s: Seq<TradeForReport>) -> Option<Error>
    decreases s.len(),
{
    if s.len() == 0 {
        None
    } else {
        match fold_error_rpt(s.drop_last()) {
            Some(e) => Some(e),
            None => step_outcome_rpt(s.drop_last(), s.last()),
        }
    }
}


/// Taking one more element adds that element's terms to the bucket sums.
pub proof fn lemma_sum_take_step(s: Seq<Trade>, i: int, a: Area, sd: TradeSide, mk: Market)
    requires
        0 <= i < s.len(),
    ensures
        sum_vol(s.take(i + 1), a, sd, mk) == sum_vol(s.take(i), a, sd, mk) + vol_term_in_bucket(
            s[i],
            a,
            sd,
            mk,
        ),
        sum_cash(s.take(i + 1), a, sd, mk) == sum_cash(s.take(i), a, sd, mk) + cash_term_in_bucket(
            s[i],
            a,
            sd,
            mk,
        ),
{
    assert(s.take(i + 1).drop_last() =~= s.take(i));
    assert(s.take(i + 1).last() == s[i]);
}

/// Taking one more element adds that element's terms to the bucket sums.
pub proof fn lemma_sum_rpt_take_step(
    s: Seq<TradeForReport>,
    i: int,
    a: Area,
    sd: TradeSide,
    mk: Market,
)
    requires
        0 <= i < s.len(),
    ensures
        sum_vol_rpt(s.take(i + 1), a, sd, mk) == sum_vol_rpt(s.take(i), a, sd, mk)
            + vol_term_in_bucket_rpt(s[i], a, sd, mk),
        sum_cash_rpt(s.take(i + 1), a, sd, mk) == sum_cash_rpt(s.take(i), a, sd, mk)
            + cash_term_in_bucket_rpt(s[i], a, sd, mk),
{
    assert(s.take(i + 1).drop_last() =~= s.take(i));
    assert(s.take(i + 1).last() == s[i]);
}

/// One more fold step after a clean prefix has the step's own outcome.
pub proof fn lemma_fold_error_take_step(s: Seq<Trade>, i: int)
    requires
        0 <= i < s.len(),
        fold_error(s.take(i)) is None,
    ensures
        fold_error(s.take(i + 1)) == step_outcome(s.take(i), s[i]),
{
    assert(s.take(i + 1).drop_last() =~= s.take(i));
    assert(s.take(i + 1).last() == s[i]);
}

/// One more fold step after a clean prefix has the step's own outcome.
pub proof fn lemma_fold_error_rpt_take_step(s: Seq<TradeForReport>, i: int)
    requires
        0 <= i < s.len(),
        fold_error_rpt(s.take(i)) is None,
    ensures
        fold_error_rpt(s.take(i + 1)) == step_outcome_rpt(s.take(i), s[i]),
{
    assert(s.take(i + 1).drop_last() =~= s.take(i));
    assert(s.take(i + 1).last() == s[i]);
}

/// A fold failure in a prefix is the failure of the whole sequence.
pub proof fn lemma_fold_error_prefix(s: Seq<Trade>, k: int)
    requires
        0 <= k <= s.len(),
        fold_error(s.take(k)) is Some,
    ensures
        fold_error(s) == fold_error(s.take(k)),
    decreases s.len(),
{
    if k == s.len() {
        assert(s.take(k) =~= s);
    } else {
        assert(s.drop_last().take(k) =~= s.take(k));
        lemma_fold_error_prefix(s.drop_last(), k);
    }
}

/// A fold failure in a prefix is the failure of the whole sequence.
pub proof fn lemma_fold_error_rpt_prefix(s: Seq<TradeForReport>, k: int)
    requires
        0 <= k <= s.len(),
        fold_error_rpt(s.take(k)) is Some,
    ensures
        fold_error_rpt(s) == fold_error_rpt(s.take(k)),
    decreases s.len(),
{
    if k == s.len() {
        assert(s.take(k) =~= s);
    } else {
        assert(s.drop_last().take(k) =~= s.take(k));
        lemma_fold_error_rpt_prefix(s.drop_last(), k);
    }
}

} // verus!
