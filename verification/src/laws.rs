//! The laws of the aggregation, proved once and for all: order-independence
//! of the fold, the vanishing of un-priced trades and untouched areas, the
//! length adjustment, and the single-trade query values.

use vstd::prelude::*;
use vstd::arithmetic::power::{lemma_pow_adds, lemma_pow_positive, pow};
use vstd::seq_lib::group_to_multiset_ensures;
use crate::agg::{
    abs_m, cash_term, cash_term_in_bucket, cash_term_in_bucket_rpt, fold_error, sum_cash,
    sum_cash_rpt, sum_vol, sum_vol_rpt, vol_term, vol_term_in_bucket, vol_term_in_bucket_rpt,
    ACC_SCALE,
};
use crate::decimal::Dec;
use crate::report::{MONEY_ROUND_DIV, VOLUME_ROUND_DIV};
use crate::rounding::{
    div_half_even, lemma_div_half_even_common_factor, lemma_div_half_even_exact,
    lemma_div_half_even_neg,
};
use crate::trade::{market_of, Area, Market, Trade, TradeForReport, TradeSide};

verus! {

/// Removing one trade takes exactly its own terms out of the bucket sums.
proof fn lemma_sum_remove(s: Seq<Trade>, j: int, a: Area, sd: TradeSide, mk: Market)
    requires
        0 <= j < s.len(),
    ensures
        sum_vol(s, a, sd, mk) == sum_vol(s.remove(j), a, sd, mk) + vol_term_in_bucket(
            s[j],
            a,
            sd,
            mk,
        ),
        sum_cash(s, a, sd, mk) == sum_cash(s.remove(j), a, sd, mk) + cash_term_in_bucket(
            s[j],
            a,
            sd,
            mk,
        ),
    decreases s.len(),
{
    if j == s.len() - 1 {
        assert(s.remove(j) =~= s.drop_last());
    } else {
        assert(s.remove(j).drop_last() =~= s.drop_last().remove(j));
        assert(s.remove(j).last() == s.last());
        lemma_sum_remove(s.drop_last(), j, a, sd, mk);
    }
}

/// Folding a multiset of trades accumulates the same totals in every
/// (area, side, market) bucket whatever the order of arrival, so any two
/// successfully built reports over the same trades answer every query
/// identically.
pub proof fn lemma_fold_order_independent(
    s1: Seq<Trade>,
    s2: Seq<Trade>,
    a: Area,
    sd: TradeSide,
    mk: Market,
)
    requires
        s1.to_multiset() == s2.to_multiset(),
    ensures
        sum_vol(s1, a, sd, mk) == sum_vol(s2, a, sd, mk),
        sum_cash(s1, a, sd, mk) == sum_cash(s2, a, sd, mk),
    decreases s1.len(),
{
    broadcast use group_to_multiset_ensures;

    if s1.len() == 0 {
        vstd::seq_lib::to_multiset_len(s1);
        vstd::seq_lib::to_multiset_len(s2);
        assert(s2.len() == 0);
    } else {
        let x = s1.last();
        assert(s1.contains(x));
        assert(s2.to_multiset().count(x) > 0);
        assert(s2.contains(x));
        let j = choose|j: int| 0 <= j < s2.len() && s2[j] == x;
        assert(s1.drop_last() =~= s1.remove(s1.len() - 1));
        assert(s1.drop_last().to_multiset() == s1.to_multiset().remove(x));
        assert(s2.remove(j).to_multiset() == s2.to_multiset().remove(x));
        lemma_sum_remove(s2, j, a, sd, mk);
        lemma_fold_order_independent(s1.drop_last(), s2.remove(j), a, sd, mk);
    }
}

/// A trade without a price changes neither any bucket sum nor the outcome of
/// the fold: it is skipped, not an error, and every query of a report folded
/// with it reads the same totals.
pub proof fn lemma_unpriced_trade_adds_nothing(
    s: Seq<Trade>,
    t: Trade,
    a: Area,
    sd: TradeSide,
    mk: Market,
)
    requires
        t.price is None,
    ensures
        sum_vol(s.push(t), a, sd, mk) == sum_vol(s, a, sd, mk),
        sum_cash(s.push(t), a, sd, mk) == sum_cash(s, a, sd, mk),
        fold_error(s.push(t)) == fold_error(s),
{
    assert(s.push(t).drop_last() =~= s);
    assert(s.push(t).last() == t);
}

/// An area no trade was routed to holds zero in every bucket, so each of its
/// metrics rounds to zero rather than failing.
pub proof fn lemma_untouched_area_is_zero(s: Seq<Trade>, a: Area, sd: TradeSide, mk: Market)
    requires
        forall|i: int| 0 <= i < s.len() ==> (#[trigger] s[i]).area != a,
    ensures
        sum_vol(s, a, sd, mk) == 0,
        sum_cash(s, a, sd, mk) == 0,
    decreases s.len(),
{
    if s.len() > 0 {
        assert(s.last().area != a);
        lemma_untouched_area_is_zero(s.drop_last(), a, sd, mk);
    }
}

/// Stretching a priced trade's delivery interval from one hour to two
/// doubles both of its contributions: the length adjustment multiplies the
/// raw quantity by the interval length in hours before accumulation.
pub proof fn lemma_two_hour_interval_doubles(q: Dec, p: Dec)
    ensures
        vol_term(q, 7200) == 2 * vol_term(q, 3600),
        cash_term(q, p, 7200) == 2 * cash_term(q, p, 3600),
{
    let pw = pow(10, (ACC_SCALE - q.scale) as nat);
    let pc = pow(10, (ACC_SCALE - q.scale - p.scale) as nat);
    assert(abs_m(q.mantissa as int) * 7200 * pw == 2 * (abs_m(q.mantissa as int) * 3600 * pw))
        by (nonlinear_arith);
    assert(abs_m(q.mantissa as int) * 7200 * abs_m(p.mantissa as int) * pc == 2 * (abs_m(
        q.mantissa as int,
    ) * 3600 * abs_m(p.mantissa as int) * pc)) by (nonlinear_arith);
}

/// Mantissa of the decimal `m / 10^s` rounded half-to-even to `k` fractional
/// digits.
pub open spec fn round_mantissa(m: int, s: int, k: int) -> int
    recommends
        0 <= k,
        0 <= s,
{
    if s <= k {
        m * pow(10, (k - s) as nat)
    } else {
        div_half_even(m, pow(10, (s - k) as nat))
    }
}

/// Rounding a mantissa scaled by `3600 * 10^(ACC_SCALE - s)` at the divisor
/// `3600 * 10^(ACC_SCALE - k)` is rounding the bare mantissa to `k` digits.
proof fn lemma_scaled_rounding(m: int, s: int, k: int)
    requires
        0 <= k <= ACC_SCALE,
        0 <= s <= ACC_SCALE,
    ensures
        div_half_even(
            m * 3600 * pow(10, (ACC_SCALE - s) as nat),
            3600 * pow(10, (ACC_SCALE - k) as nat),
        ) == round_mantissa(m, s, k),
{
    lemma_pow_positive(10, (ACC_SCALE - s) as nat);
    lemma_pow_positive(10, (ACC_SCALE - k) as nat);
    if s <= k {
        lemma_pow_adds(10, (ACC_SCALE - k) as nat, (k - s) as nat);
        assert(m * 3600 * pow(10, (ACC_SCALE - s) as nat) == (m * pow(10, (k - s) as nat)) * (3600
            * pow(10, (ACC_SCALE - k) as nat))) by (nonlinear_arith)
            requires
                pow(10, (ACC_SCALE - k) as nat) * pow(10, (k - s) as nat) == pow(
                    10,
                    (ACC_SCALE - s) as nat,
                ),
        ;
        lemma_div_half_even_exact(
            m * pow(10, (k - s) as nat),
            3600 * pow(10, (ACC_SCALE - k) as nat),
        );
    } else {
        lemma_pow_adds(10, (ACC_SCALE - s) as nat, (s - k) as nat);
        lemma_pow_positive(10, (s - k) as nat);
        assert(m * 3600 * pow(10, (ACC_SCALE - s) as nat) == (3600 * pow(
            10,
            (ACC_SCALE - s) as nat,
        )) * m) by (nonlinear_arith);
        assert(3600 * pow(10, (ACC_SCALE - k) as nat) == (3600 * pow(10, (ACC_SCALE - s) as nat))
            * pow(10, (s - k) as nat)) by (nonlinear_arith)
            requires
                pow(10, (ACC_SCALE - s) as nat) * pow(10, (s - k) as nat) == pow(
                    10,
                    (ACC_SCALE - k) as nat,
                ),
        ;
        lemma_div_half_even_common_factor(
            3600 * pow(10, (ACC_SCALE - s) as nat),
            m,
            pow(10, (s - k) as nat),
        );
    }
}

/// Rounding a mantissa is an odd function of the mantissa.
proof fn lemma_round_mantissa_neg(m: int, s: int, k: int)
    requires
        0 <= k,
        0 <= s,
        m >= 0,
    ensures
        round_mantissa(-m, s, k) == -round_mantissa(m, s, k),
{
    if s <= k {
        assert((-m) * pow(10, (k - s) as nat) == -(m * pow(10, (k - s) as nat)))
            by (nonlinear_arith);
    } else {
        lemma_pow_positive(10, (s - k) as nat);
        lemma_div_half_even_neg(m, pow(10, (s - k) as nat));
    }
}

/// One Buy trade on the intraday market with price `p`, quantity `q` and a
/// one-hour delivery interval: its bucket's volume rounds to `|q|` and its
/// cash flow to `|q| * p`, each at the query boundary's precision.
pub proof fn lemma_single_buy_intraday_hour(t: Trade, p: Dec)
    requires
        t.valid(),
        t.price == Some(p),
        t.trade_side == TradeSide::Buy,
        market_of(t.trade_type) == Market::Intraday,
        t.delivery_end - t.delivery_start == 3600,
    ensures
        div_half_even(
            sum_vol(seq![t], t.area, TradeSide::Buy, Market::Intraday),
            VOLUME_ROUND_DIV as int,
        ) == round_mantissa(abs_m(t.quantity_mwh.mantissa as int), t.quantity_mwh.scale as int, 1),
        div_half_even(
            sum_cash(seq![t], t.area, TradeSide::Buy, Market::Intraday),
            MONEY_ROUND_DIV as int,
        ) == round_mantissa(
            abs_m(t.quantity_mwh.mantissa as int) * p.mantissa,
            t.quantity_mwh.scale + p.scale,
            2,
        ),
{
    let q = t.quantity_mwh;
    let aq = abs_m(q.mantissa as int);
    let ap = abs_m(p.mantissa as int);
    assert(seq![t].drop_last() =~= Seq::<Trade>::empty());
    assert(sum_vol(Seq::<Trade>::empty(), t.area, TradeSide::Buy, Market::Intraday) == 0);
    assert(sum_cash(Seq::<Trade>::empty(), t.area, TradeSide::Buy, Market::Intraday) == 0);
    assert(seq![t].last() == t);
    assert(sum_vol(seq![t], t.area, TradeSide::Buy, Market::Intraday) == vol_term(q, 3600));
    assert(sum_cash(seq![t], t.area, TradeSide::Buy, Market::Intraday) == cash_term(q, p, 3600));
    assert(VOLUME_ROUND_DIV as int == 3600 * pow(10, (ACC_SCALE - 1) as nat)) by {
        reveal_with_fuel(pow, 24);
    }
    assert(MONEY_ROUND_DIV as int == 3600 * pow(10, (ACC_SCALE - 2) as nat)) by {
        reveal_with_fuel(pow, 23);
    }
    lemma_scaled_rounding(aq, q.scale as int, 1);
    assert(div_half_even(vol_term(q, 3600), VOLUME_ROUND_DIV as int) == round_mantissa(
        aq,
        q.scale as int,
        1,
    ));
    lemma_scaled_rounding(aq * ap, q.scale + p.scale, 2);
    assert(aq * 3600 * ap * pow(10, (ACC_SCALE - q.scale - p.scale) as nat) == (aq * ap) * 3600
        * pow(10, (ACC_SCALE - q.scale - p.scale) as nat)) by (nonlinear_arith);
    assert(pow(10, (ACC_SCALE - q.scale - p.scale) as nat) == pow(
        10,
        (ACC_SCALE - (q.scale + p.scale)) as nat,
    ));
    if p.mantissa < 0 {
        assert(cash_term(q, p, 3600) == -(aq * 3600 * ap * pow(
            10,
            (ACC_SCALE - q.scale - p.scale) as nat,
        )));
        lemma_pow_positive(10, (ACC_SCALE - q.scale - p.scale) as nat);
        assert(aq * ap >= 0 && aq * 3600 * ap * pow(10, (ACC_SCALE - q.scale - p.scale) as nat)
            >= 0) by (nonlinear_arith)
            requires
                aq >= 0,
                ap >= 0,
                pow(10, (ACC_SCALE - q.scale - p.scale) as nat) > 0,
        ;
        lemma_div_half_even_neg(
            aq * 3600 * ap * pow(10, (ACC_SCALE - q.scale - p.scale) as nat),
            MONEY_ROUND_DIV as int,
        );
        lemma_round_mantissa_neg(aq * ap, q.scale + p.scale, 2);
        assert(aq * p.mantissa == -(aq * ap)) by (nonlinear_arith)
            requires
                p.mantissa < 0,
                ap == -(p.mantissa as int),
        ;
    } else {
        assert(cash_term(q, p, 3600) == aq * 3600 * ap * pow(
            10,
            (ACC_SCALE - q.scale - p.scale) as nat,
        ));
        assert(aq * p.mantissa == aq * ap);
    }
}


/// Removing one record takes exactly its own terms out of the bucket sums.
proof fn lemma_sum_rpt_remove(s: Seq<TradeForReport>, j: int, a: Area, sd: TradeSide, mk: Market)
    requires
        0 <= j < s.len(),
    ensures
        sum_vol_rpt(s, a, sd, mk) == sum_vol_rpt(s.remove(j), a, sd, mk) + vol_term_in_bucket_rpt(
            s[j],
            a,
            sd,
            mk,
        ),
        sum_cash_rpt(s, a, sd, mk) == sum_cash_rpt(s.remove(j), a, sd, mk)
            + cash_term_in_bucket_rpt(s[j], a, sd, mk),
    decreases s.len(),
{
    if j == s.len() - 1 {
        assert(s.remove(j) =~= s.drop_last());
    } else {
        assert(s.remove(j).drop_last() =~= s.drop_last().remove(j));
        assert(s.remove(j).last() == s.last());
        lemma_sum_rpt_remove(s.drop_last(), j, a, sd, mk);
    }
}

/// Folding a multiset of sign-tagged records accumulates the same totals in
/// every bucket whatever the order of arrival.
pub proof fn lemma_fold_order_independent_rpt(
    s1: Seq<TradeForReport>,
    s2: Seq<TradeForReport>,
    a: Area,
    sd: TradeSide,
    mk: Market,
)
    requires
        s1.to_multiset() == s2.to_multiset(),
    ensures
        sum_vol_rpt(s1, a, sd, mk) == sum_vol_rpt(s2, a, sd, mk),
        sum_cash_rpt(s1, a, sd, mk) == sum_cash_rpt(s2, a, sd, mk),
    decreases s1.len(),
{
    broadcast use group_to_multiset_ensures;

    if s1.len() == 0 {
        vstd::seq_lib::to_multiset_len(s1);
        vstd::seq_lib::to_multiset_len(s2);
        assert(s2.len() == 0);
    } else {
        let x = s1.last();
        assert(s1.contains(x));
        assert(s2.to_multiset().count(x) > 0);
        assert(s2.contains(x));
        let j = choose|j: int| 0 <= j < s2.len() && s2[j] == x;
        assert(s1.drop_last() =~= s1.remove(s1.len() - 1));
        assert(s1.drop_last().to_multiset() == s1.to_multiset().remove(x));
        assert(s2.remove(j).to_multiset() == s2.to_multiset().remove(x));
        lemma_sum_rpt_remove(s2, j, a, sd, mk);
        lemma_fold_order_independent_rpt(s1.drop_last(), s2.remove(j), a, sd, mk);
    }
}

} // verus!
