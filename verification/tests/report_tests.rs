use trade_report::{
    Area, AreaSelection, CounterPart, Dec, Error, Market, MarketSelection, Trade, TradeSide,
    TradeType,
};
use trade_report::report::{Report, ReportBuilder, ReportEntry, contract_length_seconds};

const HOUR: i64 = 3600;

fn dec(mantissa: i128, scale: u32) -> Dec {
    Dec::new(mantissa, scale)
}

fn trade(
    area: Area,
    side: TradeSide,
    trade_type: TradeType,
    quantity: Dec,
    price: Option<Dec>,
    start: i64,
    end: i64,
) -> Trade {
    Trade {
        id: 0,
        area,
        counter_part: CounterPart::Nordpool,
        delivery_end: end,
        delivery_start: start,
        price,
        quantity_mwh: quantity,
        trade_side: side,
        trade_type,
    }
}

fn scenario_trades() -> Vec<Trade> {
    vec![
        trade(
            Area::Amp,
            TradeSide::Buy,
            TradeType::Intraday,
            dec(10, 0),
            Some(dec(50, 0)),
            0,
            HOUR,
        ),
        trade(
            Area::Amp,
            TradeSide::Sell,
            TradeType::AuctionEurDahH,
            dec(4, 0),
            Some(dec(80, 0)),
            0,
            HOUR,
        ),
        trade(
            Area::DK1,
            TradeSide::Buy,
            TradeType::Intraday,
            dec(5, 0),
            Some(dec(60, 0)),
            0,
            HOUR,
        ),
    ]
}

#[test]
fn end_to_end_scenario_key_metrics() {
    let report = Report::new(0, HOUR, scenario_trades()).unwrap();
    let amp = AreaSelection::Specific(Area::Amp);
    assert_eq!(report.revenue(MarketSelection::All, amp), dec(32000, 2));
    assert_eq!(report.costs(MarketSelection::All, amp), dec(50000, 2));
    assert_eq!(report.gross_profit(MarketSelection::All, amp), dec(-18000, 2));
    assert_eq!(
        report.mw_bought(MarketSelection::All, AreaSelection::Specific(Area::DK1)),
        dec(50, 1)
    );
}

#[test]
fn all_selectors_sum_every_area_and_market() {
    let report = Report::new(0, HOUR, scenario_trades()).unwrap();
    assert_eq!(report.revenue(MarketSelection::All, AreaSelection::All), dec(32000, 2));
    assert_eq!(report.costs(MarketSelection::All, AreaSelection::All), dec(80000, 2));
    assert_eq!(report.gross_profit(MarketSelection::All, AreaSelection::All), dec(-48000, 2));
    assert_eq!(report.mw_bought(MarketSelection::All, AreaSelection::All), dec(150, 1));
    assert_eq!(report.mw_sold(MarketSelection::All, AreaSelection::All), dec(40, 1));
}

#[test]
fn market_filter_separates_markets() {
    let report = Report::new(0, HOUR, scenario_trades()).unwrap();
    let amp = AreaSelection::Specific(Area::Amp);
    assert_eq!(report.revenue(MarketSelection::Specific(Market::Auction), amp), dec(32000, 2));
    assert_eq!(report.revenue(MarketSelection::Specific(Market::Intraday), amp), dec(0, 2));
    assert_eq!(report.costs(MarketSelection::Specific(Market::Intraday), amp), dec(50000, 2));
    assert_eq!(report.costs(MarketSelection::Specific(Market::Imbalance), amp), dec(0, 2));
}

#[test]
fn single_buy_intraday_hour_volume_and_cost() {
    let t = trade(
        Area::GB,
        TradeSide::Buy,
        TradeType::Intraday,
        dec(105, 1),
        Some(dec(4999, 2)),
        0,
        HOUR,
    );
    let report = Report::new(0, HOUR, vec![t]).unwrap();
    let gb = AreaSelection::Specific(Area::GB);
    let intraday = MarketSelection::Specific(Market::Intraday);
    // |10.5| rounded to one decimal.
    assert_eq!(report.mw_bought(intraday, gb), dec(105, 1));
    // 10.5 * 49.99 = 524.895, which rounds half-to-even to 524.90.
    assert_eq!(report.costs(intraday, gb), dec(52490, 2));
}

#[test]
fn negative_quantity_counts_by_magnitude_under_side_tag() {
    let t = trade(
        Area::FR,
        TradeSide::Buy,
        TradeType::Intraday,
        dec(-7, 0),
        Some(dec(10, 0)),
        0,
        HOUR,
    );
    let report = Report::new(0, HOUR, vec![t]).unwrap();
    let fr = AreaSelection::Specific(Area::FR);
    assert_eq!(report.mw_bought(MarketSelection::All, fr), dec(70, 1));
    assert_eq!(report.costs(MarketSelection::All, fr), dec(7000, 2));
    assert_eq!(report.mw_sold(MarketSelection::All, fr), dec(0, 1));
}

#[test]
fn two_hour_interval_doubles_contribution() {
    let one_hour = trade(
        Area::NL,
        TradeSide::Buy,
        TradeType::Intraday,
        dec(10, 0),
        Some(dec(50, 0)),
        0,
        HOUR,
    );
    let two_hour = trade(
        Area::NL,
        TradeSide::Buy,
        TradeType::Intraday,
        dec(10, 0),
        Some(dec(50, 0)),
        0,
        2 * HOUR,
    );
    let nl = AreaSelection::Specific(Area::NL);
    let r1 = Report::new(0, 2 * HOUR, vec![one_hour]).unwrap();
    let r2 = Report::new(0, 2 * HOUR, vec![two_hour]).unwrap();
    assert_eq!(r1.mw_bought(MarketSelection::All, nl), dec(100, 1));
    assert_eq!(r2.mw_bought(MarketSelection::All, nl), dec(200, 1));
    assert_eq!(r1.costs(MarketSelection::All, nl), dec(50000, 2));
    assert_eq!(r2.costs(MarketSelection::All, nl), dec(100000, 2));
}

#[test]
fn unpriced_trade_contributes_zero_everywhere() {
    let priced = scenario_trades();
    let mut with_unpriced = scenario_trades();
    with_unpriced.push(trade(
        Area::Amp,
        TradeSide::Buy,
        TradeType::Imbalance,
        dec(1000, 0),
        None,
        0,
        HOUR,
    ));
    let r1 = Report::new(0, HOUR, priced).unwrap();
    let r2 = Report::new(0, HOUR, with_unpriced).unwrap();
    for market in [
        MarketSelection::All,
        MarketSelection::Specific(Market::Auction),
        MarketSelection::Specific(Market::Intraday),
        MarketSelection::Specific(Market::Imbalance),
    ] {
        for area in [
            AreaSelection::All,
            AreaSelection::Specific(Area::Amp),
            AreaSelection::Specific(Area::DK1),
        ] {
            assert_eq!(r1.revenue(market, area), r2.revenue(market, area));
            assert_eq!(r1.costs(market, area), r2.costs(market, area));
            assert_eq!(r1.mw_sold(market, area), r2.mw_sold(market, area));
            assert_eq!(r1.mw_bought(market, area), r2.mw_bought(market, area));
            assert_eq!(r1.gross_profit(market, area), r2.gross_profit(market, area));
        }
    }
}

#[test]
fn only_unpriced_trade_means_all_zero() {
    let t = trade(Area::SE1, TradeSide::Sell, TradeType::Imbalance, dec(9, 0), None, 0, HOUR);
    let report = Report::new(0, HOUR, vec![t]).unwrap();
    let se1 = AreaSelection::Specific(Area::SE1);
    assert_eq!(report.revenue(MarketSelection::All, se1), dec(0, 2));
    assert_eq!(report.costs(MarketSelection::All, se1), dec(0, 2));
    assert_eq!(report.mw_sold(MarketSelection::All, se1), dec(0, 1));
    assert_eq!(report.mw_bought(MarketSelection::All, se1), dec(0, 1));
    assert_eq!(report.gross_profit(MarketSelection::All, se1), dec(0, 2));
}

#[test]
fn gross_profit_is_revenue_minus_costs_for_every_selector() {
    let report = Report::new(0, HOUR, scenario_trades()).unwrap();
    for market in [
        MarketSelection::All,
        MarketSelection::Specific(Market::Auction),
        MarketSelection::Specific(Market::Intraday),
        MarketSelection::Specific(Market::Imbalance),
    ] {
        for area in [
            AreaSelection::All,
            AreaSelection::Specific(Area::Amp),
            AreaSelection::Specific(Area::DK1),
            AreaSelection::Specific(Area::SE3),
        ] {
            let revenue = report.revenue(market, area);
            let costs = report.costs(market, area);
            let gross = report.gross_profit(market, area);
            assert_eq!(gross.mantissa, revenue.mantissa - costs.mantissa);
            assert_eq!(gross.scale, 2);
        }
    }
}

#[test]
fn querying_untouched_area_returns_zero() {
    let report = Report::new(0, HOUR, scenario_trades()).unwrap();
    let se3 = AreaSelection::Specific(Area::SE3);
    for market in [
        MarketSelection::All,
        MarketSelection::Specific(Market::Auction),
        MarketSelection::Specific(Market::Intraday),
        MarketSelection::Specific(Market::Imbalance),
    ] {
        assert_eq!(report.revenue(market, se3), dec(0, 2));
        assert_eq!(report.costs(market, se3), dec(0, 2));
        assert_eq!(report.mw_sold(market, se3), dec(0, 1));
        assert_eq!(report.mw_bought(market, se3), dec(0, 1));
        assert_eq!(report.gross_profit(market, se3), dec(0, 2));
    }
}

#[test]
fn empty_batch_builds_an_all_zero_report() {
    let report = Report::new(0, HOUR, Vec::new()).unwrap();
    assert_eq!(report.revenue(MarketSelection::All, AreaSelection::All), dec(0, 2));
    assert_eq!(report.mw_bought(MarketSelection::All, AreaSelection::All), dec(0, 1));
}

#[test]
fn inverted_window_is_rejected() {
    let result = Report::new(HOUR, 0, scenario_trades());
    assert_eq!(result.unwrap_err(), Error::InvalidWindow);
    let builder = ReportBuilder::new(5, 4);
    assert_eq!(builder.unwrap_err(), Error::InvalidWindow);
    let for_report = Report::new_from_trade_for_report(1, 0, Vec::new());
    assert_eq!(for_report.unwrap_err(), Error::InvalidWindow);
}

#[test]
fn fold_order_does_not_change_any_query() {
    let mut reversed = scenario_trades();
    reversed.reverse();
    let mut rotated = scenario_trades();
    let first = rotated.remove(0);
    rotated.push(first);
    let r1 = Report::new(0, HOUR, scenario_trades()).unwrap();
    let r2 = Report::new(0, HOUR, reversed).unwrap();
    let r3 = Report::new(0, HOUR, rotated).unwrap();
    for market in [MarketSelection::All, MarketSelection::Specific(Market::Intraday)] {
        for area in [AreaSelection::All, AreaSelection::Specific(Area::Amp)] {
            assert_eq!(r1.revenue(market, area), r2.revenue(market, area));
            assert_eq!(r1.revenue(market, area), r3.revenue(market, area));
            assert_eq!(r1.costs(market, area), r2.costs(market, area));
            assert_eq!(r1.costs(market, area), r3.costs(market, area));
            assert_eq!(r1.mw_bought(market, area), r2.mw_bought(market, area));
            assert_eq!(r1.mw_bought(market, area), r3.mw_bought(market, area));
        }
    }
}

#[test]
fn builder_fold_matches_bulk_fold() {
    let mut builder = ReportBuilder::new(0, HOUR).unwrap();
    for t in scenario_trades() {
        builder.push_trade(&t).unwrap();
    }
    let streamed = builder.finish();
    let bulk = Report::new(0, HOUR, scenario_trades()).unwrap();
    assert_eq!(
        streamed.revenue(MarketSelection::All, AreaSelection::All),
        bulk.revenue(MarketSelection::All, AreaSelection::All)
    );
    assert_eq!(
        streamed.gross_profit(MarketSelection::All, AreaSelection::Specific(Area::Amp)),
        bulk.gross_profit(MarketSelection::All, AreaSelection::Specific(Area::Amp))
    );
}

#[test]
fn entry_rejects_trade_routed_to_wrong_area() {
    let mut entry = ReportEntry::new(Area::Amp);
    let misrouted = trade(
        Area::DK1,
        TradeSide::Buy,
        TradeType::Intraday,
        dec(1, 0),
        Some(dec(1, 0)),
        0,
        HOUR,
    );
    assert_eq!(entry.add_trade(&misrouted), Err(Error::AreaMismatch));
}

#[test]
fn entry_accepts_unpriced_trade_as_no_op() {
    let mut entry = ReportEntry::new(Area::Amp);
    let unpriced = trade(Area::Amp, TradeSide::Buy, TradeType::Intraday, dec(3, 0), None, 0, HOUR);
    assert_eq!(entry.add_trade(&unpriced), Ok(()));
}

#[test]
fn oversized_duration_fails_the_fold() {
    let t = trade(
        Area::Amp,
        TradeSide::Buy,
        TradeType::Intraday,
        dec(1, 0),
        Some(dec(1, 0)),
        -1,
        i64::MAX,
    );
    let result = Report::new(0, HOUR, vec![t]);
    assert_eq!(result.unwrap_err(), Error::DurationOverflow);
}

#[test]
fn oversized_contribution_fails_the_fold() {
    let huge = 100_000_000_000_000_000_000_000_000_000i128;
    let t = trade(
        Area::Amp,
        TradeSide::Buy,
        TradeType::Intraday,
        dec(huge, 0),
        Some(dec(huge, 0)),
        0,
        HOUR,
    );
    let result = Report::new(0, HOUR, vec![t]);
    assert_eq!(result.unwrap_err(), Error::AmountOverflow);
}

#[test]
fn contract_length_in_seconds() {
    assert_eq!(contract_length_seconds(0, 7200), Ok(7200));
    assert_eq!(contract_length_seconds(100, 100), Ok(0));
    assert_eq!(contract_length_seconds(i64::MIN, i64::MAX), Err(Error::DurationOverflow));
}

#[test]
fn classification_covers_every_trade_type() {
    assert_eq!(Market::from(TradeType::Intraday), Market::Intraday);
    assert_eq!(Market::from(TradeType::Imbalance), Market::Imbalance);
    for auction in [
        TradeType::AuctionGbDahH,
        TradeType::AuctionGbDahHh,
        TradeType::AuctionGbId1Hh,
        TradeType::AuctionGbId2Hh,
        TradeType::AuctionEurDahH,
        TradeType::AuctionEurId1H,
        TradeType::AuctionEurId2H,
        TradeType::AuctionEurId3H,
    ] {
        assert_eq!(Market::from(auction), Market::Auction);
    }
}

#[test]
fn volume_rounding_is_half_to_even() {
    let down = trade(
        Area::NO2,
        TradeSide::Buy,
        TradeType::Intraday,
        dec(1025, 2),
        Some(dec(1, 0)),
        0,
        HOUR,
    );
    let up = trade(
        Area::SE1,
        TradeSide::Buy,
        TradeType::Intraday,
        dec(1035, 2),
        Some(dec(1, 0)),
        0,
        HOUR,
    );
    let report = Report::new(0, HOUR, vec![down, up]).unwrap();
    // 10.25 ties to the even 10.2; 10.35 ties to the even 10.4.
    assert_eq!(
        report.mw_bought(MarketSelection::All, AreaSelection::Specific(Area::NO2)),
        dec(102, 1)
    );
    assert_eq!(
        report.mw_bought(MarketSelection::All, AreaSelection::Specific(Area::SE1)),
        dec(104, 1)
    );
}

#[test]
fn money_rounding_is_half_to_even() {
    let half_cent_down = trade(
        Area::GB,
        TradeSide::Sell,
        TradeType::Intraday,
        dec(1, 0),
        Some(dec(5, 3)),
        0,
        HOUR,
    );
    let half_cent_up = trade(
        Area::FR,
        TradeSide::Sell,
        TradeType::Intraday,
        dec(1, 0),
        Some(dec(15, 3)),
        0,
        HOUR,
    );
    let report = Report::new(0, HOUR, vec![half_cent_down, half_cent_up]).unwrap();
    // 0.005 ties to the even 0.00; 0.015 ties to the even 0.02.
    assert_eq!(
        report.revenue(MarketSelection::All, AreaSelection::Specific(Area::GB)),
        dec(0, 2)
    );
    assert_eq!(
        report.revenue(MarketSelection::All, AreaSelection::Specific(Area::FR)),
        dec(2, 2)
    );
}

#[test]
fn negative_price_carries_its_sign_into_cash_flow() {
    let t = trade(
        Area::DK2,
        TradeSide::Sell,
        TradeType::Imbalance,
        dec(2, 0),
        Some(dec(-25, 0)),
        0,
        HOUR,
    );
    let report = Report::new(0, HOUR, vec![t]).unwrap();
    let dk2 = AreaSelection::Specific(Area::DK2);
    assert_eq!(report.revenue(MarketSelection::All, dk2), dec(-5000, 2));
    assert_eq!(report.mw_sold(MarketSelection::All, dk2), dec(20, 1));
}
