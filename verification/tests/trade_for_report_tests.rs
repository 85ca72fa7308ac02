use trade_report::{Area, AreaSelection, Dec, Error, MarketSelection, TradeForReport, TradeType};
use trade_report::report::{Report, ReportEntry};

const HOUR: i64 = 3600;

fn record(
    area: Area,
    trade_type: TradeType,
    quantity: Dec,
    price: Option<Dec>,
    start: i64,
    end: i64,
) -> TradeForReport {
    TradeForReport {
        area,
        delivery_end: end,
        delivery_start: start,
        price,
        quantity_mwh: quantity,
        trade_type,
    }
}

#[test]
fn negative_quantity_is_a_sale() {
    let sold = record(
        Area::Amp,
        TradeType::AuctionEurDahH,
        Dec::new(-4, 0),
        Some(Dec::new(80, 0)),
        0,
        HOUR,
    );
    let report = Report::new_from_trade_for_report(0, HOUR, vec![sold]).unwrap();
    let amp = AreaSelection::Specific(Area::Amp);
    assert_eq!(report.revenue(MarketSelection::All, amp), Dec::new(32000, 2));
    assert_eq!(report.mw_sold(MarketSelection::All, amp), Dec::new(40, 1));
    assert_eq!(report.costs(MarketSelection::All, amp), Dec::new(0, 2));
}

#[test]
fn non_negative_quantity_is_a_purchase() {
    let bought = record(
        Area::DK1,
        TradeType::Intraday,
        Dec::new(5, 0),
        Some(Dec::new(60, 0)),
        0,
        HOUR,
    );
    let report = Report::new_from_trade_for_report(0, HOUR, vec![bought]).unwrap();
    let dk1 = AreaSelection::Specific(Area::DK1);
    assert_eq!(report.costs(MarketSelection::All, dk1), Dec::new(30000, 2));
    assert_eq!(report.mw_bought(MarketSelection::All, dk1), Dec::new(50, 1));
    assert_eq!(report.revenue(MarketSelection::All, dk1), Dec::new(0, 2));
}

#[test]
fn sign_tagged_scenario_matches_side_tagged_totals() {
    let records = vec![
        record(Area::Amp, TradeType::Intraday, Dec::new(10, 0), Some(Dec::new(50, 0)), 0, HOUR),
        record(
            Area::Amp,
            TradeType::AuctionEurDahH,
            Dec::new(-4, 0),
            Some(Dec::new(80, 0)),
            0,
            HOUR,
        ),
        record(Area::DK1, TradeType::Intraday, Dec::new(5, 0), Some(Dec::new(60, 0)), 0, HOUR),
    ];
    let report = Report::new_from_trade_for_report(0, HOUR, records).unwrap();
    let amp = AreaSelection::Specific(Area::Amp);
    assert_eq!(report.revenue(MarketSelection::All, amp), Dec::new(32000, 2));
    assert_eq!(report.costs(MarketSelection::All, amp), Dec::new(50000, 2));
    assert_eq!(report.gross_profit(MarketSelection::All, amp), Dec::new(-18000, 2));
}

#[test]
fn entry_rejects_misrouted_sign_tagged_record() {
    let mut entry = ReportEntry::new(Area::GB);
    let misrouted = record(
        Area::FR,
        TradeType::Intraday,
        Dec::new(1, 0),
        Some(Dec::new(1, 0)),
        0,
        HOUR,
    );
    assert_eq!(entry.add_trade_for_report(&misrouted), Err(Error::AreaMismatch));
}

#[test]
fn unpriced_sign_tagged_record_is_skipped() {
    let unpriced = record(Area::NL, TradeType::Imbalance, Dec::new(-9, 0), None, 0, HOUR);
    let report = Report::new_from_trade_for_report(0, HOUR, vec![unpriced]).unwrap();
    let nl = AreaSelection::Specific(Area::NL);
    assert_eq!(report.revenue(MarketSelection::All, nl), Dec::new(0, 2));
    assert_eq!(report.mw_sold(MarketSelection::All, nl), Dec::new(0, 1));
}
