use longport::types::{Market, TradeSession};

/// Unix timestamp of a local date-time at a fixed whole-hour UTC offset.
fn ts(y: i32, month: u8, d: u8, h: u8, mi: u8, s: u8, offset_hours: i8) -> i64 {
    let m = time::Month::try_from(month).unwrap();
    let date = time::Date::from_calendar_date(y, m, d).unwrap();
    let t = time::Time::from_hms(h, mi, s).unwrap();
    time::PrimitiveDateTime::new(date, t)
        .assume_offset(time::UtcOffset::from_hms(offset_hours, 0, 0).unwrap())
        .unix_timestamp()
}

#[test]
fn sh_trade_session() {
    let market = Market::CN;

    assert_eq!(
        market.trade_session_at(ts(2024, 1, 1, 15, 0, 0, 8)),
        Some(TradeSession::Intraday)
    );
}

#[test]
fn us_trade_session() {
    let market = Market::US;

    assert_eq!(
        market.trade_session_at(ts(2024, 1, 1, 20, 0, 0, -5)),
        Some(TradeSession::Overnight)
    );
    assert_eq!(
        market.trade_session_at(ts(2024, 1, 1, 23, 59, 59, -5)),
        Some(TradeSession::Overnight)
    );
    assert_eq!(
        market.trade_session_at(ts(2024, 1, 2, 0, 0, 0, -5)),
        Some(TradeSession::Overnight)
    );
    assert_eq!(
        market.trade_session_at(ts(2024, 1, 2, 3, 59, 59, -5)),
        Some(TradeSession::Overnight)
    );

    assert_eq!(
        market.trade_session_at(ts(2024, 1, 1, 4, 0, 0, -5)),
        Some(TradeSession::PreMarket)
    );
    assert_eq!(
        market.trade_session_at(ts(2024, 1, 1, 8, 0, 0, -5)),
        Some(TradeSession::PreMarket)
    );
    assert_eq!(
        market.trade_session_at(ts(2024, 1, 1, 9, 29, 59, -5)),
        Some(TradeSession::PreMarket)
    );

    assert_eq!(
        market.trade_session_at(ts(2024, 1, 1, 9, 30, 0, -5)),
        Some(TradeSession::Intraday)
    );
    assert_eq!(
        market.trade_session_at(ts(2024, 1, 1, 12, 30, 0, -5)),
        Some(TradeSession::Intraday)
    );
    assert_eq!(
        market.trade_session_at(ts(2024, 1, 1, 15, 59, 59, -5)),
        Some(TradeSession::Intraday)
    );

    assert_eq!(
        market.trade_session_at(ts(2024, 1, 1, 16, 0, 0, -5)),
        Some(TradeSession::PostMarket)
    );
}

#[test]
fn session_inside_interval_is_its_phase() {
    // A time strictly inside a configured segment carries that segment's tag.
    assert_eq!(Market::US.trade_session(10 * 3600), Some(TradeSession::Intraday));
    assert_eq!(Market::US.trade_session(5 * 3600), Some(TradeSession::PreMarket));
    assert_eq!(Market::CN.trade_session(10 * 3600), Some(TradeSession::Intraday));
    assert_eq!(Market::HK.trade_session(10 * 3600), Some(TradeSession::Intraday));
    assert_eq!(Market::SG.trade_session(10 * 3600), Some(TradeSession::Intraday));
}

#[test]
fn session_outside_all_intervals_is_none() {
    // A market without an overnight session has no phase deep at night.
    assert_eq!(Market::CN.trade_session(3 * 3600), None);
    assert_eq!(Market::HK.trade_session(0), None);
    assert_eq!(Market::Unknown.trade_session(12 * 3600), None);
}

#[test]
fn session_boundary_starts_new_session() {
    // At a shared boundary the session that starts there wins.
    assert_eq!(Market::US.trade_session(4 * 3600), Some(TradeSession::PreMarket));
    assert_eq!(Market::US.trade_session(9 * 3600 + 30 * 60), Some(TradeSession::Intraday));
    assert_eq!(Market::US.trade_session(16 * 3600), Some(TradeSession::PostMarket));
    assert_eq!(Market::US.trade_session(20 * 3600), Some(TradeSession::Overnight));
}

#[test]
fn overnight_session_wraps_midnight() {
    // 23:59:59 and 00:00:00 of the next day both lie in the overnight window.
    assert_eq!(Market::US.trade_session(86399), Some(TradeSession::Overnight));
    assert_eq!(Market::US.trade_session(0), Some(TradeSession::Overnight));
}
