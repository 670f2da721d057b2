use longport::cache::CacheDecision;
use longport::context::{parse_date_list, ParticipantInfo, QuoteContext};
use longport::requests;
use longport::requests::{
    Direction, HistoryCandlestickQuery, RequestUpdateWatchlistGroup, SecuritiesUpdateMode,
    SortOrderType, WarrantSortBy, WarrantType,
};
use longport::types::{
    AdjustType, Language, Market, Period, PushEvent, PushEventDetail, PushQuote, TradeSessions,
    SUB_FLAG_QUOTE,
};
use longport::error::Error;
use longport::types::{Candlestick, Depth, PushCandlestick, PushDepth, PushTrades, Trade};
use longport::utils::{format_date, parse_date, Date};

fn new_ctx() -> QuoteContext {
    QuoteContext::new(1, String::from("Professional"), Vec::new(), Language::EN)
}

#[test]
fn subscribe_push_and_read_snapshot() {
    // Subscribe two symbols with the quote flag and no first push, feed one
    // push frame for "700.HK", and read the same values back from local
    // state with no transport involved.
    let mut ctx = new_ctx();
    let symbols = vec![String::from("700.HK"), String::from("AAPL.US")];
    let req = ctx.subscribe(&symbols, SUB_FLAG_QUOTE, false);
    assert_eq!(req.symbols, vec![String::from("700.HK"), String::from("AAPL.US")]);
    assert_eq!(req.sub_types, SUB_FLAG_QUOTE);
    assert!(!req.is_first_push);

    let quote = PushQuote {
        last_done: 35000,
        open: 34800,
        high: 35150,
        low: 34750,
        timestamp: 1704098400,
        volume: 1000,
        turnover: 34900000,
    };
    let event = ctx.core.handle_push(PushEvent {
        symbol: String::from("700.HK"),
        detail: PushEventDetail::Quote(quote),
    });
    assert_eq!(event.symbol, "700.HK");
    match event.detail {
        PushEventDetail::Quote(q) => assert_eq!(q, quote),
        _ => panic!("the event must leave as a quote event"),
    }

    let quotes = ctx.realtime_quote(&vec![String::from("700.HK")]);
    assert_eq!(quotes.len(), 1);
    assert_eq!(quotes[0].symbol, "700.HK");
    assert_eq!(quotes[0].last_done, 35000);
    assert_eq!(quotes[0].open, 34800);
    assert_eq!(quotes[0].high, 35150);
    assert_eq!(quotes[0].low, 34750);
    assert_eq!(quotes[0].volume, 1000);
    assert_eq!(quotes[0].turnover, 34900000);

    // A symbol nothing was pushed for yields no snapshot.
    let quotes = ctx.realtime_quote(&vec![String::from("AAPL.US")]);
    assert!(quotes.is_empty());
}

#[test]
fn subscribe_normalizes_and_unsubscribe_matches() {
    // Subscribing "0700.HK" and unsubscribing "700.HK" touch one table key.
    let mut ctx = new_ctx();
    ctx.subscribe(&vec![String::from("0700.HK")], SUB_FLAG_QUOTE, false);
    let subs = ctx.subscriptions();
    assert_eq!(subs.len(), 1);
    assert_eq!(subs[0].symbol, "700.HK");
    assert_eq!(subs[0].sub_types, SUB_FLAG_QUOTE);

    ctx.unsubscribe(&vec![String::from("700.HK")], SUB_FLAG_QUOTE);
    assert!(ctx.subscriptions().is_empty());
}

#[test]
fn subscribe_merges_flags() {
    let mut ctx = new_ctx();
    ctx.subscribe(&vec![String::from("AAPL.US")], 1, false);
    ctx.subscribe(&vec![String::from("AAPL.US")], 2, false);
    let subs = ctx.subscriptions();
    assert_eq!(subs.len(), 1);
    assert_eq!(subs[0].sub_types, 3);

    // Removing one flag keeps the other; removing the last drops the entry.
    ctx.unsubscribe(&vec![String::from("AAPL.US")], 1);
    let subs = ctx.subscriptions();
    assert_eq!(subs[0].sub_types, 2);
    ctx.unsubscribe(&vec![String::from("AAPL.US")], 2);
    assert!(ctx.subscriptions().is_empty());
}

#[test]
fn candlestick_subscription_normalizes() {
    let mut ctx = new_ctx();
    let req = ctx.subscribe_candlesticks(
        &String::from("0700.HK"),
        Period::OneMinute,
        TradeSessions::Normal,
    );
    assert_eq!(req.symbol, "700.HK");
    assert_eq!(ctx.core.candlestick_subs.len(), 1);

    // The same subscription again is tracked once.
    ctx.subscribe_candlesticks(&String::from("700.HK"), Period::OneMinute, TradeSessions::Normal);
    assert_eq!(ctx.core.candlestick_subs.len(), 1);

    let req = ctx.unsubscribe_candlesticks(&String::from("0700.HK"), Period::OneMinute);
    assert_eq!(req.symbol, "700.HK");
    assert!(ctx.core.candlestick_subs.is_empty());
}

#[test]
fn participants_cache_flow() {
    let mut ctx = new_ctx();
    assert_eq!(ctx.participants(1000), CacheDecision::Start);
    assert_eq!(ctx.participants(1001), CacheDecision::Wait);
    let data = vec![ParticipantInfo {
        broker_ids: vec![1, 2],
        name_cn: String::from("A"),
        name_en: String::from("A"),
        name_hk: String::from("A"),
    }];
    ctx.participants_complete(1002, Some(data));
    assert_eq!(ctx.participants(1003), CacheDecision::Hit);
    let v = ctx.participants_value(1003).unwrap();
    assert_eq!(v.len(), 1);
    assert_eq!(v[0].broker_ids, vec![1, 2]);
    // The participant registry stays for thirty minutes, then refetches.
    assert_eq!(ctx.participants(1002 + 1799), CacheDecision::Hit);
    assert_eq!(ctx.participants(1002 + 1800), CacheDecision::Start);
}

#[test]
fn trading_session_cache_flow() {
    let mut ctx = new_ctx();
    assert_eq!(ctx.trading_session(0), CacheDecision::Start);
    ctx.trading_session_complete(0, Some(Vec::new()));
    // The calendar stays for two hours, then refetches.
    assert_eq!(ctx.trading_session(7199), CacheDecision::Hit);
    assert_eq!(ctx.trading_session(7200), CacheDecision::Start);
}

#[test]
fn option_chain_caches_are_keyed() {
    let mut ctx = new_ctx();
    let a = String::from("AAPL.US");
    let b = String::from("TSLA.US");
    assert_eq!(ctx.option_chain_expiry_date_list(&a, 10), CacheDecision::Start);
    assert_eq!(ctx.option_chain_expiry_date_list(&a, 11), CacheDecision::Wait);
    assert_eq!(ctx.option_chain_expiry_date_list(&b, 11), CacheDecision::Start);
    let dates = vec![Date { year: 2023, month: 1, day: 20 }];
    ctx.option_chain_expiry_date_list_complete(&a, 12, Some(dates));
    assert_eq!(ctx.option_chain_expiry_date_list(&a, 13), CacheDecision::Hit);
    let v = ctx.option_chain_expiry_date_list_value(&a, 13).unwrap();
    assert_eq!(v[0], Date { year: 2023, month: 1, day: 20 });
    // The strike table is keyed by symbol and expiry date together.
    let d = Date { year: 2023, month: 1, day: 20 };
    assert_eq!(ctx.option_chain_info_by_date(&a, d, 20), CacheDecision::Start);
    let d2 = Date { year: 2023, month: 2, day: 17 };
    assert_eq!(ctx.option_chain_info_by_date(&a, d2, 21), CacheDecision::Start);
    ctx.option_chain_info_by_date_complete(&a, d, 22, Some(Vec::new()));
    assert_eq!(ctx.option_chain_info_by_date(&a, d, 23), CacheDecision::Hit);
    assert_eq!(ctx.option_chain_info_by_date(&a, d2, 23), CacheDecision::Wait);
}

#[test]
fn account_facts_are_served_locally() {
    let ctx = new_ctx();
    assert_eq!(ctx.member_id(), 1);
    assert_eq!(ctx.quote_level(), "Professional");
    assert!(ctx.quote_package_details().is_empty());
}

#[test]
fn date_fields_format_and_parse() {
    let d = Date { year: 2024, month: 1, day: 1 };
    assert_eq!(format_date(d), "20240101");
    assert_eq!(parse_date("20240101"), Ok(d));
    assert_eq!(format_date(Date { year: 2022, month: 12, day: 31 }), "20221231");
    assert_eq!(
        parse_date("20240229"),
        Ok(Date { year: 2024, month: 2, day: 29 })
    );
}

#[test]
fn malformed_date_fields_are_rejected() {
    assert_eq!(parse_date("2024011"), Err(Error::FieldParse));
    assert_eq!(parse_date("202401012"), Err(Error::FieldParse));
    assert_eq!(parse_date("202401xx"), Err(Error::FieldParse));
    assert_eq!(parse_date("20240230"), Err(Error::FieldParse));
    assert_eq!(parse_date("20230229"), Err(Error::FieldParse));
    assert_eq!(parse_date("20241301"), Err(Error::FieldParse));
    assert_eq!(parse_date("20240100"), Err(Error::FieldParse));
}

#[test]
fn history_candlestick_requests_format_their_anchor() {
    let req = requests::history_candlesticks_by_offset(
        String::from("700.HK"),
        Period::Day,
        AdjustType::NoAdjust,
        true,
        Some(requests::DateTimeFields {
            date: Date { year: 2024, month: 3, day: 5 },
            hour: 9,
            minute: 35,
        }),
        10,
        TradeSessions::Normal,
    );
    match req.query {
        HistoryCandlestickQuery::ByOffset(q) => {
            assert_eq!(q.direction, Direction::Forward);
            assert_eq!(q.date, "20240305");
            assert_eq!(q.minute, "0935");
            assert_eq!(q.count, 10);
        }
        HistoryCandlestickQuery::ByDate(_) => panic!("an offset query was requested"),
    }

    let req = requests::history_candlesticks_by_date(
        String::from("700.HK"),
        Period::Day,
        AdjustType::NoAdjust,
        Some(Date { year: 2022, month: 1, day: 20 }),
        None,
        TradeSessions::Normal,
    );
    match req.query {
        HistoryCandlestickQuery::ByDate(q) => {
            assert_eq!(q.start_date, "20220120");
            assert_eq!(q.end_date, "");
        }
        HistoryCandlestickQuery::ByOffset(_) => panic!("a date query was requested"),
    }
}

#[test]
fn trading_days_request_formats_range() {
    let req = requests::trading_days(
        Market::HK,
        Date { year: 2022, month: 1, day: 20 },
        Date { year: 2022, month: 2, day: 20 },
    );
    assert_eq!(req.market, "HK");
    assert_eq!(req.beg_day, "20220120");
    assert_eq!(req.end_day, "20220220");
}

#[test]
fn update_watchlist_mode_travels_only_with_securities() {
    let req = RequestUpdateWatchlistGroup::new(10086).name(String::from("Watchlist2"));
    let payload = requests::update_watchlist_group(req);
    assert_eq!(payload.id, 10086);
    assert_eq!(payload.mode, None);

    let req = RequestUpdateWatchlistGroup::new(10086)
        .securities(vec![String::from("700.HK"), String::from("BABA.US")])
        .mode(SecuritiesUpdateMode::Add);
    let payload = requests::update_watchlist_group(req);
    assert_eq!(payload.mode, Some(SecuritiesUpdateMode::Add));
    assert_eq!(
        payload.securities,
        Some(vec![String::from("700.HK"), String::from("BABA.US")])
    );
}

#[test]
fn warrant_list_defaults_absent_filters_to_empty() {
    let req = requests::warrant_list(
        String::from("700.HK"),
        WarrantSortBy::Volume,
        SortOrderType::Descending,
        Some(vec![WarrantType::Call]),
        None,
        None,
        None,
        None,
        Language::EN,
    );
    assert_eq!(req.filter_config.warrant_type, vec![WarrantType::Call]);
    assert!(req.filter_config.issuer.is_empty());
    assert!(req.filter_config.expiry_date.is_empty());
    assert!(req.filter_config.price_type.is_empty());
    assert!(req.filter_config.status.is_empty());
}

#[test]
fn depth_and_trade_pushes_update_snapshots() {
    let mut ctx = new_ctx();
    let sym = String::from("700.HK");

    let depth_event = ctx.core.handle_push(PushEvent {
        symbol: sym.clone(),
        detail: PushEventDetail::Depth(PushDepth {
            asks: vec![Depth { position: 1, price: 35000, volume: 100, order_num: 3 }],
            bids: vec![Depth { position: 1, price: 34950, volume: 200, order_num: 5 }],
        }),
    });
    assert_eq!(depth_event.symbol, "700.HK");
    let book = ctx.realtime_depth(&sym);
    assert_eq!(book.asks.len(), 1);
    assert_eq!(book.asks[0].price, 35000);
    assert_eq!(book.bids[0].volume, 200);

    ctx.core.handle_push(PushEvent {
        symbol: sym.clone(),
        detail: PushEventDetail::Trade(PushTrades {
            trades: vec![
                Trade { price: 34990, volume: 10, timestamp: 1 },
                Trade { price: 35000, volume: 20, timestamp: 2 },
                Trade { price: 35010, volume: 30, timestamp: 3 },
            ],
        }),
    });
    // The two most recent trades come back, in trade order.
    let trades = ctx.realtime_trades(&sym, 2);
    assert_eq!(trades.len(), 2);
    assert_eq!(trades[0].price, 35000);
    assert_eq!(trades[1].price, 35010);
    // A symbol nothing was pushed for yields an empty book.
    let empty = ctx.realtime_depth(&String::from("AAPL.US"));
    assert!(empty.asks.is_empty() && empty.bids.is_empty());
}

#[test]
fn trading_day_lists_parse_or_fail_whole() {
    let fields = vec![String::from("20220120"), String::from("20220121")];
    let days = parse_date_list(&fields).unwrap();
    assert_eq!(days.len(), 2);
    assert_eq!(days[0], Date { year: 2022, month: 1, day: 20 });
    assert_eq!(days[1], Date { year: 2022, month: 1, day: 21 });

    // One malformed field fails the whole list.
    let fields = vec![String::from("20220120"), String::from("2022-1-2")];
    assert_eq!(parse_date_list(&fields), Err(Error::FieldParse));
}

#[test]
fn candlestick_pushes_update_snapshots() {
    let mut ctx = new_ctx();
    let sym = String::from("AAPL.US");
    let bar = Candlestick {
        close: 100,
        open: 99,
        low: 98,
        high: 101,
        volume: 10,
        turnover: 1000,
        timestamp: 60,
    };
    ctx.core.handle_push(PushEvent {
        symbol: sym.clone(),
        detail: PushEventDetail::Candlestick(PushCandlestick {
            period: Period::OneMinute,
            candlestick: bar,
            is_confirmed: false,
        }),
    });
    // A push for the bar starting at the same instant replaces it.
    let updated = Candlestick { close: 102, volume: 15, ..bar };
    ctx.core.handle_push(PushEvent {
        symbol: sym.clone(),
        detail: PushEventDetail::Candlestick(PushCandlestick {
            period: Period::OneMinute,
            candlestick: updated,
            is_confirmed: true,
        }),
    });
    let bars = ctx.realtime_candlesticks(&sym, Period::OneMinute, 10);
    assert_eq!(bars.len(), 1);
    assert_eq!(bars[0].close, 102);
    assert_eq!(bars[0].volume, 15);

    // A bar starting later opens a new one; the count keeps the newest.
    let next = Candlestick { timestamp: 120, open: 102, close: 103, ..bar };
    ctx.core.handle_push(PushEvent {
        symbol: sym.clone(),
        detail: PushEventDetail::Candlestick(PushCandlestick {
            period: Period::OneMinute,
            candlestick: next,
            is_confirmed: false,
        }),
    });
    let bars = ctx.realtime_candlesticks(&sym, Period::OneMinute, 10);
    assert_eq!(bars.len(), 2);
    assert_eq!(bars[0].timestamp, 60);
    assert_eq!(bars[1].timestamp, 120);
    let last = ctx.realtime_candlesticks(&sym, Period::OneMinute, 1);
    assert_eq!(last.len(), 1);
    assert_eq!(last[0].timestamp, 120);

    // Another period of the same symbol is a distinct key.
    assert!(ctx.realtime_candlesticks(&sym, Period::Day, 10).is_empty());
    // An untouched symbol yields none.
    assert!(ctx.realtime_candlesticks(&String::from("700.HK"), Period::OneMinute, 10).is_empty());
}
