use longport::config::Config;
use longport::sink::{dispatch_push_event, CallbackKind, HandlerSet};
use longport::types::{
    Language, PushCandlestickMode, PushEventDetail, PushOrderChanged, PushQuote, PushTrades,
};

fn credentials() -> Config {
    Config::new(
        String::from("key"),
        String::from("secret"),
        String::from("token"),
    )
}

#[test]
fn config_defaults() {
    let c = credentials();
    assert_eq!(c.app_key, "key");
    assert_eq!(c.http_url, "https://openapi.longportapp.com");
    assert_eq!(c.quote_ws_url, "wss://openapi-quote.longportapp.com/v2");
    assert_eq!(c.trade_ws_url, "wss://openapi-trade.longportapp.com/v2");
    assert!(c.language.is_none());
    assert!(!c.enable_overnight);
    assert!(c.push_candlestick_mode.is_none());
    assert!(c.enable_print_quote_packages);
    assert!(c.log_path.is_none());
}

#[test]
fn config_builders_set_each_switch() {
    let c = credentials()
        .http_url(String::from("https://example.invalid"))
        .language(Language::EN)
        .enable_overnight()
        .push_candlestick_mode(PushCandlestickMode::Confirmed)
        .dont_print_quote_packages()
        .log_path(String::from("logs"));
    assert_eq!(c.http_url, "https://example.invalid");
    assert_eq!(c.language, Some(Language::EN));
    assert!(c.enable_overnight);
    assert_eq!(c.push_candlestick_mode, Some(PushCandlestickMode::Confirmed));
    assert!(!c.enable_print_quote_packages);
    assert_eq!(c.log_path.as_deref(), Some("logs"));
    // The untouched fields keep their values.
    assert_eq!(c.app_secret, "secret");
    assert_eq!(c.quote_ws_url, "wss://openapi-quote.longportapp.com/v2");
}

#[test]
fn push_events_go_to_their_registered_handler() {
    let mut handlers = HandlerSet::new();
    handlers.quote = true;
    handlers.order_changed = true;

    let quote = PushEventDetail::Quote(PushQuote {
        last_done: 1,
        open: 1,
        high: 1,
        low: 1,
        timestamp: 1,
        volume: 1,
        turnover: 1,
    });
    assert_eq!(dispatch_push_event(&handlers, &quote), Some(CallbackKind::Quote));

    let order = PushEventDetail::OrderChanged(PushOrderChanged {
        order_id: String::from("1"),
        status: String::from("Filled"),
    });
    assert_eq!(
        dispatch_push_event(&handlers, &order),
        Some(CallbackKind::OrderChanged)
    );

    // An event without a registered handler is dropped, best effort.
    let trades = PushEventDetail::Trade(PushTrades { trades: Vec::new() });
    assert_eq!(dispatch_push_event(&handlers, &trades), None);
}
