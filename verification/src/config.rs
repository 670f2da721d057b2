//! Connection configuration.
//!
//! Plain values only: credentials, endpoint URLs and behaviour switches.
//! Reading them from the process environment, and the connections built
//! from them, happen outside.
use vstd::prelude::*;

use crate::types::{Language, PushCandlestickMode};

verus! {

/// Configuration of a client: credentials, endpoints, and behaviour
/// switches, with the gateway's default endpoints until overridden.
pub struct Config {
    /// App key of the account.
    pub app_key: String,
    /// App secret of the account.
    pub app_secret: String,
    /// Access token of the account.
    pub access_token: String,
    /// HTTP endpoint URL.
    pub http_url: String,
    /// Quote websocket endpoint URL.
    pub quote_ws_url: String,
    /// Trade websocket endpoint URL.
    pub trade_ws_url: String,
    /// Language texts are requested in, when set.
    pub language: Option<Language>,
    /// Whether overnight quotes are enabled.
    pub enable_overnight: bool,
    /// How candlestick pushes are delivered, when set.
    pub push_candlestick_mode: Option<PushCandlestickMode>,
    /// Whether the quote packages are printed when connected.
    pub enable_print_quote_packages: bool,
    /// Directory of the log files, when logging to files.
    pub log_path: Option<String>,
}

impl Config {
    /// A configuration with the given credentials, the default endpoints,
    /// overnight quotes off and quote package printing on.
    pub fn new(app_key: String, app_secret: String, access_token: String) -> (r: Config)
        ensures
            r.app_key == app_key,
            r.app_secret == app_secret,
            r.access_token == access_token,
            r.http_url@ == "https://openapi.longportapp.com"@,
            r.quote_ws_url@ == "wss://openapi-quote.longportapp.com/v2"@,
            r.trade_ws_url@ == "wss://openapi-trade.longportapp.com/v2"@,
            r.language is None,
            !r.enable_overnight,
            r.push_candlestick_mode is None,
            r.enable_print_quote_packages,
            r.log_path is None,
    {
        Config {
            app_key,
            app_secret,
            access_token,
            http_url: String::from_str("https://openapi.longportapp.com"),
            quote_ws_url: String::from_str("wss://openapi-quote.longportapp.com/v2"),
            trade_ws_url: String::from_str("wss://openapi-trade.longportapp.com/v2"),
            language: None,
            enable_overnight: false,
            push_candlestick_mode: None,
            enable_print_quote_packages: true,
            log_path: None,
        }
    }

    /// The same configuration with another HTTP endpoint.
    pub fn http_url(self, url: String) -> (r: Config)
        ensures
            r == (Config { http_url: url, ..self }),
    {
        Config { http_url: url, ..self }
    }

    /// The same configuration with another quote websocket endpoint.
    pub fn quote_ws_url(self, url: String) -> (r: Config)
        ensures
            r == (Config { quote_ws_url: url, ..self }),
    {
        Config { quote_ws_url: url, ..self }
    }

    /// The same configuration with another trade websocket endpoint.
    pub fn trade_ws_url(self, url: String) -> (r: Config)
        ensures
            r == (Config { trade_ws_url: url, ..self }),
    {
        Config { trade_ws_url: url, ..self }
    }

    /// The same configuration with the given language.
    pub fn language(self, language: Language) -> (r: Config)
        ensures
            r == (Config { language: Some(language), ..self }),
    {
        Config { language: Some(language), ..self }
    }

    /// The same configuration with overnight quotes enabled.
    pub fn enable_overnight(self) -> (r: Config)
        ensures
            r == (Config { enable_overnight: true, ..self }),
    {
        Config { enable_overnight: true, ..self }
    }

    /// The same configuration with the given candlestick push mode.
    pub fn push_candlestick_mode(self, mode: PushCandlestickMode) -> (r: Config)
        ensures
            r == (Config { push_candlestick_mode: Some(mode), ..self }),
    {
        Config { push_candlestick_mode: Some(mode), ..self }
    }

    /// The same configuration without quote package printing.
    pub fn dont_print_quote_packages(self) -> (r: Config)
        ensures
            r == (Config { enable_print_quote_packages: false, ..self }),
    {
        Config { enable_print_quote_packages: false, ..self }
    }

    /// The same configuration logging to files under the given path.
    pub fn log_path(self, path: String) -> (r: Config)
        ensures
            r == (Config { log_path: Some(path), ..self }),
    {
        Config { log_path: Some(path), ..self }
    }
}

} // verus!
