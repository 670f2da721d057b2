//! Outbound request values of the facade operations.
//!
//! Each builder turns the caller's arguments into the exact value the
//! wire request carries: dates and minutes become fixed-width digit
//! strings, absent optional filters become empty lists, and an optional
//! update mode is sent only when securities are sent.
use vstd::prelude::*;
use vstd::string::StringExecFns;

use crate::types::{AdjustType, Language, Market, Period, TradeSessions};
use crate::utils::{digit_str, format_date, spec_format_date, Date};

verus! {

/// Sort key of a warrant list query.
#[derive(Clone, Copy, Debug, PartialEq, Eq, Structural)]
pub enum WarrantSortBy {
    /// By latest traded price
    LastDone,
    /// By change rate
    ChangeRate,
    /// By traded volume
    Volume,
    /// By expiry date
    ExpiryDate,
}

/// Sort order of a list query.
#[derive(Clone, Copy, Debug, PartialEq, Eq, Structural)]
pub enum SortOrderType {
    /// Ascending
    Ascending,
    /// Descending
    Descending,
}

/// Warrant type filter.
#[derive(Clone, Copy, Debug, PartialEq, Eq, Structural)]
pub enum WarrantType {
    /// Call warrant
    Call,
    /// Put warrant
    Put,
    /// Bull contract
    Bull,
    /// Bear contract
    Bear,
}

/// Expiry date bucket filter of a warrant list query.
#[derive(Clone, Copy, Debug, PartialEq, Eq, Structural)]
pub enum FilterWarrantExpiryDate {
    /// Less than three months
    LessThanThreeMonths,
    /// Three to six months
    ThreeToSixMonths,
    /// Six to twelve months
    SixToTwelveMonths,
    /// More than twelve months
    MoreThanTwelveMonths,
}

/// Price bound filter of a warrant list query.
#[derive(Clone, Copy, Debug, PartialEq, Eq, Structural)]
pub enum FilterWarrantInOutBoundsType {
    /// In bounds
    InBounds,
    /// Out of bounds
    OutBounds,
}

/// Warrant status filter.
#[derive(Clone, Copy, Debug, PartialEq, Eq, Structural)]
pub enum WarrantStatus {
    /// Trade suspended
    Suspend,
    /// To be listed
    PrepareList,
    /// Trading normally
    Normal,
}

/// How a watchlist group's securities are updated.
#[derive(Clone, Copy, Debug, PartialEq, Eq, Structural)]
pub enum SecuritiesUpdateMode {
    /// Add the given securities
    Add,
    /// Remove the given securities
    Remove,
    /// Replace the group's securities with the given ones
    Replace,
}

/// Category of a security list query.
#[derive(Clone, Copy, Debug, PartialEq, Eq, Structural)]
pub enum SecurityListCategory {
    /// Securities tradable overnight
    Overnight,
}

/// Direction of a history candlestick query relative to its anchor.
#[derive(Clone, Copy, Debug, PartialEq, Eq, Structural)]
pub enum Direction {
    /// Toward newer bars
    Forward,
    /// Toward older bars
    Backward,
}

/// A calendar date with a minute of day, as plain fields.
#[derive(Clone, Copy, Debug, PartialEq, Eq, Structural)]
pub struct DateTimeFields {
    /// The calendar date
    pub date: Date,
    /// Hour of day
    pub hour: u8,
    /// Minute of hour
    pub minute: u8,
}

/// The four characters `HHMM` of an hour and minute.
pub open spec fn spec_format_minute(hour: int, minute: int) -> Seq<char> {
    seq![
        crate::utils::digit_char(hour / 10 % 10),
        crate::utils::digit_char(hour % 10),
        crate::utils::digit_char(minute / 10 % 10),
        crate::utils::digit_char(minute % 10),
    ]
}

/// The anchor of a history candlestick query by offset.
pub struct OffsetQuery {
    /// Which way to read from the anchor.
    pub direction: Direction,
    /// Anchor date as `YYYYMMDD`, or empty when no anchor is given.
    pub date: String,
    /// Anchor minute as `HHMM`, or empty when no anchor is given.
    pub minute: String,
    /// How many bars to read.
    pub count: u32,
}

/// The range of a history candlestick query by date.
pub struct DateQuery {
    /// Range start as `YYYYMMDD`, or empty when open.
    pub start_date: String,
    /// Range end as `YYYYMMDD`, or empty when open.
    pub end_date: String,
}

/// A history candlestick request, anchored by offset or by date range.
pub enum HistoryCandlestickQuery {
    /// Read around an anchor instant
    ByOffset(OffsetQuery),
    /// Read a date range
    ByDate(DateQuery),
}

/// The outbound history candlestick request.
pub struct HistoryCandlestickRequest {
    /// The symbol to query.
    pub symbol: String,
    /// Period of the bars.
    pub period: Period,
    /// Price adjustment of the bars.
    pub adjust_type: AdjustType,
    /// The anchor or range of the query.
    pub query: HistoryCandlestickQuery,
    /// Which trading sessions the bars cover.
    pub trade_sessions: TradeSessions,
}

/// Format an hour and minute as the four digits `HHMM`.
pub fn format_minute(hour: u8, minute: u8) -> (r: String)
    requires
        hour < 24,
        minute < 60,
    ensures
        r@ == spec_format_minute(hour as int, minute as int),
{
    let mut s = String::new();
    s.append(digit_str(hour as u16 / 10 % 10));
    s.append(digit_str(hour as u16 % 10));
    s.append(digit_str(minute as u16 / 10 % 10));
    s.append(digit_str(minute as u16 % 10));
    proof {
        assert(s@ =~= spec_format_minute(hour as int, minute as int));
    }
    s
}

/// Build a history candlestick request anchored by offset: an absent
/// anchor time becomes empty date and minute strings, a present one its
/// eight date digits and four minute digits.
pub fn history_candlesticks_by_offset(
    symbol: String,
    period: Period,
    adjust_type: AdjustType,
    forward: bool,
    time: Option<DateTimeFields>,
    count: u32,
    trade_sessions: TradeSessions,
) -> (r: HistoryCandlestickRequest)
    requires
        time matches Some(t) ==> t.hour < 24 && t.minute < 60,
    ensures
        r.symbol == symbol,
        r.period == period,
        r.adjust_type == adjust_type,
        r.trade_sessions == trade_sessions,
        r.query matches HistoryCandlestickQuery::ByOffset(q) && q.count == count && q.direction
            == (if forward {
            Direction::Forward
        } else {
            Direction::Backward
        }) && (match time {
            Some(t) => q.date@ == spec_format_date(t.date) && q.minute@ == spec_format_minute(
                t.hour as int,
                t.minute as int,
            ),
            None => q.date@.len() == 0 && q.minute@.len() == 0,
        }),
{
    let (date, minute) = match time {
        Some(t) => (format_date(t.date), format_minute(t.hour, t.minute)),
        None => (String::new(), String::new()),
    };
    let direction = if forward {
        Direction::Forward
    } else {
        Direction::Backward
    };
    HistoryCandlestickRequest {
        symbol,
        period,
        adjust_type,
        query: HistoryCandlestickQuery::ByOffset(OffsetQuery { direction, date, minute, count }),
        trade_sessions,
    }
}

/// Build a history candlestick request over a date range: an open end
/// becomes an empty string, a given date its eight digits.
pub fn history_candlesticks_by_date(
    symbol: String,
    period: Period,
    adjust_type: AdjustType,
    start: Option<Date>,
    end: Option<Date>,
    trade_sessions: TradeSessions,
) -> (r: HistoryCandlestickRequest)
    ensures
        r.symbol == symbol,
        r.period == period,
        r.adjust_type == adjust_type,
        r.trade_sessions == trade_sessions,
        r.query matches HistoryCandlestickQuery::ByDate(q) && (match start {
            Some(d) => q.start_date@ == spec_format_date(d),
            None => q.start_date@.len() == 0,
        }) && (match end {
            Some(d) => q.end_date@ == spec_format_date(d),
            None => q.end_date@.len() == 0,
        }),
{
    let start_date = match start {
        Some(d) => format_date(d),
        None => String::new(),
    };
    let end_date = match end {
        Some(d) => format_date(d),
        None => String::new(),
    };
    HistoryCandlestickRequest {
        symbol,
        period,
        adjust_type,
        query: HistoryCandlestickQuery::ByDate(DateQuery { start_date, end_date }),
        trade_sessions,
    }
}

/// The outbound trading-days request, with both range ends formatted.
pub struct MarketTradeDayRequest {
    /// Name of the market to query.
    pub market: String,
    /// Range start as `YYYYMMDD`.
    pub beg_day: String,
    /// Range end as `YYYYMMDD`.
    pub end_day: String,
}

/// The name of a market on the wire.
pub open spec fn spec_market_name(m: Market) -> Seq<char> {
    match m {
        Market::Unknown => "Unknown"@,
        Market::US => "US"@,
        Market::HK => "HK"@,
        Market::CN => "CN"@,
        Market::SG => "SG"@,
        Market::Crypto => "Crypto"@,
    }
}

/// The name of a market on the wire.
pub fn market_name(m: Market) -> (r: &'static str)
    ensures
        r@ == spec_market_name(m),
{
    match m {
        Market::Unknown => "Unknown",
        Market::US => "US",
        Market::HK => "HK",
        Market::CN => "CN",
        Market::SG => "SG",
        Market::Crypto => "Crypto",
    }
}

/// Build a trading-days request for a market over a date range.
pub fn trading_days(market: Market, begin: Date, end: Date) -> (r: MarketTradeDayRequest)
    ensures
        r.market@ == spec_market_name(market),
        r.beg_day@ == spec_format_date(begin),
        r.end_day@ == spec_format_date(end),
{
    MarketTradeDayRequest {
        market: String::from_str(market_name(market)),
        beg_day: format_date(begin),
        end_day: format_date(end),
    }
}

/// The filter table of a warrant list request; an absent filter is the
/// empty list, meaning no restriction.
pub struct WarrantFilterConfig {
    /// Sort key.
    pub sort_by: WarrantSortBy,
    /// Sort order.
    pub sort_order: SortOrderType,
    /// Warrant types to keep, or empty for all.
    pub warrant_type: Vec<WarrantType>,
    /// Issuer identifiers to keep, or empty for all.
    pub issuer: Vec<i32>,
    /// Expiry buckets to keep, or empty for all.
    pub expiry_date: Vec<FilterWarrantExpiryDate>,
    /// Price bound kinds to keep, or empty for all.
    pub price_type: Vec<FilterWarrantInOutBoundsType>,
    /// Statuses to keep, or empty for all.
    pub status: Vec<WarrantStatus>,
}

/// The outbound warrant list request.
pub struct WarrantFilterListRequest {
    /// The underlying security.
    pub symbol: String,
    /// The filter table.
    pub filter_config: WarrantFilterConfig,
    /// Language names are requested in.
    pub language: Language,
}

/// Build a warrant list request: each absent filter becomes the empty
/// list, each given filter is passed as it is.
pub fn warrant_list(
    symbol: String,
    sort_by: WarrantSortBy,
    sort_order: SortOrderType,
    warrant_type: Option<Vec<WarrantType>>,
    issuer: Option<Vec<i32>>,
    expiry_date: Option<Vec<FilterWarrantExpiryDate>>,
    price_type: Option<Vec<FilterWarrantInOutBoundsType>>,
    status: Option<Vec<WarrantStatus>>,
    language: Language,
) -> (r: WarrantFilterListRequest)
    ensures
        r.symbol == symbol,
        r.language == language,
        r.filter_config.sort_by == sort_by,
        r.filter_config.sort_order == sort_order,
        r.filter_config.warrant_type@ == (match warrant_type {
            Some(v) => v@,
            None => Seq::<WarrantType>::empty(),
        }),
        r.filter_config.issuer@ == (match issuer {
            Some(v) => v@,
            None => Seq::<i32>::empty(),
        }),
        r.filter_config.expiry_date@ == (match expiry_date {
            Some(v) => v@,
            None => Seq::<FilterWarrantExpiryDate>::empty(),
        }),
        r.filter_config.price_type@ == (match price_type {
            Some(v) => v@,
            None => Seq::<FilterWarrantInOutBoundsType>::empty(),
        }),
        r.filter_config.status@ == (match status {
            Some(v) => v@,
            None => Seq::<WarrantStatus>::empty(),
        }),
{
    let filter_config = WarrantFilterConfig {
        sort_by,
        sort_order,
        warrant_type: match warrant_type {
            Some(v) => v,
            None => Vec::new(),
        },
        issuer: match issuer {
            Some(v) => v,
            None => Vec::new(),
        },
        expiry_date: match expiry_date {
            Some(v) => v,
            None => Vec::new(),
        },
        price_type: match price_type {
            Some(v) => v,
            None => Vec::new(),
        },
        status: match status {
            Some(v) => v,
            None => Vec::new(),
        },
    };
    WarrantFilterListRequest { symbol, filter_config, language }
}

/// A request to create a watchlist group.
pub struct RequestCreateWatchlistGroup {
    /// Name of the new group.
    pub name: String,
    /// Securities the group starts with, if any.
    pub securities: Option<Vec<String>>,
}

impl RequestCreateWatchlistGroup {
    /// A request to create an empty group with the given name.
    pub fn new(name: String) -> (r: Self)
        ensures
            r.name == name,
            r.securities is None,
    {
        RequestCreateWatchlistGroup { name, securities: None }
    }

    /// The same request, starting the group with the given securities.
    pub fn securities(self, securities: Vec<String>) -> (r: Self)
        ensures
            r.name == self.name,
            r.securities == Some(securities),
    {
        RequestCreateWatchlistGroup { securities: Some(securities), ..self }
    }
}

/// A request to update a watchlist group.
pub struct RequestUpdateWatchlistGroup {
    /// Identifier of the group to update.
    pub id: i64,
    /// New name, if the name changes.
    pub name: Option<String>,
    /// Securities to apply with `mode`, if they change.
    pub securities: Option<Vec<String>>,
    /// How the securities are applied.
    pub mode: SecuritiesUpdateMode,
}

impl RequestUpdateWatchlistGroup {
    /// A request that changes nothing yet on the given group.
    pub fn new(id: i64) -> (r: Self)
        ensures
            r.id == id,
            r.name is None,
            r.securities is None,
            r.mode == SecuritiesUpdateMode::Replace,
    {
        RequestUpdateWatchlistGroup {
            id,
            name: None,
            securities: None,
            mode: SecuritiesUpdateMode::Replace,
        }
    }

    /// The same request, renaming the group.
    pub fn name(self, name: String) -> (r: Self)
        ensures
            r.id == self.id,
            r.name == Some(name),
            r.securities == self.securities,
            r.mode == self.mode,
    {
        RequestUpdateWatchlistGroup { name: Some(name), ..self }
    }

    /// The same request, changing the group's securities.
    pub fn securities(self, securities: Vec<String>) -> (r: Self)
        ensures
            r.id == self.id,
            r.name == self.name,
            r.securities == Some(securities),
            r.mode == self.mode,
    {
        RequestUpdateWatchlistGroup { securities: Some(securities), ..self }
    }

    /// The same request, choosing how the securities are applied.
    pub fn mode(self, mode: SecuritiesUpdateMode) -> (r: Self)
        ensures
            r.id == self.id,
            r.name == self.name,
            r.securities == self.securities,
            r.mode == mode,
    {
        RequestUpdateWatchlistGroup { mode, ..self }
    }
}

/// The body of a watchlist group update. The mode travels only when
/// securities travel: an update that touches no securities sends none.
pub struct UpdateWatchlistGroupPayload {
    /// Identifier of the group to update.
    pub id: i64,
    /// New name, if the name changes.
    pub name: Option<String>,
    /// Securities to apply, if they change.
    pub securities: Option<Vec<String>>,
    /// How the securities are applied; absent when none travel.
    pub mode: Option<SecuritiesUpdateMode>,
}

/// Build the body of a watchlist group update from a request.
pub fn update_watchlist_group(req: RequestUpdateWatchlistGroup) -> (r: UpdateWatchlistGroupPayload)
    ensures
        r.id == req.id,
        r.name == req.name,
        r.securities == req.securities,
        r.mode == (if req.securities is Some {
            Some(req.mode)
        } else {
            None::<SecuritiesUpdateMode>
        }),
{
    let mode = if req.securities.is_some() {
        Some(req.mode)
    } else {
        None
    };
    UpdateWatchlistGroupPayload { id: req.id, name: req.name, securities: req.securities, mode }
}

} // verus!
