//! Plain data types shared by the quote components.
use vstd::prelude::*;

verus! {

/// Market a security belongs to, taken from the market part of a symbol.
#[derive(Clone, Copy, Debug, PartialEq, Eq, Structural)]
pub enum Market {
    /// Unknown
    Unknown,
    /// US market
    US,
    /// HK market
    HK,
    /// CN market
    CN,
    /// SG market
    SG,
    /// Crypto market
    Crypto,
}

/// Language of texts returned by the server.
#[derive(Clone, Copy, Debug, PartialEq, Eq, Structural)]
#[allow(non_camel_case_types)]
pub enum Language {
    /// zh-CN
    ZH_CN,
    /// zh-HK
    ZH_HK,
    /// en
    EN,
}

/// How candlestick pushes are delivered.
#[derive(Clone, Copy, Debug, PartialEq, Eq, Structural)]
pub enum PushCandlestickMode {
    /// Realtime mode
    Realtime,
    /// Confirmed mode
    Confirmed,
}

/// Trading phase of a market day.
#[derive(Clone, Copy, Debug, PartialEq, Eq, Structural)]
pub enum TradeSession {
    /// Overnight session, may wrap past midnight
    Overnight,
    /// Pre-market session
    PreMarket,
    /// Regular intraday session
    Intraday,
    /// Post-market session
    PostMarket,
}

/// Candlestick period.
#[derive(Clone, Copy, Debug, PartialEq, Eq, Structural)]
pub enum Period {
    /// One minute
    OneMinute,
    /// Five minutes
    FiveMinute,
    /// Fifteen minutes
    FifteenMinute,
    /// Thirty minutes
    ThirtyMinute,
    /// Sixty minutes
    SixtyMinute,
    /// One day
    Day,
    /// One week
    Week,
    /// One month
    Month,
    /// One year
    Year,
}

/// Which trading sessions a candlestick query covers.
#[derive(Clone, Copy, Debug, PartialEq, Eq, Structural)]
pub enum TradeSessions {
    /// The regular session only
    Normal,
    /// All sessions
    All,
}

/// Price adjustment of historical candlesticks.
#[derive(Clone, Copy, Debug, PartialEq, Eq, Structural)]
pub enum AdjustType {
    /// Actual prices
    NoAdjust,
    /// Forward-adjusted prices
    ForwardAdjust,
}

/// Subscription flag for quote pushes.
pub const SUB_FLAG_QUOTE: u8 = 1;

/// Subscription flag for depth pushes.
pub const SUB_FLAG_DEPTH: u8 = 2;

/// Subscription flag for broker-queue pushes.
pub const SUB_FLAG_BROKER: u8 = 4;

/// Subscription flag for trade pushes.
pub const SUB_FLAG_TRADE: u8 = 8;

/// One tracked subscription: a symbol and the set of push kinds
/// subscribed for it, as a union of the subscription flags.
#[derive(Clone, Debug, PartialEq, Eq)]
pub struct Subscription {
    /// The subscribed symbol, in normalized form.
    pub symbol: String,
    /// Union of the subscription flags active for the symbol.
    pub sub_types: u8,
}

/// A pushed quote update. Prices are in fixed-point minor units of the
/// security's currency.
#[derive(Clone, Copy, Debug, PartialEq, Eq, Structural)]
pub struct PushQuote {
    /// Latest traded price
    pub last_done: i64,
    /// Opening price of the day
    pub open: i64,
    /// Highest price of the day
    pub high: i64,
    /// Lowest price of the day
    pub low: i64,
    /// Time of the latest trade, seconds since the Unix epoch
    pub timestamp: i64,
    /// Traded volume of the day
    pub volume: i64,
    /// Traded turnover of the day, in minor units
    pub turnover: i64,
}

/// One level of the order book.
#[derive(Clone, Copy, Debug, PartialEq, Eq, Structural)]
pub struct Depth {
    /// Book position, counted from one
    pub position: i32,
    /// Price at the position, in minor units
    pub price: i64,
    /// Total volume at the position
    pub volume: i64,
    /// Number of orders at the position
    pub order_num: i64,
}

/// A pushed order-book update.
#[derive(Debug)]
pub struct PushDepth {
    /// Ask side, best first
    pub asks: Vec<Depth>,
    /// Bid side, best first
    pub bids: Vec<Depth>,
}

/// Brokers queued at one book position.
#[derive(Debug)]
pub struct Brokers {
    /// Book position, counted from one
    pub position: i32,
    /// Broker identifiers at the position
    pub broker_ids: Vec<i32>,
}

/// A pushed broker-queue update.
#[derive(Debug)]
pub struct PushBrokers {
    /// Ask side broker queue
    pub ask_brokers: Vec<Brokers>,
    /// Bid side broker queue
    pub bid_brokers: Vec<Brokers>,
}

/// One trade.
#[derive(Clone, Copy, Debug, PartialEq, Eq, Structural)]
pub struct Trade {
    /// Traded price, in minor units
    pub price: i64,
    /// Traded volume
    pub volume: i64,
    /// Time of the trade, seconds since the Unix epoch
    pub timestamp: i64,
}

/// A pushed batch of trades.
#[derive(Debug)]
pub struct PushTrades {
    /// The trades, in trade order
    pub trades: Vec<Trade>,
}

/// One candlestick bar.
#[derive(Clone, Copy, Debug, PartialEq, Eq, Structural)]
pub struct Candlestick {
    /// Closing price, in minor units
    pub close: i64,
    /// Opening price, in minor units
    pub open: i64,
    /// Lowest price, in minor units
    pub low: i64,
    /// Highest price, in minor units
    pub high: i64,
    /// Traded volume in the bar
    pub volume: i64,
    /// Traded turnover in the bar, in minor units
    pub turnover: i64,
    /// Start of the bar, seconds since the Unix epoch
    pub timestamp: i64,
}

/// A pushed candlestick update.
#[derive(Clone, Copy, Debug, PartialEq, Eq, Structural)]
pub struct PushCandlestick {
    /// Period of the bar
    pub period: Period,
    /// The updated bar
    pub candlestick: Candlestick,
    /// True when the bar is closed and will not change again
    pub is_confirmed: bool,
}

/// A pushed order state change, from the trade side of the gateway.
#[derive(Clone, Debug)]
pub struct PushOrderChanged {
    /// Identifier of the changed order
    pub order_id: String,
    /// New status of the order
    pub status: String,
}

/// What an unsolicited push frame carries, after decoding.
#[derive(Debug)]
pub enum PushEventDetail {
    /// A quote update
    Quote(PushQuote),
    /// An order-book update
    Depth(PushDepth),
    /// A broker-queue update
    Brokers(PushBrokers),
    /// A batch of trades
    Trade(PushTrades),
    /// A candlestick update
    Candlestick(PushCandlestick),
    /// An order state change
    OrderChanged(PushOrderChanged),
}

/// A typed push event, as handed to the subscriber channel.
#[derive(Debug)]
pub struct PushEvent {
    /// The symbol the event is about
    pub symbol: String,
    /// What happened
    pub detail: PushEventDetail,
}

/// A snapshot quote served from local push-derived state.
#[derive(Clone, Debug, PartialEq, Eq)]
pub struct RealtimeQuote {
    /// The symbol the quote is about
    pub symbol: String,
    /// Latest traded price, in minor units
    pub last_done: i64,
    /// Opening price of the day, in minor units
    pub open: i64,
    /// Highest price of the day, in minor units
    pub high: i64,
    /// Lowest price of the day, in minor units
    pub low: i64,
    /// Time of the latest trade, seconds since the Unix epoch
    pub timestamp: i64,
    /// Traded volume of the day
    pub volume: i64,
    /// Traded turnover of the day, in minor units
    pub turnover: i64,
}

} // verus!
