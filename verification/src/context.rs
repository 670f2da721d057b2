//! The quote context: the one surface callers see.
//!
//! It owns the core actor state, memoizes slow-changing reference data
//! behind TTL caches, and builds the outbound requests of the streaming
//! and REST operations. The transport, the payload codec and the HTTP
//! client stay outside; what reaches them is decided and checked here.
use vstd::prelude::*;
use vstd::string::StringExecFns;

use crate::actor::{
    broker_lists_equal, contains_csub, contains_str, merged_flags, remaining_flags,
    spec_last_candles, spec_last_trades, spec_realtime_quotes, CoreState,
    SubscribeCandlesticksRequest, SubscribeRequest, UnsubscribeCandlesticksRequest,
    UnsubscribeRequest,
};
use crate::cache::{
    contains_key, find_entry, keyed_wf, spec_decision, spec_fresh, spec_key_decision,
    spec_key_fresh, stored_key_value, stored_value, Cache, CacheDecision, CacheEntry, CacheWithKey,
};
use crate::error::Error;
use crate::session::SessionInterval;
use crate::symbol::spec_normalize_symbol;
use crate::types::{
    Candlestick, Language, Market, Period, PushBrokers, PushDepth, RealtimeQuote, Subscription,
    Trade, TradeSessions,
};
use crate::utils::{format_date, parse_date, spec_format_date, spec_parse_date, Date};

verus! {

/// Time-to-live of the participant registry, in seconds.
pub const PARTICIPANT_INFO_CACHE_TIMEOUT: u64 = 1800;

/// Time-to-live of the warrant issuer registry, in seconds.
pub const ISSUER_INFO_CACHE_TIMEOUT: u64 = 1800;

/// Time-to-live of option chain expiry date lists, in seconds.
pub const OPTION_CHAIN_EXPIRY_DATE_LIST_CACHE_TIMEOUT: u64 = 1800;

/// Time-to-live of option chain strike tables, in seconds.
pub const OPTION_CHAIN_STRIKE_INFO_CACHE_TIMEOUT: u64 = 1800;

/// Time-to-live of trading-session calendars, in seconds.
pub const TRADING_SESSION_CACHE_TIMEOUT: u64 = 7200;

/// One participant of a market, with its broker identifiers.
#[derive(Clone, Debug)]
pub struct ParticipantInfo {
    /// Broker identifiers of the participant
    pub broker_ids: Vec<i32>,
    /// Simplified Chinese name
    pub name_cn: String,
    /// English name
    pub name_en: String,
    /// Traditional Chinese name
    pub name_hk: String,
}

/// One warrant issuer.
#[derive(Clone, Debug)]
pub struct IssuerInfo {
    /// Issuer identifier
    pub issuer_id: i32,
    /// Simplified Chinese name
    pub name_cn: String,
    /// English name
    pub name_en: String,
    /// Traditional Chinese name
    pub name_hk: String,
}

/// The session calendar of one market.
#[derive(Clone, Debug)]
pub struct MarketTradingSession {
    /// The market the calendar belongs to
    pub market: Market,
    /// The tagged segments of the market's trading day
    pub trade_sessions: Vec<SessionInterval>,
}

/// One strike of an option chain.
#[derive(Clone, Debug)]
pub struct StrikePriceInfo {
    /// Strike price, in minor units
    pub price: i64,
    /// Symbol of the call at this strike
    pub call_symbol: String,
    /// Symbol of the put at this strike
    pub put_symbol: String,
    /// True for a standard contract
    pub standard: bool,
}

/// One quote package active on the account.
#[derive(Clone, Debug)]
pub struct QuotePackageDetail {
    /// Key of the package
    pub key: String,
    /// Display name of the package
    pub name: String,
}

/// Trading days of a market over a queried range.
#[derive(Clone, Debug)]
pub struct MarketTradingDays {
    /// Full trading days
    pub trading_days: Vec<Date>,
    /// Half trading days
    pub half_trading_days: Vec<Date>,
}

/// The quote context: core actor state, reference-data caches, and the
/// account facts learned at connection time.
pub struct QuoteContext {
    /// The push-derived state of the core actor.
    pub core: CoreState,
    /// Cached participant registry.
    pub cache_participants: Cache<Vec<ParticipantInfo>>,
    /// Cached warrant issuer registry.
    pub cache_issuers: Cache<Vec<IssuerInfo>>,
    /// Cached trading-session calendars.
    pub cache_trading_session: Cache<Vec<MarketTradingSession>>,
    /// Cached option chain expiry dates, keyed by symbol.
    pub cache_option_chain_expiry_date_list: CacheWithKey<Vec<Date>>,
    /// Cached option chain strike tables, keyed by symbol and expiry date.
    pub cache_option_chain_strike_info: CacheWithKey<Vec<StrikePriceInfo>>,
    /// Member identifier of the account.
    pub member_id: i64,
    /// Quote level of the account.
    pub quote_level: String,
    /// Quote packages active on the account.
    pub quote_package_details: Vec<QuotePackageDetail>,
    /// Language texts are requested in.
    pub language: Language,
}

impl QuoteContext {
    /// All tables of the context well formed.
    pub open spec fn wf(&self) -> bool {
        &&& self.core.wf()
        &&& crate::cache::keyed_wf(&self.cache_option_chain_expiry_date_list)
        &&& crate::cache::keyed_wf(&self.cache_option_chain_strike_info)
    }

    /// A fresh context with empty state, empty caches at their configured
    /// time-to-live, and the given account facts.
    pub fn new(
        member_id: i64,
        quote_level: String,
        quote_package_details: Vec<QuotePackageDetail>,
        language: Language,
    ) -> (r: Self)
        ensures
            r.wf(),
            r.member_id == member_id,
            r.quote_level == quote_level,
            r.quote_package_details == quote_package_details,
            r.language == language,
            r.cache_participants.ttl == PARTICIPANT_INFO_CACHE_TIMEOUT,
            r.cache_participants.entry is None,
            !r.cache_participants.in_flight,
            r.cache_issuers.ttl == ISSUER_INFO_CACHE_TIMEOUT,
            r.cache_issuers.entry is None,
            !r.cache_issuers.in_flight,
            r.cache_trading_session.ttl == TRADING_SESSION_CACHE_TIMEOUT,
            r.cache_trading_session.entry is None,
            !r.cache_trading_session.in_flight,
            r.cache_option_chain_expiry_date_list.ttl
                == OPTION_CHAIN_EXPIRY_DATE_LIST_CACHE_TIMEOUT,
            r.cache_option_chain_expiry_date_list.entries@.len() == 0,
            r.cache_option_chain_expiry_date_list.in_flight@.len() == 0,
            r.cache_option_chain_strike_info.ttl == OPTION_CHAIN_STRIKE_INFO_CACHE_TIMEOUT,
            r.cache_option_chain_strike_info.entries@.len() == 0,
            r.cache_option_chain_strike_info.in_flight@.len() == 0,
            r.core.subscriptions.entries@.len() == 0,
            r.core.candlestick_subs@.len() == 0,
    {
        QuoteContext {
            core: CoreState::new(),
            cache_participants: Cache::new(PARTICIPANT_INFO_CACHE_TIMEOUT),
            cache_issuers: Cache::new(ISSUER_INFO_CACHE_TIMEOUT),
            cache_trading_session: Cache::new(TRADING_SESSION_CACHE_TIMEOUT),
            cache_option_chain_expiry_date_list: CacheWithKey::new(
                OPTION_CHAIN_EXPIRY_DATE_LIST_CACHE_TIMEOUT,
            ),
            cache_option_chain_strike_info: CacheWithKey::new(
                OPTION_CHAIN_STRIKE_INFO_CACHE_TIMEOUT,
            ),
            member_id,
            quote_level,
            quote_package_details,
            language,
        }
    }

    /// The member identifier of the account.
    pub fn member_id(&self) -> (r: i64)
        ensures
            r == self.member_id,
    {
        self.member_id
    }

    /// The quote level of the account.
    pub fn quote_level(&self) -> (r: &String)
        ensures
            r == self.quote_level,
    {
        &self.quote_level
    }

    /// The quote packages active on the account.
    pub fn quote_package_details(&self) -> (r: &Vec<QuotePackageDetail>)
        ensures
            r == self.quote_package_details,
    {
        &self.quote_package_details
    }

    /// The account facts and language of `self` and `other` are the same.
    pub open spec fn account_unchanged(&self, other: &QuoteContext) -> bool {
        &&& self.member_id == other.member_id
        &&& self.quote_level == other.quote_level
        &&& self.quote_package_details == other.quote_package_details
        &&& self.language == other.language
    }

    /// Every cache of `self` and `other` is the same.
    pub open spec fn caches_unchanged(&self, other: &QuoteContext) -> bool {
        &&& self.cache_participants == other.cache_participants
        &&& self.cache_issuers == other.cache_issuers
        &&& self.cache_trading_session == other.cache_trading_session
        &&& self.cache_option_chain_expiry_date_list == other.cache_option_chain_expiry_date_list
        &&& self.cache_option_chain_strike_info == other.cache_option_chain_strike_info
    }

    /// Subscribe push kinds for a list of symbols; see
    /// [`CoreState::subscribe`].
    pub fn subscribe(&mut self, symbols: &Vec<String>, sub_types: u8, is_first_push: bool) -> (req:
        SubscribeRequest)
        requires
            old(self).wf(),
        ensures
            final(self).wf(),
            final(self).account_unchanged(old(self)),
            final(self).caches_unchanged(old(self)),
            req.sub_types == sub_types,
            req.is_first_push == is_first_push,
            req.symbols@.len() == symbols@.len(),
            forall|i: int|
                0 <= i < symbols@.len() ==> (#[trigger] req.symbols@[i])@ == spec_normalize_symbol(
                    symbols@[i]@,
                ),
            forall|k: Seq<char>|
                contains_str(req.symbols@, k)
                    ==> #[trigger] final(self).core.subscriptions.lookup(k) == Some(
                    merged_flags(old(self).core.subscriptions.lookup(k), sub_types),
                ),
            forall|k: Seq<char>|
                !contains_str(req.symbols@, k)
                    ==> #[trigger] final(self).core.subscriptions.lookup(k) == old(
                    self,
                ).core.subscriptions.lookup(k),
            final(self).core.candlestick_subs == old(self).core.candlestick_subs,
            final(self).core.snapshots_unchanged(&old(self).core),
    {
        self.core.subscribe(symbols, sub_types, is_first_push)
    }

    /// Unsubscribe push kinds for a list of symbols; see
    /// [`CoreState::unsubscribe`].
    pub fn unsubscribe(&mut self, symbols: &Vec<String>, sub_types: u8) -> (req: UnsubscribeRequest)
        requires
            old(self).wf(),
        ensures
            final(self).wf(),
            final(self).account_unchanged(old(self)),
            final(self).caches_unchanged(old(self)),
            req.sub_types == sub_types,
            req.symbols@.len() == symbols@.len(),
            forall|i: int|
                0 <= i < symbols@.len() ==> (#[trigger] req.symbols@[i])@ == spec_normalize_symbol(
                    symbols@[i]@,
                ),
            forall|k: Seq<char>|
                contains_str(req.symbols@, k)
                    ==> #[trigger] final(self).core.subscriptions.lookup(k) == remaining_flags(
                    old(self).core.subscriptions.lookup(k),
                    sub_types,
                ),
            forall|k: Seq<char>|
                !contains_str(req.symbols@, k)
                    ==> #[trigger] final(self).core.subscriptions.lookup(k) == old(
                    self,
                ).core.subscriptions.lookup(k),
            final(self).core.candlestick_subs == old(self).core.candlestick_subs,
            final(self).core.snapshots_unchanged(&old(self).core),
    {
        self.core.unsubscribe(symbols, sub_types)
    }

    /// Subscribe candlesticks of one period for a symbol; see
    /// [`CoreState::subscribe_candlesticks`].
    pub fn subscribe_candlesticks(
        &mut self,
        symbol: &String,
        period: Period,
        trade_sessions: TradeSessions,
    ) -> (req: SubscribeCandlesticksRequest)
        requires
            old(self).wf(),
        ensures
            final(self).wf(),
            final(self).account_unchanged(old(self)),
            final(self).caches_unchanged(old(self)),
            req.symbol@ == spec_normalize_symbol(symbol@),
            req.period == period,
            req.trade_sessions == trade_sessions,
            contains_csub(final(self).core.candlestick_subs@, req.symbol@, period),
            forall|k2: Seq<char>, p2: Period|
                !(k2 == req.symbol@ && p2 == period) ==> #[trigger] contains_csub(
                    final(self).core.candlestick_subs@,
                    k2,
                    p2,
                ) == contains_csub(old(self).core.candlestick_subs@, k2, p2),
            final(self).core.subscriptions == old(self).core.subscriptions,
            final(self).core.snapshots_unchanged(&old(self).core),
    {
        self.core.subscribe_candlesticks(symbol, period, trade_sessions)
    }

    /// Unsubscribe candlesticks of one period for a symbol; see
    /// [`CoreState::unsubscribe_candlesticks`].
    pub fn unsubscribe_candlesticks(&mut self, symbol: &String, period: Period) -> (req:
        UnsubscribeCandlesticksRequest)
        requires
            old(self).wf(),
        ensures
            final(self).wf(),
            final(self).account_unchanged(old(self)),
            final(self).caches_unchanged(old(self)),
            req.symbol@ == spec_normalize_symbol(symbol@),
            req.period == period,
            !contains_csub(final(self).core.candlestick_subs@, req.symbol@, period),
            forall|k2: Seq<char>, p2: Period|
                !(k2 == req.symbol@ && p2 == period) ==> #[trigger] contains_csub(
                    final(self).core.candlestick_subs@,
                    k2,
                    p2,
                ) == contains_csub(old(self).core.candlestick_subs@, k2, p2),
            final(self).core.subscriptions == old(self).core.subscriptions,
            final(self).core.snapshots_unchanged(&old(self).core),
    {
        self.core.unsubscribe_candlesticks(symbol, period)
    }

    /// The current subscription table; see [`CoreState::subscriptions`].
    pub fn subscriptions(&self) -> (r: Vec<Subscription>)
        requires
            self.wf(),
        ensures
            r@.len() == self.core.subscriptions.entries@.len(),
            forall|i: int|
                0 <= i < r@.len() ==> (#[trigger] r@[i]).symbol@
                    == self.core.subscriptions.entries@[i].0@ && r@[i].sub_types
                    == self.core.subscriptions.entries@[i].1,
    {
        self.core.subscriptions()
    }

    /// The snapshot quotes of the requested symbols, from local state
    /// without a round trip; see [`CoreState::realtime_quote`].
    pub fn realtime_quote(&self, symbols: &Vec<String>) -> (r: Vec<RealtimeQuote>)
        requires
            self.wf(),
        ensures
            r@ == spec_realtime_quotes(&self.core.quotes, symbols@),
    {
        self.core.realtime_quote(symbols)
    }

    /// The snapshot order book of a symbol; see
    /// [`CoreState::realtime_depth`].
    pub fn realtime_depth(&self, symbol: &String) -> (r: PushDepth)
        requires
            self.wf(),
        ensures
            match self.core.depths.lookup(symbol@) {
                Some(d) => r.asks@ == d.asks@ && r.bids@ == d.bids@,
                None => r.asks@.len() == 0 && r.bids@.len() == 0,
            },
    {
        self.core.realtime_depth(symbol)
    }

    /// The snapshot broker queue of a symbol; see
    /// [`CoreState::realtime_brokers`].
    pub fn realtime_brokers(&self, symbol: &String) -> (r: PushBrokers)
        requires
            self.wf(),
        ensures
            match self.core.brokers.lookup(symbol@) {
                Some(b) => broker_lists_equal(r.ask_brokers@, b.ask_brokers@) && broker_lists_equal(
                    r.bid_brokers@,
                    b.bid_brokers@,
                ),
                None => r.ask_brokers@.len() == 0 && r.bid_brokers@.len() == 0,
            },
    {
        self.core.realtime_brokers(symbol)
    }

    /// The most recent snapshot trades of a symbol; see
    /// [`CoreState::realtime_trades`].
    pub fn realtime_trades(&self, symbol: &String, count: usize) -> (r: Vec<Trade>)
        requires
            self.wf(),
        ensures
            r@ == spec_last_trades(self.core.trades.lookup(symbol@), count as int),
    {
        self.core.realtime_trades(symbol, count)
    }

    /// The most recent snapshot bars of a symbol and period; see
    /// [`CoreState::realtime_candlesticks`].
    pub fn realtime_candlesticks(&self, symbol: &String, period: Period, count: usize) -> (r: Vec<
        Candlestick,
    >)
        requires
            self.wf(),
        ensures
            r@ == spec_last_candles(self.core.candles.lookup(symbol@, period), count as int),
    {
        self.core.realtime_candlesticks(symbol, period, count)
    }

    /// Decide how to serve the participant registry at time `now`; a
    /// `Start` answer marks its fetch as in flight.
    pub fn participants(&mut self, now: u64) -> (r: CacheDecision)
        requires
            old(self).wf(),
        ensures
            final(self).wf(),
            r == spec_decision(&old(self).cache_participants, now as int),
            cache_stepped(&old(self).cache_participants, &final(self).cache_participants, r),
            final(self).core == old(self).core,
            final(self).account_unchanged(old(self)),
            final(self).cache_issuers == old(self).cache_issuers,
            final(self).cache_trading_session == old(self).cache_trading_session,
            final(self).cache_option_chain_expiry_date_list == old(
                self,
            ).cache_option_chain_expiry_date_list,
            final(self).cache_option_chain_strike_info == old(self).cache_option_chain_strike_info,
    {
        self.cache_participants.begin(now)
    }

    /// The cached participant registry, while fresh.
    pub fn participants_value(&self, now: u64) -> (r: Option<&Vec<ParticipantInfo>>)
        ensures
            match r {
                Some(v) => spec_fresh(&self.cache_participants, now as int) && stored_value(
                    &self.cache_participants,
                ) == Some(*v),
                None => !spec_fresh(&self.cache_participants, now as int),
            },
    {
        self.cache_participants.get(now)
    }

    /// Report the outcome of the participant fetch a `Start` answer asked
    /// for.
    pub fn participants_complete(&mut self, now: u64, result: Option<Vec<ParticipantInfo>>)
        requires
            old(self).wf(),
        ensures
            final(self).wf(),
            cache_completed(
                &old(self).cache_participants,
                &final(self).cache_participants,
                now,
                result,
            ),
            final(self).core == old(self).core,
            final(self).account_unchanged(old(self)),
            final(self).cache_issuers == old(self).cache_issuers,
            final(self).cache_trading_session == old(self).cache_trading_session,
            final(self).cache_option_chain_expiry_date_list == old(
                self,
            ).cache_option_chain_expiry_date_list,
            final(self).cache_option_chain_strike_info == old(self).cache_option_chain_strike_info,
    {
        self.cache_participants.complete(now, result)
    }

    /// Decide how to serve the warrant issuer registry at time `now`; a
    /// `Start` answer marks its fetch as in flight.
    pub fn warrant_issuers(&mut self, now: u64) -> (r: CacheDecision)
        requires
            old(self).wf(),
        ensures
            final(self).wf(),
            r == spec_decision(&old(self).cache_issuers, now as int),
            cache_stepped(&old(self).cache_issuers, &final(self).cache_issuers, r),
            final(self).core == old(self).core,
            final(self).account_unchanged(old(self)),
            final(self).cache_participants == old(self).cache_participants,
            final(self).cache_trading_session == old(self).cache_trading_session,
            final(self).cache_option_chain_expiry_date_list == old(
                self,
            ).cache_option_chain_expiry_date_list,
            final(self).cache_option_chain_strike_info == old(self).cache_option_chain_strike_info,
    {
        self.cache_issuers.begin(now)
    }

    /// The cached warrant issuer registry, while fresh.
    pub fn warrant_issuers_value(&self, now: u64) -> (r: Option<&Vec<IssuerInfo>>)
        ensures
            match r {
                Some(v) => spec_fresh(&self.cache_issuers, now as int) && stored_value(
                    &self.cache_issuers,
                ) == Some(*v),
                None => !spec_fresh(&self.cache_issuers, now as int),
            },
    {
        self.cache_issuers.get(now)
    }

    /// Report the outcome of the warrant issuer fetch a `Start` answer
    /// asked for.
    pub fn warrant_issuers_complete(&mut self, now: u64, result: Option<Vec<IssuerInfo>>)
        requires
            old(self).wf(),
        ensures
            final(self).wf(),
            cache_completed(&old(self).cache_issuers, &final(self).cache_issuers, now, result),
            final(self).core == old(self).core,
            final(self).account_unchanged(old(self)),
            final(self).cache_participants == old(self).cache_participants,
            final(self).cache_trading_session == old(self).cache_trading_session,
            final(self).cache_option_chain_expiry_date_list == old(
                self,
            ).cache_option_chain_expiry_date_list,
            final(self).cache_option_chain_strike_info == old(self).cache_option_chain_strike_info,
    {
        self.cache_issuers.complete(now, result)
    }

    /// Decide how to serve the trading-session calendars at time `now`; a
    /// `Start` answer marks their fetch as in flight.
    pub fn trading_session(&mut self, now: u64) -> (r: CacheDecision)
        requires
            old(self).wf(),
        ensures
            final(self).wf(),
            r == spec_decision(&old(self).cache_trading_session, now as int),
            cache_stepped(&old(self).cache_trading_session, &final(self).cache_trading_session, r),
            final(self).core == old(self).core,
            final(self).account_unchanged(old(self)),
            final(self).cache_participants == old(self).cache_participants,
            final(self).cache_issuers == old(self).cache_issuers,
            final(self).cache_option_chain_expiry_date_list == old(
                self,
            ).cache_option_chain_expiry_date_list,
            final(self).cache_option_chain_strike_info == old(self).cache_option_chain_strike_info,
    {
        self.cache_trading_session.begin(now)
    }

    /// The cached trading-session calendars, while fresh.
    pub fn trading_session_value(&self, now: u64) -> (r: Option<&Vec<MarketTradingSession>>)
        ensures
            match r {
                Some(v) => spec_fresh(&self.cache_trading_session, now as int) && stored_value(
                    &self.cache_trading_session,
                ) == Some(*v),
                None => !spec_fresh(&self.cache_trading_session, now as int),
            },
    {
        self.cache_trading_session.get(now)
    }

    /// Report the outcome of the trading-session fetch a `Start` answer
    /// asked for.
    pub fn trading_session_complete(&mut self, now: u64, result: Option<Vec<MarketTradingSession>>)
        requires
            old(self).wf(),
        ensures
            final(self).wf(),
            cache_completed(
                &old(self).cache_trading_session,
                &final(self).cache_trading_session,
                now,
                result,
            ),
            final(self).core == old(self).core,
            final(self).account_unchanged(old(self)),
            final(self).cache_participants == old(self).cache_participants,
            final(self).cache_issuers == old(self).cache_issuers,
            final(self).cache_option_chain_expiry_date_list == old(
                self,
            ).cache_option_chain_expiry_date_list,
            final(self).cache_option_chain_strike_info == old(self).cache_option_chain_strike_info,
    {
        self.cache_trading_session.complete(now, result)
    }

    /// Decide how to serve a symbol's option chain expiry dates at time
    /// `now`; a `Start` answer marks that key's fetch as in flight.
    pub fn option_chain_expiry_date_list(&mut self, symbol: &String, now: u64) -> (r: CacheDecision)
        requires
            old(self).wf(),
        ensures
            final(self).wf(),
            r == spec_key_decision(
                &old(self).cache_option_chain_expiry_date_list,
                symbol@,
                now as int,
            ),
            keyed_cache_stepped(
                &old(self).cache_option_chain_expiry_date_list,
                &final(self).cache_option_chain_expiry_date_list,
                *symbol,
                r,
            ),
            final(self).core == old(self).core,
            final(self).account_unchanged(old(self)),
            final(self).cache_participants == old(self).cache_participants,
            final(self).cache_issuers == old(self).cache_issuers,
            final(self).cache_trading_session == old(self).cache_trading_session,
            final(self).cache_option_chain_strike_info == old(self).cache_option_chain_strike_info,
    {
        self.cache_option_chain_expiry_date_list.begin(symbol, now)
    }

    /// A symbol's cached option chain expiry dates, while fresh.
    pub fn option_chain_expiry_date_list_value(&self, symbol: &String, now: u64) -> (r: Option<
        &Vec<Date>,
    >)
        requires
            self.wf(),
        ensures
            match r {
                Some(v) => spec_key_fresh(
                    &self.cache_option_chain_expiry_date_list,
                    symbol@,
                    now as int,
                ) && stored_key_value(&self.cache_option_chain_expiry_date_list, symbol@) == Some(
                    *v,
                ),
                None => !spec_key_fresh(
                    &self.cache_option_chain_expiry_date_list,
                    symbol@,
                    now as int,
                ),
            },
    {
        self.cache_option_chain_expiry_date_list.get(symbol, now)
    }

    /// Report the outcome of a symbol's option chain expiry date fetch.
    pub fn option_chain_expiry_date_list_complete(
        &mut self,
        symbol: &String,
        now: u64,
        result: Option<Vec<Date>>,
    )
        requires
            old(self).wf(),
        ensures
            final(self).wf(),
            keyed_cache_completed(
                &old(self).cache_option_chain_expiry_date_list,
                &final(self).cache_option_chain_expiry_date_list,
                symbol@,
                now,
                result,
            ),
            final(self).core == old(self).core,
            final(self).account_unchanged(old(self)),
            final(self).cache_participants == old(self).cache_participants,
            final(self).cache_issuers == old(self).cache_issuers,
            final(self).cache_trading_session == old(self).cache_trading_session,
            final(self).cache_option_chain_strike_info == old(self).cache_option_chain_strike_info,
    {
        self.cache_option_chain_expiry_date_list.complete(symbol, now, result)
    }

    /// Decide how to serve a symbol's strike table for one expiry date at
    /// time `now`; a `Start` answer marks that key's fetch as in flight.
    pub fn option_chain_info_by_date(&mut self, symbol: &String, expiry_date: Date, now: u64) -> (r:
        CacheDecision)
        requires
            old(self).wf(),
        ensures
            final(self).wf(),
            r == spec_key_decision(
                &old(self).cache_option_chain_strike_info,
                strike_info_key(symbol@, expiry_date),
                now as int,
            ),
            exists|key: String|
                key@ == strike_info_key(symbol@, expiry_date) && keyed_cache_stepped(
                    &old(self).cache_option_chain_strike_info,
                    &final(self).cache_option_chain_strike_info,
                    key,
                    r,
                ),
            final(self).core == old(self).core,
            final(self).account_unchanged(old(self)),
            final(self).cache_participants == old(self).cache_participants,
            final(self).cache_issuers == old(self).cache_issuers,
            final(self).cache_trading_session == old(self).cache_trading_session,
            final(self).cache_option_chain_expiry_date_list == old(
                self,
            ).cache_option_chain_expiry_date_list,
    {
        let key = make_strike_info_key(symbol, expiry_date);
        let r = self.cache_option_chain_strike_info.begin(&key, now);
        proof {
            assert(key@ == strike_info_key(symbol@, expiry_date) && keyed_cache_stepped(
                &old(self).cache_option_chain_strike_info,
                &self.cache_option_chain_strike_info,
                key,
                r,
            ));
        }
        r
    }

    /// A symbol's cached strike table for one expiry date, while fresh.
    pub fn option_chain_info_by_date_value(&self, symbol: &String, expiry_date: Date, now: u64) -> (
        r: Option<&Vec<StrikePriceInfo>>)
        requires
            self.wf(),
        ensures
            match r {
                Some(v) => spec_key_fresh(
                    &self.cache_option_chain_strike_info,
                    strike_info_key(symbol@, expiry_date),
                    now as int,
                ) && stored_key_value(
                    &self.cache_option_chain_strike_info,
                    strike_info_key(symbol@, expiry_date),
                ) == Some(*v),
                None => !spec_key_fresh(
                    &self.cache_option_chain_strike_info,
                    strike_info_key(symbol@, expiry_date),
                    now as int,
                ),
            },
    {
        let key = make_strike_info_key(symbol, expiry_date);
        self.cache_option_chain_strike_info.get(&key, now)
    }

    /// Report the outcome of a symbol's strike table fetch for one expiry
    /// date.
    pub fn option_chain_info_by_date_complete(
        &mut self,
        symbol: &String,
        expiry_date: Date,
        now: u64,
        result: Option<Vec<StrikePriceInfo>>,
    )
        requires
            old(self).wf(),
        ensures
            final(self).wf(),
            keyed_cache_completed(
                &old(self).cache_option_chain_strike_info,
                &final(self).cache_option_chain_strike_info,
                strike_info_key(symbol@, expiry_date),
                now,
                result,
            ),
            final(self).core == old(self).core,
            final(self).account_unchanged(old(self)),
            final(self).cache_participants == old(self).cache_participants,
            final(self).cache_issuers == old(self).cache_issuers,
            final(self).cache_trading_session == old(self).cache_trading_session,
            final(self).cache_option_chain_expiry_date_list == old(
                self,
            ).cache_option_chain_expiry_date_list,
    {
        let key = make_strike_info_key(symbol, expiry_date);
        self.cache_option_chain_strike_info.complete(&key, now, result)
    }
}

/// How one step of a plain cache relates the state before to the state
/// after: nothing but the in-flight mark may move, and only on `Start`.
pub open spec fn cache_stepped<T>(before: &Cache<T>, after: &Cache<T>, r: CacheDecision) -> bool {
    &&& after.ttl == before.ttl
    &&& after.entry == before.entry
    &&& after.in_flight == (before.in_flight || r == CacheDecision::Start)
}

/// How a completion of a plain cache relates the state before to the
/// state after: the in-flight mark clears, and a successful result is
/// stored with a fresh timestamp while a failure changes nothing.
pub open spec fn cache_completed<T>(
    before: &Cache<T>,
    after: &Cache<T>,
    now: u64,
    result: Option<T>,
) -> bool {
    &&& after.ttl == before.ttl
    &&& !after.in_flight
    &&& match result {
        Some(v) => after.entry == Some(CacheEntry { value: v, fetched_at: now }),
        None => after.entry == before.entry,
    }
}

/// How one step of a keyed cache relates the state before to the state
/// after for key `key`: entries stay, and only a `Start` answer adds the
/// key's in-flight mark.
pub open spec fn keyed_cache_stepped<T>(
    before: &CacheWithKey<T>,
    after: &CacheWithKey<T>,
    key: String,
    r: CacheDecision,
) -> bool {
    &&& after.ttl == before.ttl
    &&& after.entries == before.entries
    &&& if r == CacheDecision::Start {
        after.in_flight@ == before.in_flight@.push(key)
    } else {
        after.in_flight == before.in_flight
    }
}

/// How a completion of a keyed cache relates the state before to the
/// state after for key `k`: the key's in-flight mark clears, a successful
/// result is stored for the key with a fresh timestamp, and every other
/// key is untouched.
pub open spec fn keyed_cache_completed<T>(
    before: &CacheWithKey<T>,
    after: &CacheWithKey<T>,
    k: Seq<char>,
    now: u64,
    result: Option<T>,
) -> bool {
    &&& after.ttl == before.ttl
    &&& !contains_key(after.in_flight@, k)
    &&& forall|k2: Seq<char>|
        k2 != k ==> #[trigger] contains_key(after.in_flight@, k2) == contains_key(
            before.in_flight@,
            k2,
        )
    &&& match result {
        Some(v) => find_entry(after.entries@, k) matches Some(e) && e.value == v && e.fetched_at
            == now && e.key@ == k,
        None => after.entries == before.entries,
    }
    &&& forall|k2: Seq<char>|
        k2 != k ==> #[trigger] find_entry(after.entries@, k2) == find_entry(before.entries@, k2)
}

/// The cache key of an option chain strike table: the symbol and the
/// formatted expiry date, separated by a bar.
pub open spec fn strike_info_key(symbol: Seq<char>, expiry_date: Date) -> Seq<char> {
    symbol + seq!['|'] + spec_format_date(expiry_date)
}

/// Build the cache key of an option chain strike table.
pub fn make_strike_info_key(symbol: &String, expiry_date: Date) -> (r: String)
    ensures
        r@ == strike_info_key(symbol@, expiry_date),
{
    proof {
        reveal_strlit("|");
    }
    let mut s = symbol.clone();
    s.append("|");
    let fd = format_date(expiry_date);
    s.append(fd.as_str());
    proof {
        assert(s@ =~= strike_info_key(symbol@, expiry_date));
    }
    s
}

/// Parse a list of `YYYYMMDD` fields into dates; the first malformed
/// field fails the whole list with a field-parse error.
pub fn parse_date_list(fields: &Vec<String>) -> (r: Result<Vec<Date>, Error>)
    ensures
        match r {
            Ok(ds) => ds@.len() == fields@.len() && forall|i: int|
                0 <= i < fields@.len() ==> spec_parse_date((#[trigger] fields@[i])@) == Some(
                    ds@[i],
                ),
            Err(e) => e == Error::FieldParse && exists|i: int|
                0 <= i < fields@.len() && spec_parse_date((#[trigger] fields@[i])@) is None,
        },
{
    let n = fields.len();
    let mut ds: Vec<Date> = Vec::new();
    let mut i: usize = 0;
    while i < n
        invariant
            n == fields@.len(),
            0 <= i <= n,
            ds@.len() == i,
            forall|j: int|
                0 <= j < i ==> spec_parse_date((#[trigger] fields@[j])@) == Some(ds@[j]),
        decreases n - i,
    {
        match parse_date(fields[i].as_str()) {
            Ok(d) => {
                ds.push(d);
            },
            Err(e) => {
                return Err(e);
            },
        }
        i = i + 1;
    }
    Ok(ds)
}

} // verus!
