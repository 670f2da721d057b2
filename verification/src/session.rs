//! Per-market trading-session calculator.
//!
//! A market's trading day is an ordered list of time-of-day segments, each
//! tagged with a [`TradeSession`]. Segments are closed intervals in seconds
//! of the market's local day; an overnight segment may wrap past midnight.
//! A time on the boundary between two segments belongs to the segment that
//! starts there: the new session wins over the old one.
use vstd::prelude::*;

use crate::types::{Market, TradeSession};

verus! {

/// Seconds in a civil day.
pub const SECONDS_PER_DAY: u32 = 86400;

/// One tagged segment of a market's trading day, in local seconds of day.
///
/// The segment covers the closed range from `start` to `end`; when
/// `end < start` it wraps past midnight and covers `start..=86399` together
/// with `0..=end`.
#[derive(Clone, Copy, Debug, PartialEq, Eq, Structural)]
pub struct SessionInterval {
    /// First second of day inside the segment.
    pub start: u32,
    /// Last second of day inside the segment.
    pub end: u32,
    /// Trading phase of the segment.
    pub session: TradeSession,
}

/// A single segment is valid when both bounds are times of day and the
/// segment is not degenerate.
pub open spec fn interval_valid(iv: SessionInterval) -> bool {
    iv.start < 86400 && iv.end < 86400 && iv.start != iv.end
}

/// True when second-of-day `s` lies inside the closed, possibly wrapping
/// segment `iv`.
pub open spec fn in_interval(iv: SessionInterval, s: int) -> bool {
    if iv.start <= iv.end {
        iv.start <= s <= iv.end
    } else {
        iv.start <= s < 86400 || 0 <= s <= iv.end
    }
}

/// A session table is well formed when every segment is valid and two
/// distinct segments share at most a single point, which must be the end of
/// one and the start of the other.
pub open spec fn table_wf(ivs: Seq<SessionInterval>) -> bool {
    &&& forall|i: int| 0 <= i < ivs.len() ==> interval_valid(#[trigger] ivs[i])
    &&& forall|i: int, j: int, s: int|
        0 <= i < ivs.len() && 0 <= j < ivs.len() && i != j && #[trigger] in_interval(ivs[i], s)
            && #[trigger] in_interval(ivs[j], s) ==> (ivs[i].end == s && ivs[j].start == s) || (
        ivs[j].end == s && ivs[i].start == s)
}

/// The session of the first segment that starts exactly at `s`, if any.
pub open spec fn session_starting_at(ivs: Seq<SessionInterval>, s: int) -> Option<TradeSession>
    decreases ivs.len(),
{
    if ivs.len() == 0 {
        None
    } else if ivs[0].start == s {
        Some(ivs[0].session)
    } else {
        session_starting_at(ivs.drop_first(), s)
    }
}

/// The session of the first segment containing `s`, if any.
pub open spec fn session_containing(ivs: Seq<SessionInterval>, s: int) -> Option<TradeSession>
    decreases ivs.len(),
{
    if ivs.len() == 0 {
        None
    } else if in_interval(ivs[0], s) {
        Some(ivs[0].session)
    } else {
        session_containing(ivs.drop_first(), s)
    }
}

/// Classification of a local second of day against a session table: a
/// segment starting exactly at `s` wins; otherwise any segment containing
/// `s`; otherwise no session.
pub open spec fn classify_spec(ivs: Seq<SessionInterval>, s: int) -> Option<TradeSession> {
    match session_starting_at(ivs, s) {
        Some(t) => Some(t),
        None => session_containing(ivs, s),
    }
}

/// The configured session table of a market, in the market's local time.
pub open spec fn spec_market_intervals(m: Market) -> Seq<SessionInterval> {
    match m {
        Market::US => seq![
            SessionInterval { start: 72000, end: 14400, session: TradeSession::Overnight },
            SessionInterval { start: 14400, end: 34200, session: TradeSession::PreMarket },
            SessionInterval { start: 34200, end: 57600, session: TradeSession::Intraday },
            SessionInterval { start: 57600, end: 72000, session: TradeSession::PostMarket },
        ],
        Market::CN => seq![
            SessionInterval { start: 34200, end: 54000, session: TradeSession::Intraday },
        ],
        Market::HK => seq![
            SessionInterval { start: 34200, end: 57600, session: TradeSession::Intraday },
        ],
        Market::SG => seq![
            SessionInterval { start: 32400, end: 61200, session: TradeSession::Intraday },
        ],
        Market::Crypto => seq![
            SessionInterval { start: 0, end: 86399, session: TradeSession::Intraday },
        ],
        Market::Unknown => Seq::empty(),
    }
}

impl Market {
    /// Fixed UTC offset, in seconds, of the market's local clock. These
    /// are standard offsets without daylight saving; a caller with a
    /// daylight-aware time source can convert the instant itself and
    /// classify the resulting second of day with [`Market::trade_session`].
    pub fn utc_offset_seconds(&self) -> (r: i32)
        ensures
            r == spec_utc_offset_seconds(*self),
    {
        match self {
            Market::US => -18000,
            Market::CN => 28800,
            Market::HK => 28800,
            Market::SG => 28800,
            Market::Crypto => 0,
            Market::Unknown => 0,
        }
    }

    /// The configured session table of the market.
    pub fn session_table(&self) -> (r: Vec<SessionInterval>)
        ensures
            r@ == spec_market_intervals(*self),
    {
        let mut v: Vec<SessionInterval> = Vec::new();
        match self {
            Market::US => {
                v.push(SessionInterval { start: 72000, end: 14400, session: TradeSession::Overnight });
                v.push(SessionInterval { start: 14400, end: 34200, session: TradeSession::PreMarket });
                v.push(SessionInterval { start: 34200, end: 57600, session: TradeSession::Intraday });
                v.push(SessionInterval { start: 57600, end: 72000, session: TradeSession::PostMarket });
            },
            Market::CN => {
                v.push(SessionInterval { start: 34200, end: 54000, session: TradeSession::Intraday });
            },
            Market::HK => {
                v.push(SessionInterval { start: 34200, end: 57600, session: TradeSession::Intraday });
            },
            Market::SG => {
                v.push(SessionInterval { start: 32400, end: 61200, session: TradeSession::Intraday });
            },
            Market::Crypto => {
                v.push(SessionInterval { start: 0, end: 86399, session: TradeSession::Intraday });
            },
            Market::Unknown => {},
        }
        proof {
            assert(v@ =~= spec_market_intervals(*self));
        }
        v
    }

    /// Classify a local second of day against the market's session table.
    pub fn trade_session(&self, seconds_of_day: u32) -> (r: Option<TradeSession>)
        requires
            seconds_of_day < 86400,
        ensures
            r == classify_spec(spec_market_intervals(*self), seconds_of_day as int),
    {
        let table = self.session_table();
        classify(&table, seconds_of_day)
    }

    /// Classify an absolute instant, given as seconds since the Unix epoch,
    /// by first converting it to the market's local clock.
    pub fn trade_session_at(&self, timestamp: i64) -> (r: Option<TradeSession>)
        requires
            0 <= timestamp,
        ensures
            r == classify_spec(
                spec_market_intervals(*self),
                local_second_spec(timestamp as int, spec_utc_offset_seconds(*self)),
            ),
    {
        let offset = self.utc_offset_seconds();
        let s = local_seconds_of_day(timestamp, offset);
        self.trade_session(s)
    }
}

/// Second of the local civil day at which an instant falls, for a clock
/// running at the given UTC offset.
pub open spec fn local_second_spec(timestamp: int, offset_seconds: int) -> int {
    (timestamp + offset_seconds) % 86400
}

/// The second of the local civil day at which an instant falls: the
/// instant shifted by the UTC offset, modulo the seconds of a day.
pub fn local_seconds_of_day(timestamp: i64, offset_seconds: i32) -> (r: u32)
    requires
        0 <= timestamp,
        -86400 < offset_seconds < 86400,
    ensures
        r == local_second_spec(timestamp as int, offset_seconds as int),
        r < 86400,
{
    let day_second = ((timestamp as u64) % 86400) as u32;
    let shifted: i64 = day_second as i64 + offset_seconds as i64;
    let r: u32 = if shifted < 0 {
        (shifted + 86400) as u32
    } else if shifted >= 86400 {
        (shifted - 86400) as u32
    } else {
        shifted as u32
    };
    proof {
        let ts = timestamp as int;
        let off = offset_seconds as int;
        let q = ts / 86400;
        vstd::arithmetic::div_mod::lemma_fundamental_div_mod(ts, 86400);
        assert(day_second == ts % 86400);
        if shifted < 0 {
            vstd::arithmetic::div_mod::lemma_fundamental_div_mod_converse(
                ts + off,
                86400,
                q - 1,
                r as int,
            );
        } else if shifted >= 86400 {
            vstd::arithmetic::div_mod::lemma_fundamental_div_mod_converse(
                ts + off,
                86400,
                q + 1,
                r as int,
            );
        } else {
            vstd::arithmetic::div_mod::lemma_fundamental_div_mod_converse(
                ts + off,
                86400,
                q,
                r as int,
            );
        }
    }
    r
}

proof fn lemma_starting_at_none(ivs: Seq<SessionInterval>, s: int)
    requires
        forall|k: int| 0 <= k < ivs.len() ==> (#[trigger] ivs[k]).start != s,
    ensures
        session_starting_at(ivs, s) is None,
    decreases ivs.len(),
{
    if ivs.len() > 0 {
        assert(forall|k: int|
            0 <= k < ivs.drop_first().len() ==> #[trigger] ivs.drop_first()[k] == ivs[k + 1]);
        lemma_starting_at_none(ivs.drop_first(), s);
    }
}

proof fn lemma_starting_at_found(ivs: Seq<SessionInterval>, s: int, k: int)
    requires
        0 <= k < ivs.len(),
        ivs[k].start == s,
        forall|j: int| 0 <= j < ivs.len() && j != k ==> (#[trigger] ivs[j]).start != s,
    ensures
        session_starting_at(ivs, s) == Some(ivs[k].session),
    decreases ivs.len(),
{
    if k > 0 {
        assert(forall|j: int|
            0 <= j < ivs.drop_first().len() ==> #[trigger] ivs.drop_first()[j] == ivs[j + 1]);
        lemma_starting_at_found(ivs.drop_first(), s, k - 1);
    }
}

proof fn lemma_containing_none(ivs: Seq<SessionInterval>, s: int)
    requires
        forall|k: int| 0 <= k < ivs.len() ==> !in_interval(#[trigger] ivs[k], s),
    ensures
        session_containing(ivs, s) is None,
    decreases ivs.len(),
{
    if ivs.len() > 0 {
        assert(forall|k: int|
            0 <= k < ivs.drop_first().len() ==> #[trigger] ivs.drop_first()[k] == ivs[k + 1]);
        lemma_containing_none(ivs.drop_first(), s);
    }
}

proof fn lemma_containing_found(ivs: Seq<SessionInterval>, s: int, k: int)
    requires
        0 <= k < ivs.len(),
        in_interval(ivs[k], s),
        forall|j: int| 0 <= j < ivs.len() && j != k ==> !in_interval(#[trigger] ivs[j], s),
    ensures
        session_containing(ivs, s) == Some(ivs[k].session),
    decreases ivs.len(),
{
    if k > 0 {
        assert(forall|j: int|
            0 <= j < ivs.drop_first().len() ==> #[trigger] ivs.drop_first()[j] == ivs[j + 1]);
        lemma_containing_found(ivs.drop_first(), s, k - 1);
    }
}

/// Every configured market table is well formed: valid segments that share
/// at most a boundary point.
pub proof fn lemma_market_table_wf(m: Market)
    ensures
        table_wf(spec_market_intervals(m)),
{
    let ivs = spec_market_intervals(m);
    match m {
        Market::US => {
            assert forall|i: int, j: int, s: int|
                0 <= i < ivs.len() && 0 <= j < ivs.len() && i != j && #[trigger] in_interval(
                    ivs[i],
                    s,
                ) && #[trigger] in_interval(ivs[j], s) implies (ivs[i].end == s && ivs[j].start
                == s) || (ivs[j].end == s && ivs[i].start == s) by {
                assert(0 <= i < 4 && 0 <= j < 4);
            }
        },
        _ => {},
    }
}

/// A segment always contains its own start.
proof fn lemma_start_in_interval(iv: SessionInterval)
    requires
        interval_valid(iv),
    ensures
        in_interval(iv, iv.start as int),
{
}

/// Law: a time inside a configured segment, and not at any segment's start,
/// classifies as that segment's tagged phase.
pub proof fn lemma_session_inside(m: Market, s: int, k: int)
    requires
        0 <= s < 86400,
        0 <= k < spec_market_intervals(m).len(),
        in_interval(spec_market_intervals(m)[k], s),
        forall|j: int|
            0 <= j < spec_market_intervals(m).len() ==> (#[trigger] spec_market_intervals(
                m,
            )[j]).start != s,
    ensures
        classify_spec(spec_market_intervals(m), s) == Some(spec_market_intervals(m)[k].session),
{
    let ivs = spec_market_intervals(m);
    lemma_market_table_wf(m);
    assert forall|j: int| 0 <= j < ivs.len() && j != k implies !in_interval(
        #[trigger] ivs[j],
        s,
    ) by {
        if in_interval(ivs[j], s) {
            assert(in_interval(ivs[k], s));
        }
    }
    lemma_starting_at_none(ivs, s);
    lemma_containing_found(ivs, s, k);
}

/// Law: a time at a configured segment's start classifies as that segment's
/// phase, even when another segment ends at the same moment: the new
/// session wins over the old one.
pub proof fn lemma_session_at_start(m: Market, k: int)
    requires
        0 <= k < spec_market_intervals(m).len(),
    ensures
        classify_spec(spec_market_intervals(m), spec_market_intervals(m)[k].start as int) == Some(
            spec_market_intervals(m)[k].session,
        ),
{
    let ivs = spec_market_intervals(m);
    let s = ivs[k].start as int;
    lemma_market_table_wf(m);
    assert forall|j: int| 0 <= j < ivs.len() && j != k implies (#[trigger] ivs[j]).start != s by {
        if ivs[j].start == s {
            lemma_start_in_interval(ivs[j]);
            lemma_start_in_interval(ivs[k]);
            assert(in_interval(ivs[j], s) && in_interval(ivs[k], s));
        }
    }
    lemma_starting_at_found(ivs, s, k);
}

/// Law: a segment that wraps past midnight contains both the last second
/// of one civil day and the first second of the next, so both instants
/// classify as its phase whenever no other segment starts at either.
pub proof fn lemma_overnight_wrap(m: Market, k: int)
    requires
        0 <= k < spec_market_intervals(m).len(),
        spec_market_intervals(m)[k].end < spec_market_intervals(m)[k].start,
        forall|j: int|
            0 <= j < spec_market_intervals(m).len() ==> (#[trigger] spec_market_intervals(
                m,
            )[j]).start != 86399,
        forall|j: int|
            0 <= j < spec_market_intervals(m).len() ==> (#[trigger] spec_market_intervals(
                m,
            )[j]).start != 0,
    ensures
        classify_spec(spec_market_intervals(m), 86399) == Some(
            spec_market_intervals(m)[k].session,
        ),
        classify_spec(spec_market_intervals(m), 0) == Some(spec_market_intervals(m)[k].session),
{
    let ivs = spec_market_intervals(m);
    lemma_market_table_wf(m);
    assert(interval_valid(ivs[k]));
    assert(in_interval(ivs[k], 86399));
    assert(in_interval(ivs[k], 0));
    lemma_session_inside(m, 86399, k);
    lemma_session_inside(m, 0, k);
}

/// Law: a time outside every configured segment classifies as no session.
pub proof fn lemma_session_outside(m: Market, s: int)
    requires
        forall|k: int|
            0 <= k < spec_market_intervals(m).len() ==> !in_interval(
                #[trigger] spec_market_intervals(m)[k],
                s,
            ),
    ensures
        classify_spec(spec_market_intervals(m), s) is None,
{
    let ivs = spec_market_intervals(m);
    lemma_market_table_wf(m);
    assert forall|k: int| 0 <= k < ivs.len() implies (#[trigger] ivs[k]).start != s by {
        if ivs[k].start == s {
            lemma_start_in_interval(ivs[k]);
        }
    }
    lemma_starting_at_none(ivs, s);
    lemma_containing_none(ivs, s);
}

/// UTC offset of each market's local clock, in seconds.
pub open spec fn spec_utc_offset_seconds(m: Market) -> int {
    match m {
        Market::US => -18000,
        Market::CN => 28800,
        Market::HK => 28800,
        Market::SG => 28800,
        Market::Crypto => 0,
        Market::Unknown => 0,
    }
}

/// Find the session of a second of day in a table: a segment starting at
/// `s` first, then any segment containing `s`.
pub fn classify(table: &Vec<SessionInterval>, s: u32) -> (r: Option<TradeSession>)
    requires
        s < 86400,
    ensures
        r == classify_spec(table@, s as int),
{
    let n = table.len();
    proof {
        assert(table@.skip(0) =~= table@);
    }
    let mut i: usize = 0;
    while i < n
        invariant
            n == table@.len(),
            0 <= i <= n,
            session_starting_at(table@, s as int) == session_starting_at(
                table@.skip(i as int),
                s as int,
            ),
        decreases n - i,
    {
        let iv = table[i];
        proof {
            assert(table@.skip(i as int)[0] == iv);
            assert(table@.skip(i as int).drop_first() =~= table@.skip(i as int + 1));
        }
        if iv.start == s {
            return Some(iv.session);
        }
        i = i + 1;
    }
    proof {
        assert(table@.skip(n as int) =~= Seq::<SessionInterval>::empty());
        assert(table@.skip(0) =~= table@);
    }
    let mut j: usize = 0;
    while j < n
        invariant
            s < 86400,
            n == table@.len(),
            0 <= j <= n,
            session_starting_at(table@, s as int) is None,
            session_containing(table@, s as int) == session_containing(
                table@.skip(j as int),
                s as int,
            ),
        decreases n - j,
    {
        let iv = table[j];
        proof {
            assert(table@.skip(j as int)[0] == iv);
            assert(table@.skip(j as int).drop_first() =~= table@.skip(j as int + 1));
        }
        if iv.start <= iv.end {
            if iv.start <= s && s <= iv.end {
                return Some(iv.session);
            }
        } else {
            if s >= iv.start || s <= iv.end {
                return Some(iv.session);
            }
        }
        proof {
            assert(!in_interval(iv, s as int));
        }
        j = j + 1;
    }
    proof {
        assert(table@.skip(n as int) =~= Seq::<SessionInterval>::empty());
    }
    None
}

} // verus!
