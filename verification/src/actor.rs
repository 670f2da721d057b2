//! State of the core actor: the subscription table and the local
//! snapshots that push frames keep current.
//!
//! The actor that owns the transport runs outside; every decision it
//! takes on this state — how a subscribe or unsubscribe changes the
//! table, what a push frame does to the snapshots, what a snapshot read
//! returns — is made and checked here.
use vstd::prelude::*;
use vstd::string::StringExecFns;

use crate::symbol::{normalize_symbol, spec_normalize_symbol};
use crate::types::{
    Brokers, Candlestick, Depth, Period, PushBrokers, PushDepth, PushEvent, PushEventDetail,
    PushQuote, RealtimeQuote, Subscription, Trade, TradeSessions,
};

verus! {

/// An association from symbols to values, with at most one entry per
/// symbol.
pub struct SymbolMap<T> {
    /// The entries, in insertion order.
    pub entries: Vec<(String, T)>,
}

/// The first entry of `s` whose symbol reads `k`, if any.
pub open spec fn find_pair<T>(s: Seq<(String, T)>, k: Seq<char>) -> Option<(String, T)>
    decreases s.len(),
{
    if s.len() == 0 {
        None
    } else if s[0].0@ == k {
        Some(s[0])
    } else {
        find_pair(s.drop_first(), k)
    }
}

/// At most one entry per symbol.
pub open spec fn pairs_unique<T>(s: Seq<(String, T)>) -> bool {
    forall|i: int, j: int| 0 <= i < j < s.len() ==> (#[trigger] s[i]).0@ != (#[trigger] s[j]).0@
}

proof fn lemma_find_pair_index<T>(s: Seq<(String, T)>, k: Seq<char>, i: int)
    requires
        pairs_unique(s),
        0 <= i < s.len(),
        s[i].0@ == k,
    ensures
        find_pair(s, k) == Some(s[i]),
    decreases s.len(),
{
    if i > 0 {
        assert(forall|j: int| 0 <= j < s.drop_first().len() ==> #[trigger] s.drop_first()[j] == s[j
            + 1]);
        lemma_find_pair_index(s.drop_first(), k, i - 1);
    }
}

proof fn lemma_find_pair_absent<T>(s: Seq<(String, T)>, k: Seq<char>)
    requires
        forall|i: int| 0 <= i < s.len() ==> (#[trigger] s[i]).0@ != k,
    ensures
        find_pair(s, k) is None,
    decreases s.len(),
{
    if s.len() > 0 {
        assert(forall|j: int| 0 <= j < s.drop_first().len() ==> #[trigger] s.drop_first()[j] == s[j
            + 1]);
        lemma_find_pair_absent(s.drop_first(), k);
    }
}

proof fn lemma_find_pair_some<T>(s: Seq<(String, T)>, k: Seq<char>)
    requires
        find_pair(s, k) is Some,
    ensures
        exists|i: int|
            0 <= i < s.len() && #[trigger] s[i] == find_pair(s, k)->Some_0 && s[i].0@ == k,
    decreases s.len(),
{
    if s.len() > 0 && s[0].0@ != k {
        assert(forall|j: int| 0 <= j < s.drop_first().len() ==> #[trigger] s.drop_first()[j] == s[j
            + 1]);
        lemma_find_pair_some(s.drop_first(), k);
        let w = choose|i: int|
            0 <= i < s.drop_first().len() && #[trigger] s.drop_first()[i] == find_pair(
                s.drop_first(),
                k,
            )->Some_0 && s.drop_first()[i].0@ == k;
        assert(s[w + 1] == s.drop_first()[w]);
    }
}

proof fn lemma_find_pair_none_forall<T>(s: Seq<(String, T)>, k: Seq<char>)
    requires
        find_pair(s, k) is None,
    ensures
        forall|i: int| 0 <= i < s.len() ==> (#[trigger] s[i]).0@ != k,
    decreases s.len(),
{
    if s.len() > 0 {
        lemma_find_pair_none_forall(s.drop_first(), k);
        assert forall|i: int| 0 <= i < s.len() implies (#[trigger] s[i]).0@ != k by {
            if i > 0 {
                assert(s[i] == s.drop_first()[i - 1]);
            }
        }
    }
}

proof fn lemma_find_pair_after_remove<T>(s0: Seq<(String, T)>, i: int, k2: Seq<char>)
    requires
        pairs_unique(s0),
        0 <= i < s0.len(),
        s0[i].0@ != k2,
    ensures
        find_pair(s0.remove(i), k2) == find_pair(s0, k2),
{
    let s1 = s0.remove(i);
    assert forall|a: int, b: int| 0 <= a < b < s1.len() implies (#[trigger] s1[a]).0@ != (
    #[trigger] s1[b]).0@ by {
        let a0: int = if a < i { a } else { a + 1 };
        let b0: int = if b < i { b } else { b + 1 };
        assert(s1[a] == s0[a0] && s1[b] == s0[b0]);
    }
    match find_pair(s0, k2) {
        Some(e) => {
            lemma_find_pair_some(s0, k2);
            let w = choose|w: int| 0 <= w < s0.len() && #[trigger] s0[w] == e && s0[w].0@ == k2;
            let w1: int = if w < i { w } else { w - 1 };
            assert(s1[w1] == s0[w]);
            lemma_find_pair_index(s1, k2, w1);
        },
        None => {
            lemma_find_pair_none_forall(s0, k2);
            assert forall|j: int| 0 <= j < s1.len() implies (#[trigger] s1[j]).0@ != k2 by {
                let j0: int = if j < i { j } else { j + 1 };
                assert(s1[j] == s0[j0]);
            }
            lemma_find_pair_absent(s1, k2);
        },
    }
}

proof fn lemma_find_pair_push_other<T>(s: Seq<(String, T)>, e: (String, T), k2: Seq<char>)
    requires
        e.0@ != k2,
    ensures
        find_pair(s.push(e), k2) == find_pair(s, k2),
    decreases s.len(),
{
    reveal_with_fuel(find_pair, 3);
    if s.len() == 0 {
        assert(s.push(e)[0] == e);
        assert(s.push(e).drop_first() =~= Seq::<(String, T)>::empty());
    } else {
        assert(s.push(e)[0] == s[0]);
        assert(s.push(e).drop_first() =~= s.drop_first().push(e));
        lemma_find_pair_push_other(s.drop_first(), e, k2);
    }
}

impl<T> SymbolMap<T> {
    /// The value stored for symbol `k`, if any.
    pub open spec fn lookup(&self, k: Seq<char>) -> Option<T> {
        match find_pair(self.entries@, k) {
            Some(e) => Some(e.1),
            None => None,
        }
    }

    /// At most one entry per symbol.
    pub open spec fn wf(&self) -> bool {
        pairs_unique(self.entries@)
    }

    /// An empty map.
    pub fn new() -> (r: Self)
        ensures
            r.wf(),
            r.entries@.len() == 0,
            forall|k: Seq<char>| #[trigger] r.lookup(k) is None,
    {
        let r = SymbolMap { entries: Vec::new() };
        proof {
            assert forall|k: Seq<char>| #[trigger] r.lookup(k) is None by {
                lemma_find_pair_absent(r.entries@, k);
            }
        }
        r
    }

    /// Index of the entry for `key`, if any.
    fn find_index(&self, key: &String) -> (r: Option<usize>)
        requires
            self.wf(),
        ensures
            match r {
                Some(i) => i < self.entries@.len() && self.entries@[i as int].0@ == key@
                    && find_pair(self.entries@, key@) == Some(self.entries@[i as int]),
                None => find_pair(self.entries@, key@) is None,
            },
    {
        let n = self.entries.len();
        let mut i: usize = 0;
        while i < n
            invariant
                self.wf(),
                n == self.entries@.len(),
                0 <= i <= n,
                forall|j: int| 0 <= j < i ==> (#[trigger] self.entries@[j]).0@ != key@,
            decreases n - i,
        {
            if self.entries[i].0 == *key {
                proof {
                    lemma_find_pair_index(self.entries@, key@, i as int);
                }
                return Some(i);
            }
            i = i + 1;
        }
        proof {
            lemma_find_pair_absent(self.entries@, key@);
        }
        None
    }

    /// The value stored for `key`, if any.
    pub fn get(&self, key: &String) -> (r: Option<&T>)
        requires
            self.wf(),
        ensures
            match r {
                Some(v) => self.lookup(key@) == Some(*v),
                None => self.lookup(key@) is None,
            },
    {
        match self.find_index(key) {
            Some(i) => Some(&self.entries[i].1),
            None => None,
        }
    }

    /// Store `value` for `key`, replacing the key's old value.
    pub fn insert(&mut self, key: &String, value: T)
        requires
            old(self).wf(),
        ensures
            final(self).wf(),
            final(self).lookup(key@) == Some(value),
            forall|k2: Seq<char>|
                k2 != key@ ==> #[trigger] final(self).lookup(k2) == old(self).lookup(k2),
    {
        let ghost s0 = self.entries@;
        match self.find_index(key) {
            Some(i) => {
                self.entries.remove(i);
                proof {
                    let s1 = self.entries@;
                    assert(s1 =~= s0.subrange(0, i as int) + s0.subrange(i + 1, s0.len() as int));
                    assert forall|a: int, b: int| 0 <= a < b < s1.len() implies (
                    #[trigger] s1[a]).0@ != (#[trigger] s1[b]).0@ by {
                        let a0: int = if a < i { a } else { a + 1 };
                        let b0: int = if b < i { b } else { b + 1 };
                        assert(s1[a] == s0[a0] && s1[b] == s0[b0]);
                    }
                    assert forall|j: int| 0 <= j < s1.len() implies (#[trigger] s1[j]).0@
                        != key@ by {
                        let j0: int = if j < i { j } else { j + 1 };
                        assert(s1[j] == s0[j0]);
                    }
                    assert forall|k2: Seq<char>| k2 != key@ implies #[trigger] find_pair(s1, k2)
                        == find_pair(s0, k2) by {
                        lemma_find_pair_after_remove(s0, i as int, k2);
                    }
                }
            },
            None => {
                proof {
                    lemma_find_pair_none_forall(s0, key@);
                }
            },
        }
        let ghost s1 = self.entries@;
        self.entries.push((key.clone(), value));
        proof {
            let s2 = self.entries@;
            let e = s2[s2.len() - 1];
            assert forall|a: int, b: int| 0 <= a < b < s2.len() implies (#[trigger] s2[a]).0@ != (
            #[trigger] s2[b]).0@ by {
                if b == s2.len() - 1 {
                    assert(s2[a] == s1[a]);
                }
            }
            lemma_find_pair_index(s2, key@, s2.len() - 1);
            assert forall|k2: Seq<char>| k2 != key@ implies #[trigger] find_pair(s2, k2)
                == find_pair(s1, k2) by {
                lemma_find_pair_push_other(s1, e, k2);
            }
        }
    }

    /// Drop the entry for `key`, if there is one.
    pub fn remove(&mut self, key: &String)
        requires
            old(self).wf(),
        ensures
            final(self).wf(),
            final(self).lookup(key@) is None,
            forall|k2: Seq<char>|
                k2 != key@ ==> #[trigger] final(self).lookup(k2) == old(self).lookup(k2),
    {
        let ghost s0 = self.entries@;
        match self.find_index(key) {
            Some(i) => {
                self.entries.remove(i);
                proof {
                    let s1 = self.entries@;
                    assert(s1 =~= s0.subrange(0, i as int) + s0.subrange(i + 1, s0.len() as int));
                    assert forall|a: int, b: int| 0 <= a < b < s1.len() implies (
                    #[trigger] s1[a]).0@ != (#[trigger] s1[b]).0@ by {
                        let a0: int = if a < i { a } else { a + 1 };
                        let b0: int = if b < i { b } else { b + 1 };
                        assert(s1[a] == s0[a0] && s1[b] == s0[b0]);
                    }
                    assert forall|j: int| 0 <= j < s1.len() implies (#[trigger] s1[j]).0@
                        != key@ by {
                        let j0: int = if j < i { j } else { j + 1 };
                        assert(s1[j] == s0[j0]);
                    }
                    lemma_find_pair_absent(s1, key@);
                    assert forall|k2: Seq<char>| k2 != key@ implies #[trigger] find_pair(s1, k2)
                        == find_pair(s0, k2) by {
                        lemma_find_pair_after_remove(s0, i as int, k2);
                    }
                }
            },
            None => {},
        }
    }
}

/// The stored candlestick bars of one symbol and period.
pub struct CandleSnapshot {
    /// The symbol the bars belong to.
    pub symbol: String,
    /// The period of the bars.
    pub period: Period,
    /// The bars, oldest first.
    pub bars: Vec<Candlestick>,
}

/// The first stored candlestick entry for symbol `k` and period `p`, if
/// any.
pub open spec fn find_candles(s: Seq<CandleSnapshot>, k: Seq<char>, p: Period) -> Option<
    CandleSnapshot,
>
    decreases s.len(),
{
    if s.len() == 0 {
        None
    } else if s[0].symbol@ == k && s[0].period == p {
        Some(s[0])
    } else {
        find_candles(s.drop_first(), k, p)
    }
}

/// At most one candlestick entry per symbol and period.
pub open spec fn candles_unique(s: Seq<CandleSnapshot>) -> bool {
    forall|i: int, j: int|
        0 <= i < j < s.len() ==> !((#[trigger] s[i]).symbol@ == (#[trigger] s[j]).symbol@
            && s[i].period == s[j].period)
}

proof fn lemma_find_candles_index(s: Seq<CandleSnapshot>, k: Seq<char>, p: Period, i: int)
    requires
        candles_unique(s),
        0 <= i < s.len(),
        s[i].symbol@ == k,
        s[i].period == p,
    ensures
        find_candles(s, k, p) == Some(s[i]),
    decreases s.len(),
{
    if i > 0 {
        assert(forall|j: int| 0 <= j < s.drop_first().len() ==> #[trigger] s.drop_first()[j] == s[j
            + 1]);
        lemma_find_candles_index(s.drop_first(), k, p, i - 1);
    }
}

proof fn lemma_find_candles_absent(s: Seq<CandleSnapshot>, k: Seq<char>, p: Period)
    requires
        forall|i: int|
            0 <= i < s.len() ==> !((#[trigger] s[i]).symbol@ == k && s[i].period == p),
    ensures
        find_candles(s, k, p) is None,
    decreases s.len(),
{
    if s.len() > 0 {
        assert(forall|j: int| 0 <= j < s.drop_first().len() ==> #[trigger] s.drop_first()[j] == s[j
            + 1]);
        lemma_find_candles_absent(s.drop_first(), k, p);
    }
}

proof fn lemma_find_candles_some(s: Seq<CandleSnapshot>, k: Seq<char>, p: Period)
    requires
        find_candles(s, k, p) is Some,
    ensures
        exists|i: int|
            0 <= i < s.len() && #[trigger] s[i] == find_candles(s, k, p)->Some_0 && s[i].symbol@
                == k && s[i].period == p,
    decreases s.len(),
{
    if s.len() > 0 && !(s[0].symbol@ == k && s[0].period == p) {
        assert(forall|j: int| 0 <= j < s.drop_first().len() ==> #[trigger] s.drop_first()[j] == s[j
            + 1]);
        lemma_find_candles_some(s.drop_first(), k, p);
        let w = choose|i: int|
            0 <= i < s.drop_first().len() && #[trigger] s.drop_first()[i] == find_candles(
                s.drop_first(),
                k,
                p,
            )->Some_0 && s.drop_first()[i].symbol@ == k && s.drop_first()[i].period == p;
        assert(s[w + 1] == s.drop_first()[w]);
    }
}

proof fn lemma_find_candles_none_forall(s: Seq<CandleSnapshot>, k: Seq<char>, p: Period)
    requires
        find_candles(s, k, p) is None,
    ensures
        forall|i: int|
            0 <= i < s.len() ==> !((#[trigger] s[i]).symbol@ == k && s[i].period == p),
    decreases s.len(),
{
    if s.len() > 0 {
        lemma_find_candles_none_forall(s.drop_first(), k, p);
        assert forall|i: int| 0 <= i < s.len() implies !((#[trigger] s[i]).symbol@ == k
            && s[i].period == p) by {
            if i > 0 {
                assert(s[i] == s.drop_first()[i - 1]);
            }
        }
    }
}

proof fn lemma_find_candles_after_remove(
    s0: Seq<CandleSnapshot>,
    i: int,
    k2: Seq<char>,
    p2: Period,
)
    requires
        candles_unique(s0),
        0 <= i < s0.len(),
        !(s0[i].symbol@ == k2 && s0[i].period == p2),
    ensures
        find_candles(s0.remove(i), k2, p2) == find_candles(s0, k2, p2),
{
    let s1 = s0.remove(i);
    assert forall|a: int, b: int| 0 <= a < b < s1.len() implies !((#[trigger] s1[a]).symbol@ == (
    #[trigger] s1[b]).symbol@ && s1[a].period == s1[b].period) by {
        let a0: int = if a < i { a } else { a + 1 };
        let b0: int = if b < i { b } else { b + 1 };
        assert(s1[a] == s0[a0] && s1[b] == s0[b0]);
    }
    match find_candles(s0, k2, p2) {
        Some(e) => {
            lemma_find_candles_some(s0, k2, p2);
            let w = choose|w: int|
                0 <= w < s0.len() && #[trigger] s0[w] == e && s0[w].symbol@ == k2 && s0[w].period
                    == p2;
            let w1: int = if w < i { w } else { w - 1 };
            assert(s1[w1] == s0[w]);
            lemma_find_candles_index(s1, k2, p2, w1);
        },
        None => {
            lemma_find_candles_none_forall(s0, k2, p2);
            assert forall|j: int| 0 <= j < s1.len() implies !((#[trigger] s1[j]).symbol@ == k2
                && s1[j].period == p2) by {
                let j0: int = if j < i { j } else { j + 1 };
                assert(s1[j] == s0[j0]);
            }
            lemma_find_candles_absent(s1, k2, p2);
        },
    }
}

proof fn lemma_find_candles_push_other(
    s: Seq<CandleSnapshot>,
    e: CandleSnapshot,
    k2: Seq<char>,
    p2: Period,
)
    requires
        !(e.symbol@ == k2 && e.period == p2),
    ensures
        find_candles(s.push(e), k2, p2) == find_candles(s, k2, p2),
    decreases s.len(),
{
    reveal_with_fuel(find_candles, 3);
    if s.len() == 0 {
        assert(s.push(e)[0] == e);
        assert(s.push(e).drop_first() =~= Seq::<CandleSnapshot>::empty());
    } else {
        assert(s.push(e)[0] == s[0]);
        assert(s.push(e).drop_first() =~= s.drop_first().push(e));
        lemma_find_candles_push_other(s.drop_first(), e, k2, p2);
    }
}

/// An association from symbol and period to candlestick bars, with at
/// most one entry per key.
pub struct CandleMap {
    /// The entries, in insertion order.
    pub entries: Vec<CandleSnapshot>,
}

impl CandleMap {
    /// The bars stored for symbol `k` and period `p`, if any.
    pub open spec fn lookup(&self, k: Seq<char>, p: Period) -> Option<Vec<Candlestick>> {
        match find_candles(self.entries@, k, p) {
            Some(e) => Some(e.bars),
            None => None,
        }
    }

    /// At most one entry per symbol and period.
    pub open spec fn wf(&self) -> bool {
        candles_unique(self.entries@)
    }

    /// An empty map.
    pub fn new() -> (r: Self)
        ensures
            r.wf(),
            r.entries@.len() == 0,
            forall|k: Seq<char>, p: Period| #[trigger] r.lookup(k, p) is None,
    {
        let r = CandleMap { entries: Vec::new() };
        proof {
            assert forall|k: Seq<char>, p: Period| #[trigger] r.lookup(k, p) is None by {
                lemma_find_candles_absent(r.entries@, k, p);
            }
        }
        r
    }

    /// Index of the entry for `key` and `period`, if any.
    fn find_index(&self, key: &String, period: Period) -> (r: Option<usize>)
        requires
            self.wf(),
        ensures
            match r {
                Some(i) => i < self.entries@.len() && self.entries@[i as int].symbol@ == key@
                    && self.entries@[i as int].period == period && find_candles(
                    self.entries@,
                    key@,
                    period,
                ) == Some(self.entries@[i as int]),
                None => find_candles(self.entries@, key@, period) is None,
            },
    {
        let n = self.entries.len();
        let mut i: usize = 0;
        while i < n
            invariant
                self.wf(),
                n == self.entries@.len(),
                0 <= i <= n,
                forall|j: int|
                    0 <= j < i ==> !((#[trigger] self.entries@[j]).symbol@ == key@
                        && self.entries@[j].period == period),
            decreases n - i,
        {
            let e = &self.entries[i];
            if e.symbol == *key && e.period == period {
                proof {
                    lemma_find_candles_index(self.entries@, key@, period, i as int);
                }
                return Some(i);
            }
            i = i + 1;
        }
        proof {
            lemma_find_candles_absent(self.entries@, key@, period);
        }
        None
    }

    /// The bars stored for `key` and `period`, if any.
    pub fn get(&self, key: &String, period: Period) -> (r: Option<&Vec<Candlestick>>)
        requires
            self.wf(),
        ensures
            match r {
                Some(v) => self.lookup(key@, period) == Some(*v),
                None => self.lookup(key@, period) is None,
            },
    {
        match self.find_index(key, period) {
            Some(i) => Some(&self.entries[i].bars),
            None => None,
        }
    }

    /// Store `bars` for `key` and `period`, replacing the key's old bars.
    pub fn insert(&mut self, key: &String, period: Period, bars: Vec<Candlestick>)
        requires
            old(self).wf(),
        ensures
            final(self).wf(),
            final(self).lookup(key@, period) == Some(bars),
            forall|k2: Seq<char>, p2: Period|
                !(k2 == key@ && p2 == period) ==> #[trigger] final(self).lookup(k2, p2) == old(
                    self,
                ).lookup(k2, p2),
    {
        let ghost s0 = self.entries@;
        match self.find_index(key, period) {
            Some(i) => {
                self.entries.remove(i);
                proof {
                    let s1 = self.entries@;
                    assert(s1 =~= s0.subrange(0, i as int) + s0.subrange(i + 1, s0.len() as int));
                    assert forall|a: int, b: int| 0 <= a < b < s1.len() implies !((
                    #[trigger] s1[a]).symbol@ == (#[trigger] s1[b]).symbol@ && s1[a].period
                        == s1[b].period) by {
                        let a0: int = if a < i { a } else { a + 1 };
                        let b0: int = if b < i { b } else { b + 1 };
                        assert(s1[a] == s0[a0] && s1[b] == s0[b0]);
                    }
                    assert forall|j: int| 0 <= j < s1.len() implies !((#[trigger] s1[j]).symbol@
                        == key@ && s1[j].period == period) by {
                        let j0: int = if j < i { j } else { j + 1 };
                        assert(s1[j] == s0[j0]);
                    }
                    assert forall|k2: Seq<char>, p2: Period| !(k2 == key@ && p2 == period) implies
                        #[trigger] find_candles(s1, k2, p2) == find_candles(s0, k2, p2) by {
                        lemma_find_candles_after_remove(s0, i as int, k2, p2);
                    }
                }
            },
            None => {
                proof {
                    lemma_find_candles_none_forall(s0, key@, period);
                }
            },
        }
        let ghost s1 = self.entries@;
        self.entries.push(CandleSnapshot { symbol: key.clone(), period, bars });
        proof {
            let s2 = self.entries@;
            let e = s2[s2.len() - 1];
            assert forall|a: int, b: int| 0 <= a < b < s2.len() implies !((
            #[trigger] s2[a]).symbol@ == (#[trigger] s2[b]).symbol@ && s2[a].period
                == s2[b].period) by {
                if b == s2.len() - 1 {
                    assert(s2[a] == s1[a]);
                }
            }
            lemma_find_candles_index(s2, key@, period, s2.len() - 1);
            assert forall|k2: Seq<char>, p2: Period| !(k2 == key@ && p2 == period) implies
                #[trigger] find_candles(s2, k2, p2) == find_candles(s1, k2, p2) by {
                lemma_find_candles_push_other(s1, e, k2, p2);
            }
        }
    }
}

/// True when some string of `syms` reads `k`.
pub open spec fn contains_str(syms: Seq<String>, k: Seq<char>) -> bool {
    exists|i: int| 0 <= i < syms.len() && (#[trigger] syms[i])@ == k
}

/// True when `s` holds the candlestick subscription `(k, p)`.
pub open spec fn contains_csub(s: Seq<(String, Period)>, k: Seq<char>, p: Period) -> bool {
    exists|i: int| 0 <= i < s.len() && (#[trigger] s[i]).0@ == k && s[i].1 == p
}

/// At most one candlestick subscription per symbol and period.
pub open spec fn csubs_unique(s: Seq<(String, Period)>) -> bool {
    forall|i: int, j: int|
        0 <= i < j < s.len() ==> !((#[trigger] s[i]).0@ == (#[trigger] s[j]).0@ && s[i].1 == s[j].1)
}

/// The flags a symbol carries after subscribing with `add` on top of
/// `prev`.
pub open spec fn merged_flags(prev: Option<u8>, add: u8) -> u8 {
    match prev {
        Some(g) => g | add,
        None => add,
    }
}

/// The flags a symbol carries after unsubscribing `rem` from `prev`: the
/// entry disappears when no flag is left.
pub open spec fn remaining_flags(prev: Option<u8>, rem: u8) -> Option<u8> {
    match prev {
        Some(g) => if g & !rem == 0 {
            None
        } else {
            Some(g & !rem)
        },
        None => None,
    }
}

proof fn lemma_contains_take_step(syms: Seq<String>, i: int, k: Seq<char>)
    requires
        0 <= i < syms.len(),
    ensures
        contains_str(syms.take(i + 1), k) == (contains_str(syms.take(i), k) || syms[i]@ == k),
{
    let a = syms.take(i);
    let b = syms.take(i + 1);
    assert(forall|j: int| 0 <= j < b.len() ==> #[trigger] b[j] == syms[j]);
    assert(forall|j: int| 0 <= j < a.len() ==> #[trigger] a[j] == syms[j]);
    if contains_str(b, k) {
        let w = choose|w: int| 0 <= w < b.len() && (#[trigger] b[w])@ == k;
        if w < i {
            assert(a[w] == b[w]);
            assert(contains_str(a, k));
        } else {
            assert(syms[i]@ == k);
        }
    }
    if contains_str(a, k) {
        let w = choose|w: int| 0 <= w < a.len() && (#[trigger] a[w])@ == k;
        assert(b[w] == a[w]);
        assert(contains_str(b, k));
    }
    if syms[i]@ == k {
        assert(b[i] == syms[i]);
        assert(contains_str(b, k));
    }
}

/// The outbound subscribe command, with the symbols already normalized.
pub struct SubscribeRequest {
    /// The symbols to subscribe, in normalized form.
    pub symbols: Vec<String>,
    /// Union of the subscription flags to activate.
    pub sub_types: u8,
    /// Whether the server should push the current state right away.
    pub is_first_push: bool,
}

/// The outbound unsubscribe command, with the symbols already normalized.
pub struct UnsubscribeRequest {
    /// The symbols to unsubscribe, in normalized form.
    pub symbols: Vec<String>,
    /// Union of the subscription flags to deactivate.
    pub sub_types: u8,
}

/// The outbound candlestick subscribe command.
pub struct SubscribeCandlesticksRequest {
    /// The symbol, in normalized form.
    pub symbol: String,
    /// The candlestick period.
    pub period: Period,
    /// Which trading sessions the bars cover.
    pub trade_sessions: TradeSessions,
}

/// The outbound candlestick unsubscribe command.
pub struct UnsubscribeCandlesticksRequest {
    /// The symbol, in normalized form.
    pub symbol: String,
    /// The candlestick period.
    pub period: Period,
}

/// Normalize every symbol of a list.
fn normalize_all(symbols: &Vec<String>) -> (r: Vec<String>)
    ensures
        r@.len() == symbols@.len(),
        forall|i: int|
            0 <= i < symbols@.len() ==> (#[trigger] r@[i])@ == spec_normalize_symbol(
                symbols@[i]@,
            ),
{
    let n = symbols.len();
    let mut r: Vec<String> = Vec::new();
    let mut i: usize = 0;
    while i < n
        invariant
            n == symbols@.len(),
            0 <= i <= n,
            r@.len() == i,
            forall|j: int|
                0 <= j < i ==> (#[trigger] r@[j])@ == spec_normalize_symbol(symbols@[j]@),
        decreases n - i,
    {
        r.push(String::from_str(normalize_symbol(symbols[i].as_str())));
        i = i + 1;
    }
    r
}

/// The push-derived state the core actor owns: the subscription tables
/// and the latest snapshots per symbol.
pub struct CoreState {
    /// Active subscriptions: symbol to union of subscription flags.
    pub subscriptions: SymbolMap<u8>,
    /// Active candlestick subscriptions: symbol and period pairs.
    pub candlestick_subs: Vec<(String, Period)>,
    /// Latest pushed quote per symbol.
    pub quotes: SymbolMap<PushQuote>,
    /// Latest pushed order book per symbol.
    pub depths: SymbolMap<PushDepth>,
    /// Latest pushed broker queue per symbol.
    pub brokers: SymbolMap<PushBrokers>,
    /// Latest pushed batch of trades per symbol.
    pub trades: SymbolMap<Vec<Trade>>,
    /// Candlestick bars per symbol and period, kept current by pushes.
    pub candles: CandleMap,
}

impl CoreState {
    /// Every table well formed.
    pub open spec fn wf(&self) -> bool {
        &&& self.subscriptions.wf()
        &&& csubs_unique(self.candlestick_subs@)
        &&& self.quotes.wf()
        &&& self.depths.wf()
        &&& self.brokers.wf()
        &&& self.trades.wf()
        &&& self.candles.wf()
    }

    /// The snapshot tables of `self` and `other` are the same.
    pub open spec fn snapshots_unchanged(&self, other: &CoreState) -> bool {
        &&& self.quotes == other.quotes
        &&& self.depths == other.depths
        &&& self.brokers == other.brokers
        &&& self.trades == other.trades
        &&& self.candles == other.candles
    }

    /// The subscription tables of `self` and `other` are the same.
    pub open spec fn subscriptions_unchanged(&self, other: &CoreState) -> bool {
        &&& self.subscriptions == other.subscriptions
        &&& self.candlestick_subs == other.candlestick_subs
    }

    /// A fresh state with no subscriptions and no snapshots.
    pub fn new() -> (r: Self)
        ensures
            r.wf(),
            r.subscriptions.entries@.len() == 0,
            r.candlestick_subs@.len() == 0,
            forall|k: Seq<char>| #[trigger] r.subscriptions.lookup(k) is None,
            forall|k: Seq<char>| #[trigger] r.quotes.lookup(k) is None,
    {
        CoreState {
            subscriptions: SymbolMap::new(),
            candlestick_subs: Vec::new(),
            quotes: SymbolMap::new(),
            depths: SymbolMap::new(),
            brokers: SymbolMap::new(),
            trades: SymbolMap::new(),
            candles: CandleMap::new(),
        }
    }

    /// Subscribe push kinds for a list of symbols. Symbols are normalized
    /// first, so `"0700.HK"` and `"700.HK"` land on one table key; the
    /// flags of a subscribed symbol are merged with the new ones. Returns
    /// the command to send to the server. The table changes before the
    /// command is sent: on a dead transport the caller should drop the
    /// state together with the connection.
    pub fn subscribe(&mut self, symbols: &Vec<String>, sub_types: u8, is_first_push: bool) -> (req:
        SubscribeRequest)
        requires
            old(self).wf(),
        ensures
            final(self).wf(),
            req.sub_types == sub_types,
            req.is_first_push == is_first_push,
            req.symbols@.len() == symbols@.len(),
            forall|i: int|
                0 <= i < symbols@.len() ==> (#[trigger] req.symbols@[i])@ == spec_normalize_symbol(
                    symbols@[i]@,
                ),
            forall|k: Seq<char>|
                contains_str(req.symbols@, k) ==> #[trigger] final(self).subscriptions.lookup(k)
                    == Some(merged_flags(old(self).subscriptions.lookup(k), sub_types)),
            forall|k: Seq<char>|
                !contains_str(req.symbols@, k) ==> #[trigger] final(self).subscriptions.lookup(k)
                    == old(self).subscriptions.lookup(k),
            final(self).candlestick_subs == old(self).candlestick_subs,
            final(self).snapshots_unchanged(old(self)),
    {
        let norm = normalize_all(symbols);
        let n = norm.len();
        let mut i: usize = 0;
        while i < n
            invariant
                self.subscriptions.wf(),
                csubs_unique(self.candlestick_subs@),
                self.quotes.wf(),
                self.depths.wf(),
                self.brokers.wf(),
                self.trades.wf(),
                self.candles.wf(),
                self.candlestick_subs == old(self).candlestick_subs,
                self.snapshots_unchanged(old(self)),
                n == norm@.len(),
                0 <= i <= n,
                forall|k: Seq<char>|
                    contains_str(norm@.take(i as int), k) ==> #[trigger] self.subscriptions.lookup(
                        k,
                    ) == Some(merged_flags(old(self).subscriptions.lookup(k), sub_types)),
                forall|k: Seq<char>|
                    !contains_str(norm@.take(i as int), k)
                        ==> #[trigger] self.subscriptions.lookup(k) == old(
                        self,
                    ).subscriptions.lookup(k),
            decreases n - i,
        {
            let sym = &norm[i];
            let merged = match self.subscriptions.get(sym) {
                Some(g) => *g | sub_types,
                None => sub_types,
            };
            proof {
                if contains_str(norm@.take(i as int), sym@) {
                    let prev = old(self).subscriptions.lookup(sym@);
                    if prev is Some {
                        let g0 = prev->Some_0;
                        assert(((g0 | sub_types) | sub_types) == (g0 | sub_types)) by (bit_vector);
                    } else {
                        assert((sub_types | sub_types) == sub_types) by (bit_vector);
                    }
                }
            }
            self.subscriptions.insert(sym, merged);
            proof {
                assert forall|k: Seq<char>| contains_str(norm@.take(i + 1), k) implies
                    #[trigger] self.subscriptions.lookup(k) == Some(
                    merged_flags(old(self).subscriptions.lookup(k), sub_types),
                ) by {
                    lemma_contains_take_step(norm@, i as int, k);
                }
                assert forall|k: Seq<char>| !contains_str(norm@.take(i + 1), k) implies
                    #[trigger] self.subscriptions.lookup(k) == old(self).subscriptions.lookup(
                    k,
                ) by {
                    lemma_contains_take_step(norm@, i as int, k);
                }
            }
            i = i + 1;
        }
        proof {
            assert(norm@.take(n as int) =~= norm@);
        }
        SubscribeRequest { symbols: norm, sub_types, is_first_push }
    }

    /// Unsubscribe push kinds for a list of symbols. Symbols are
    /// normalized first; a symbol left with no flag disappears from the
    /// table. Returns the command to send to the server. As with
    /// subscribing, the table changes before the command is sent.
    pub fn unsubscribe(&mut self, symbols: &Vec<String>, sub_types: u8) -> (req: UnsubscribeRequest)
        requires
            old(self).wf(),
        ensures
            final(self).wf(),
            req.sub_types == sub_types,
            req.symbols@.len() == symbols@.len(),
            forall|i: int|
                0 <= i < symbols@.len() ==> (#[trigger] req.symbols@[i])@ == spec_normalize_symbol(
                    symbols@[i]@,
                ),
            forall|k: Seq<char>|
                contains_str(req.symbols@, k) ==> #[trigger] final(self).subscriptions.lookup(k)
                    == remaining_flags(old(self).subscriptions.lookup(k), sub_types),
            forall|k: Seq<char>|
                !contains_str(req.symbols@, k) ==> #[trigger] final(self).subscriptions.lookup(k)
                    == old(self).subscriptions.lookup(k),
            final(self).candlestick_subs == old(self).candlestick_subs,
            final(self).snapshots_unchanged(old(self)),
    {
        let norm = normalize_all(symbols);
        let n = norm.len();
        let mut i: usize = 0;
        while i < n
            invariant
                self.subscriptions.wf(),
                csubs_unique(self.candlestick_subs@),
                self.quotes.wf(),
                self.depths.wf(),
                self.brokers.wf(),
                self.trades.wf(),
                self.candles.wf(),
                self.candlestick_subs == old(self).candlestick_subs,
                self.snapshots_unchanged(old(self)),
                n == norm@.len(),
                0 <= i <= n,
                forall|k: Seq<char>|
                    contains_str(norm@.take(i as int), k) ==> #[trigger] self.subscriptions.lookup(
                        k,
                    ) == remaining_flags(old(self).subscriptions.lookup(k), sub_types),
                forall|k: Seq<char>|
                    !contains_str(norm@.take(i as int), k)
                        ==> #[trigger] self.subscriptions.lookup(k) == old(
                        self,
                    ).subscriptions.lookup(k),
            decreases n - i,
        {
            let sym = &norm[i];
            match self.subscriptions.get(sym) {
                Some(g) => {
                    let left = *g & !sub_types;
                    proof {
                        if contains_str(norm@.take(i as int), sym@) {
                            let prev = old(self).subscriptions.lookup(sym@);
                            if prev is Some {
                                let g0 = prev->Some_0;
                                assert(((g0 & !sub_types) & !sub_types) == (g0
                                    & !sub_types)) by (bit_vector);
                            }
                        }
                    }
                    if left == 0 {
                        self.subscriptions.remove(sym);
                    } else {
                        self.subscriptions.insert(sym, left);
                    }
                },
                None => {},
            }
            proof {
                assert forall|k: Seq<char>| contains_str(norm@.take(i + 1), k) implies
                    #[trigger] self.subscriptions.lookup(k) == remaining_flags(
                    old(self).subscriptions.lookup(k),
                    sub_types,
                ) by {
                    lemma_contains_take_step(norm@, i as int, k);
                }
                assert forall|k: Seq<char>| !contains_str(norm@.take(i + 1), k) implies
                    #[trigger] self.subscriptions.lookup(k) == old(self).subscriptions.lookup(
                    k,
                ) by {
                    lemma_contains_take_step(norm@, i as int, k);
                }
            }
            i = i + 1;
        }
        proof {
            assert(norm@.take(n as int) =~= norm@);
        }
        UnsubscribeRequest { symbols: norm, sub_types }
    }

    /// The current subscription table, one entry per subscribed symbol.
    pub fn subscriptions(&self) -> (r: Vec<Subscription>)
        requires
            self.wf(),
        ensures
            r@.len() == self.subscriptions.entries@.len(),
            forall|i: int|
                0 <= i < r@.len() ==> (#[trigger] r@[i]).symbol@
                    == self.subscriptions.entries@[i].0@ && r@[i].sub_types
                    == self.subscriptions.entries@[i].1,
    {
        let n = self.subscriptions.entries.len();
        let mut r: Vec<Subscription> = Vec::new();
        let mut i: usize = 0;
        while i < n
            invariant
                n == self.subscriptions.entries@.len(),
                0 <= i <= n,
                r@.len() == i,
                forall|j: int|
                    0 <= j < i ==> (#[trigger] r@[j]).symbol@
                        == self.subscriptions.entries@[j].0@ && r@[j].sub_types
                        == self.subscriptions.entries@[j].1,
            decreases n - i,
        {
            let e = &self.subscriptions.entries[i];
            r.push(Subscription { symbol: e.0.clone(), sub_types: e.1 });
            i = i + 1;
        }
        r
    }

    /// Subscribe candlesticks of one period for a symbol. The symbol is
    /// normalized first. Returns the command to send to the server.
    pub fn subscribe_candlesticks(
        &mut self,
        symbol: &String,
        period: Period,
        trade_sessions: TradeSessions,
    ) -> (req: SubscribeCandlesticksRequest)
        requires
            old(self).wf(),
        ensures
            final(self).wf(),
            req.symbol@ == spec_normalize_symbol(symbol@),
            req.period == period,
            req.trade_sessions == trade_sessions,
            contains_csub(final(self).candlestick_subs@, req.symbol@, period),
            forall|k2: Seq<char>, p2: Period|
                !(k2 == req.symbol@ && p2 == period) ==> #[trigger] contains_csub(
                    final(self).candlestick_subs@,
                    k2,
                    p2,
                ) == contains_csub(old(self).candlestick_subs@, k2, p2),
            final(self).subscriptions == old(self).subscriptions,
            final(self).snapshots_unchanged(old(self)),
    {
        let norm = String::from_str(normalize_symbol(symbol.as_str()));
        let n = self.candlestick_subs.len();
        let mut i: usize = 0;
        while i < n
            invariant
                old(self).wf(),
                *self == *old(self),
                norm@ == spec_normalize_symbol(symbol@),
                n == self.candlestick_subs@.len(),
                0 <= i <= n,
                forall|j: int|
                    0 <= j < i ==> !((#[trigger] self.candlestick_subs@[j]).0@ == norm@
                        && self.candlestick_subs@[j].1 == period),
            decreases n - i,
        {
            let e = &self.candlestick_subs[i];
            if e.0 == norm && e.1 == period {
                return SubscribeCandlesticksRequest { symbol: norm, period, trade_sessions };
            }
            i = i + 1;
        }
        self.candlestick_subs.push((norm.clone(), period));
        proof {
            let s0 = old(self).candlestick_subs@;
            let s1 = self.candlestick_subs@;
            assert(s1[s1.len() - 1].0@ == norm@ && s1[s1.len() - 1].1 == period);
            assert(contains_csub(s1, norm@, period));
            assert forall|a: int, b: int| 0 <= a < b < s1.len() implies !((
            #[trigger] s1[a]).0@ == (#[trigger] s1[b]).0@ && s1[a].1 == s1[b].1) by {
                if b == s1.len() - 1 {
                    assert(s1[a] == s0[a]);
                }
            }
            assert forall|k2: Seq<char>, p2: Period| !(k2 == norm@ && p2 == period) implies
                #[trigger] contains_csub(s1, k2, p2) == contains_csub(s0, k2, p2) by {
                if contains_csub(s1, k2, p2) {
                    let w = choose|w: int|
                        0 <= w < s1.len() && (#[trigger] s1[w]).0@ == k2 && s1[w].1 == p2;
                    assert(w < s0.len() && s1[w] == s0[w]);
                }
                if contains_csub(s0, k2, p2) {
                    let w = choose|w: int|
                        0 <= w < s0.len() && (#[trigger] s0[w]).0@ == k2 && s0[w].1 == p2;
                    assert(s1[w] == s0[w]);
                }
            }
        }
        SubscribeCandlesticksRequest { symbol: norm, period, trade_sessions }
    }

    /// Unsubscribe candlesticks of one period for a symbol. The symbol is
    /// normalized first. Returns the command to send to the server.
    pub fn unsubscribe_candlesticks(&mut self, symbol: &String, period: Period) -> (req:
        UnsubscribeCandlesticksRequest)
        requires
            old(self).wf(),
        ensures
            final(self).wf(),
            req.symbol@ == spec_normalize_symbol(symbol@),
            req.period == period,
            !contains_csub(final(self).candlestick_subs@, req.symbol@, period),
            forall|k2: Seq<char>, p2: Period|
                !(k2 == req.symbol@ && p2 == period) ==> #[trigger] contains_csub(
                    final(self).candlestick_subs@,
                    k2,
                    p2,
                ) == contains_csub(old(self).candlestick_subs@, k2, p2),
            final(self).subscriptions == old(self).subscriptions,
            final(self).snapshots_unchanged(old(self)),
    {
        let norm = String::from_str(normalize_symbol(symbol.as_str()));
        let n = self.candlestick_subs.len();
        let mut i: usize = 0;
        while i < n
            invariant
                old(self).wf(),
                *self == *old(self),
                norm@ == spec_normalize_symbol(symbol@),
                n == self.candlestick_subs@.len(),
                0 <= i <= n,
                forall|j: int|
                    0 <= j < i ==> !((#[trigger] self.candlestick_subs@[j]).0@ == norm@
                        && self.candlestick_subs@[j].1 == period),
            decreases n - i,
        {
            let e = &self.candlestick_subs[i];
            if e.0 == norm && e.1 == period {
                self.candlestick_subs.remove(i);
                proof {
                    let s0 = old(self).candlestick_subs@;
                    let s1 = self.candlestick_subs@;
                    assert(s1 =~= s0.subrange(0, i as int) + s0.subrange(i + 1, s0.len() as int));
                    assert forall|a: int, b: int| 0 <= a < b < s1.len() implies !((
                    #[trigger] s1[a]).0@ == (#[trigger] s1[b]).0@ && s1[a].1 == s1[b].1) by {
                        let a0: int = if a < i { a } else { a + 1 };
                        let b0: int = if b < i { b } else { b + 1 };
                        assert(s1[a] == s0[a0] && s1[b] == s0[b0]);
                    }
                    assert forall|j: int| 0 <= j < s1.len() implies !((#[trigger] s1[j]).0@
                        == norm@ && s1[j].1 == period) by {
                        let j0: int = if j < i { j } else { j + 1 };
                        assert(s1[j] == s0[j0]);
                    }
                    assert forall|k2: Seq<char>, p2: Period| !(k2 == norm@ && p2 == period) implies
                        #[trigger] contains_csub(s1, k2, p2) == contains_csub(s0, k2, p2) by {
                        if contains_csub(s1, k2, p2) {
                            let w = choose|w: int|
                                0 <= w < s1.len() && (#[trigger] s1[w]).0@ == k2 && s1[w].1 == p2;
                            let w0: int = if w < i { w } else { w + 1 };
                            assert(s0[w0] == s1[w]);
                        }
                        if contains_csub(s0, k2, p2) {
                            let w = choose|w: int|
                                0 <= w < s0.len() && (#[trigger] s0[w]).0@ == k2 && s0[w].1 == p2;
                            let w1: int = if w < i { w } else { w - 1 };
                            assert(s1[w1] == s0[w]);
                        }
                    }
                }
                return UnsubscribeCandlesticksRequest { symbol: norm, period };
            }
            i = i + 1;
        }
        UnsubscribeCandlesticksRequest { symbol: norm, period }
    }

    /// Route one decoded push frame: record what it carries in the
    /// symbol's latest snapshot, then hand the event back unchanged for
    /// the subscriber channel. Exactly one event leaves per frame, in
    /// arrival order; an order-change notification touches no snapshot.
    pub fn handle_push(&mut self, event: PushEvent) -> (out: PushEvent)
        requires
            old(self).wf(),
        ensures
            final(self).wf(),
            out == event,
            final(self).subscriptions_unchanged(old(self)),
            match event.detail {
                PushEventDetail::Quote(q) => {
                    &&& final(self).quotes.lookup(event.symbol@) == Some(q)
                    &&& forall|k2: Seq<char>|
                        k2 != event.symbol@ ==> #[trigger] final(self).quotes.lookup(k2) == old(
                            self,
                        ).quotes.lookup(k2)
                    &&& final(self).depths == old(self).depths
                    &&& final(self).brokers == old(self).brokers
                    &&& final(self).trades == old(self).trades
                    &&& final(self).candles == old(self).candles
                },
                PushEventDetail::Depth(ref d) => {
                    &&& final(self).depths.lookup(event.symbol@) matches Some(d2) && d2.asks@
                        == d.asks@ && d2.bids@ == d.bids@
                    &&& forall|k2: Seq<char>|
                        k2 != event.symbol@ ==> #[trigger] final(self).depths.lookup(k2) == old(
                            self,
                        ).depths.lookup(k2)
                    &&& final(self).quotes == old(self).quotes
                    &&& final(self).brokers == old(self).brokers
                    &&& final(self).trades == old(self).trades
                    &&& final(self).candles == old(self).candles
                },
                PushEventDetail::Brokers(ref b) => {
                    &&& final(self).brokers.lookup(event.symbol@) matches Some(b2)
                        && broker_lists_equal(b2.ask_brokers@, b.ask_brokers@)
                        && broker_lists_equal(b2.bid_brokers@, b.bid_brokers@)
                    &&& forall|k2: Seq<char>|
                        k2 != event.symbol@ ==> #[trigger] final(self).brokers.lookup(k2) == old(
                            self,
                        ).brokers.lookup(k2)
                    &&& final(self).quotes == old(self).quotes
                    &&& final(self).depths == old(self).depths
                    &&& final(self).trades == old(self).trades
                    &&& final(self).candles == old(self).candles
                },
                PushEventDetail::Trade(ref t) => {
                    &&& final(self).trades.lookup(event.symbol@) matches Some(ts) && ts@
                        == t.trades@
                    &&& forall|k2: Seq<char>|
                        k2 != event.symbol@ ==> #[trigger] final(self).trades.lookup(k2) == old(
                            self,
                        ).trades.lookup(k2)
                    &&& final(self).quotes == old(self).quotes
                    &&& final(self).depths == old(self).depths
                    &&& final(self).brokers == old(self).brokers
                    &&& final(self).candles == old(self).candles
                },
                PushEventDetail::Candlestick(c) => {
                    &&& final(self).candles.lookup(event.symbol@, c.period) matches Some(bars)
                        && bars@ == merge_candlestick(
                        stored_bars(&old(self).candles, event.symbol@, c.period),
                        c.candlestick,
                    )
                    &&& forall|k2: Seq<char>, p2: Period|
                        !(k2 == event.symbol@ && p2 == c.period)
                            ==> #[trigger] final(self).candles.lookup(k2, p2) == old(
                            self,
                        ).candles.lookup(k2, p2)
                    &&& final(self).quotes == old(self).quotes
                    &&& final(self).depths == old(self).depths
                    &&& final(self).brokers == old(self).brokers
                    &&& final(self).trades == old(self).trades
                },
                PushEventDetail::OrderChanged(_) => final(self).snapshots_unchanged(old(self)),
            },
    {
        match &event.detail {
            PushEventDetail::Quote(q) => {
                self.quotes.insert(&event.symbol, *q);
            },
            PushEventDetail::Depth(d) => {
                let copy = PushDepth { asks: copy_depth_list(&d.asks), bids: copy_depth_list(
                    &d.bids,
                ) };
                self.depths.insert(&event.symbol, copy);
            },
            PushEventDetail::Brokers(b) => {
                let copy = PushBrokers {
                    ask_brokers: copy_broker_list(&b.ask_brokers),
                    bid_brokers: copy_broker_list(&b.bid_brokers),
                };
                self.brokers.insert(&event.symbol, copy);
            },
            PushEventDetail::Trade(t) => {
                self.trades.insert(&event.symbol, copy_trade_list(&t.trades));
            },
            PushEventDetail::Candlestick(c) => {
                let merged = match self.candles.get(&event.symbol, c.period) {
                    Some(prev) => merged_bars(prev, c.candlestick),
                    None => {
                        let mut first: Vec<Candlestick> = Vec::new();
                        first.push(c.candlestick);
                        proof {
                            assert(first@ =~= merge_candlestick(
                                Seq::<Candlestick>::empty(),
                                c.candlestick,
                            ));
                        }
                        first
                    },
                };
                self.candles.insert(&event.symbol, c.period, merged);
            },
            PushEventDetail::OrderChanged(_) => {},
        }
        event
    }

    /// The snapshot quotes of the requested symbols, served from local
    /// state without a round trip; a symbol that no push has touched yet
    /// is skipped.
    pub fn realtime_quote(&self, symbols: &Vec<String>) -> (r: Vec<RealtimeQuote>)
        requires
            self.wf(),
        ensures
            r@ == spec_realtime_quotes(&self.quotes, symbols@),
    {
        let n = symbols.len();
        let mut r: Vec<RealtimeQuote> = Vec::new();
        proof {
            assert(symbols@.skip(0) =~= symbols@);
        }
        let mut i: usize = 0;
        while i < n
            invariant
                self.wf(),
                n == symbols@.len(),
                0 <= i <= n,
                r@ + spec_realtime_quotes(&self.quotes, symbols@.skip(i as int))
                    == spec_realtime_quotes(&self.quotes, symbols@),
            decreases n - i,
        {
            let sym = &symbols[i];
            proof {
                assert(symbols@.skip(i as int)[0] == symbols@[i as int]);
                assert(symbols@.skip(i as int).drop_first() =~= symbols@.skip(i as int + 1));
            }
            match self.quotes.get(sym) {
                Some(q) => {
                    let rt = RealtimeQuote {
                        symbol: sym.clone(),
                        last_done: q.last_done,
                        open: q.open,
                        high: q.high,
                        low: q.low,
                        timestamp: q.timestamp,
                        volume: q.volume,
                        turnover: q.turnover,
                    };
                    proof {
                        assert(rt == quote_snapshot(symbols@[i as int], self.quotes.lookup(
                            symbols@[i as int]@,
                        )->Some_0));
                    }
                    r.push(rt);
                    proof {
                        assert(r@ + spec_realtime_quotes(&self.quotes, symbols@.skip(i as int + 1))
                            =~= spec_realtime_quotes(&self.quotes, symbols@));
                    }
                },
                None => {},
            }
            i = i + 1;
        }
        proof {
            assert(symbols@.skip(n as int) =~= Seq::<String>::empty());
            assert(r@ =~= spec_realtime_quotes(&self.quotes, symbols@));
        }
        r
    }

    /// The snapshot order book of a symbol, served from local state; an
    /// untouched symbol yields an empty book.
    pub fn realtime_depth(&self, symbol: &String) -> (r: PushDepth)
        requires
            self.wf(),
        ensures
            match self.depths.lookup(symbol@) {
                Some(d) => r.asks@ == d.asks@ && r.bids@ == d.bids@,
                None => r.asks@.len() == 0 && r.bids@.len() == 0,
            },
    {
        match self.depths.get(symbol) {
            Some(d) => PushDepth { asks: copy_depth_list(&d.asks), bids: copy_depth_list(&d.bids) },
            None => PushDepth { asks: Vec::new(), bids: Vec::new() },
        }
    }

    /// The snapshot broker queue of a symbol, served from local state; an
    /// untouched symbol yields empty queues.
    pub fn realtime_brokers(&self, symbol: &String) -> (r: PushBrokers)
        requires
            self.wf(),
        ensures
            match self.brokers.lookup(symbol@) {
                Some(b) => broker_lists_equal(r.ask_brokers@, b.ask_brokers@) && broker_lists_equal(
                    r.bid_brokers@,
                    b.bid_brokers@,
                ),
                None => r.ask_brokers@.len() == 0 && r.bid_brokers@.len() == 0,
            },
    {
        match self.brokers.get(symbol) {
            Some(b) => PushBrokers {
                ask_brokers: copy_broker_list(&b.ask_brokers),
                bid_brokers: copy_broker_list(&b.bid_brokers),
            },
            None => PushBrokers { ask_brokers: Vec::new(), bid_brokers: Vec::new() },
        }
    }

    /// The most recent `count` snapshot trades of a symbol, served from
    /// local state in trade order; an untouched symbol yields none.
    pub fn realtime_trades(&self, symbol: &String, count: usize) -> (r: Vec<Trade>)
        requires
            self.wf(),
        ensures
            r@ == spec_last_trades(self.trades.lookup(symbol@), count as int),
    {
        match self.trades.get(symbol) {
            Some(ts) => {
                let len = ts.len();
                let from = if count <= len {
                    len - count
                } else {
                    0
                };
                let mut r: Vec<Trade> = Vec::new();
                let mut i: usize = from;
                while i < len
                    invariant
                        self.wf(),
                        self.trades.lookup(symbol@) == Some(*ts),
                        len == ts@.len(),
                        from <= i <= len,
                        r@ =~= ts@.subrange(from as int, i as int),
                    decreases len - i,
                {
                    r.push(ts[i]);
                    i = i + 1;
                }
                proof {
                    assert(r@ =~= ts@.skip(from as int));
                }
                r
            },
            None => Vec::new(),
        }
    }

    /// The most recent `count` snapshot bars of a symbol and period,
    /// served from local state oldest first; an untouched key yields
    /// none.
    pub fn realtime_candlesticks(&self, symbol: &String, period: Period, count: usize) -> (r: Vec<
        Candlestick,
    >)
        requires
            self.wf(),
        ensures
            r@ == spec_last_candles(self.candles.lookup(symbol@, period), count as int),
    {
        match self.candles.get(symbol, period) {
            Some(bs) => {
                let len = bs.len();
                let from = if count <= len {
                    len - count
                } else {
                    0
                };
                let mut r: Vec<Candlestick> = Vec::new();
                let mut i: usize = from;
                while i < len
                    invariant
                        self.wf(),
                        self.candles.lookup(symbol@, period) == Some(*bs),
                        len == bs@.len(),
                        from <= i <= len,
                        r@ =~= bs@.subrange(from as int, i as int),
                    decreases len - i,
                {
                    r.push(bs[i]);
                    i = i + 1;
                }
                proof {
                    assert(r@ =~= bs@.skip(from as int));
                }
                r
            },
            None => Vec::new(),
        }
    }
}

/// Element-wise equality of two broker-queue lists: same positions, same
/// broker identifiers.
pub open spec fn broker_lists_equal(a: Seq<Brokers>, b: Seq<Brokers>) -> bool {
    a.len() == b.len() && forall|i: int|
        0 <= i < a.len() ==> (#[trigger] a[i]).position == (#[trigger] b[i]).position
            && a[i].broker_ids@ == b[i].broker_ids@
}

/// The snapshot quote a stored push quote yields for a symbol.
pub open spec fn quote_snapshot(symbol: String, q: PushQuote) -> RealtimeQuote {
    RealtimeQuote {
        symbol,
        last_done: q.last_done,
        open: q.open,
        high: q.high,
        low: q.low,
        timestamp: q.timestamp,
        volume: q.volume,
        turnover: q.turnover,
    }
}

/// The snapshot quotes a quote table yields for a list of symbols, in
/// request order, skipping symbols without a snapshot.
pub open spec fn spec_realtime_quotes(m: &SymbolMap<PushQuote>, syms: Seq<String>) -> Seq<
    RealtimeQuote,
>
    decreases syms.len(),
{
    if syms.len() == 0 {
        Seq::empty()
    } else {
        let rest = spec_realtime_quotes(m, syms.drop_first());
        match m.lookup(syms[0]@) {
            Some(q) => seq![quote_snapshot(syms[0], q)] + rest,
            None => rest,
        }
    }
}

/// The most recent `count` trades of a stored trade list, in trade
/// order; an absent list yields none.
pub open spec fn spec_last_trades(stored: Option<Vec<Trade>>, count: int) -> Seq<Trade> {
    match stored {
        Some(ts) => if count <= ts@.len() {
            ts@.skip(ts@.len() - count)
        } else {
            ts@
        },
        None => Seq::empty(),
    }
}

/// The bars stored for a symbol and period, or none when nothing was
/// pushed yet.
pub open spec fn stored_bars(m: &CandleMap, k: Seq<char>, p: Period) -> Seq<Candlestick> {
    match m.lookup(k, p) {
        Some(b) => b@,
        None => Seq::empty(),
    }
}

/// The bars after one candlestick push: a bar starting at the same
/// instant as the stored last bar replaces that bar, any other bar opens
/// a new one.
pub open spec fn merge_candlestick(prev: Seq<Candlestick>, bar: Candlestick) -> Seq<Candlestick> {
    if prev.len() > 0 && prev.last().timestamp == bar.timestamp {
        prev.update(prev.len() - 1, bar)
    } else {
        prev.push(bar)
    }
}

/// The most recent `count` bars of a stored bar list, oldest first; an
/// absent list yields none.
pub open spec fn spec_last_candles(stored: Option<Vec<Candlestick>>, count: int) -> Seq<
    Candlestick,
> {
    match stored {
        Some(bs) => if count <= bs@.len() {
            bs@.skip(bs@.len() - count)
        } else {
            bs@
        },
        None => Seq::empty(),
    }
}

/// A copy of `prev` with `bar` merged in: replacing the last bar when
/// both start at the same instant, appended otherwise.
fn merged_bars(prev: &Vec<Candlestick>, bar: Candlestick) -> (r: Vec<Candlestick>)
    ensures
        r@ == merge_candlestick(prev@, bar),
{
    let mut r = copy_candle_list(prev);
    let n = r.len();
    if n > 0 && r[n - 1].timestamp == bar.timestamp {
        r.pop();
        r.push(bar);
        proof {
            assert(r@ =~= merge_candlestick(prev@, bar));
        }
    } else {
        r.push(bar);
    }
    r
}

/// A copy of a candlestick list.
fn copy_candle_list(v: &Vec<Candlestick>) -> (r: Vec<Candlestick>)
    ensures
        r@ == v@,
{
    let n = v.len();
    let mut r: Vec<Candlestick> = Vec::new();
    let mut i: usize = 0;
    while i < n
        invariant
            n == v@.len(),
            0 <= i <= n,
            r@ =~= v@.take(i as int),
        decreases n - i,
    {
        r.push(v[i]);
        i = i + 1;
    }
    proof {
        assert(r@ =~= v@);
    }
    r
}

/// A copy of an order-book side.
fn copy_depth_list(v: &Vec<Depth>) -> (r: Vec<Depth>)
    ensures
        r@ == v@,
{
    let n = v.len();
    let mut r: Vec<Depth> = Vec::new();
    let mut i: usize = 0;
    while i < n
        invariant
            n == v@.len(),
            0 <= i <= n,
            r@ =~= v@.take(i as int),
        decreases n - i,
    {
        r.push(v[i]);
        i = i + 1;
    }
    proof {
        assert(r@ =~= v@);
    }
    r
}

/// A copy of a trade list.
fn copy_trade_list(v: &Vec<Trade>) -> (r: Vec<Trade>)
    ensures
        r@ == v@,
{
    let n = v.len();
    let mut r: Vec<Trade> = Vec::new();
    let mut i: usize = 0;
    while i < n
        invariant
            n == v@.len(),
            0 <= i <= n,
            r@ =~= v@.take(i as int),
        decreases n - i,
    {
        r.push(v[i]);
        i = i + 1;
    }
    proof {
        assert(r@ =~= v@);
    }
    r
}

/// A copy of a broker identifier list.
fn copy_id_list(v: &Vec<i32>) -> (r: Vec<i32>)
    ensures
        r@ == v@,
{
    let n = v.len();
    let mut r: Vec<i32> = Vec::new();
    let mut i: usize = 0;
    while i < n
        invariant
            n == v@.len(),
            0 <= i <= n,
            r@ =~= v@.take(i as int),
        decreases n - i,
    {
        r.push(v[i]);
        i = i + 1;
    }
    proof {
        assert(r@ =~= v@);
    }
    r
}

/// A copy of a broker-queue side.
fn copy_broker_list(v: &Vec<Brokers>) -> (r: Vec<Brokers>)
    ensures
        broker_lists_equal(r@, v@),
{
    let n = v.len();
    let mut r: Vec<Brokers> = Vec::new();
    let mut i: usize = 0;
    while i < n
        invariant
            n == v@.len(),
            0 <= i <= n,
            r@.len() == i,
            forall|j: int|
                0 <= j < i ==> (#[trigger] r@[j]).position == v@[j].position && r@[j].broker_ids@
                    == v@[j].broker_ids@,
        decreases n - i,
    {
        let e = &v[i];
        r.push(Brokers { position: e.position, broker_ids: copy_id_list(&e.broker_ids) });
        i = i + 1;
    }
    r
}

} // verus!
