//! TTL memoization for slow-changing reference data.
//!
//! A cache slot answers a read with the stored value while the value is
//! younger than the time-to-live. A read of a stale or empty slot starts
//! one fetch; readers arriving while that fetch is in flight wait for it
//! instead of fetching again (single-flight). The caller performs the
//! fetch itself and reports its outcome back, so the asynchronous part
//! stays outside the cache while every decision the cache takes is
//! checked here.
use vstd::prelude::*;

verus! {

/// What a reader of a cache slot should do next.
#[derive(Clone, Copy, Debug, PartialEq, Eq, Structural)]
pub enum CacheDecision {
    /// The slot holds a fresh value: use it, fetch nothing.
    Hit,
    /// The slot is stale or empty and nobody is fetching: fetch now.
    Start,
    /// Another reader's fetch is in flight: await its outcome.
    Wait,
}

/// A stored value together with the time it was fetched.
#[derive(Debug)]
pub struct CacheEntry<T> {
    /// The fetched value.
    pub value: T,
    /// When the value was fetched, in the caller's clock ticks.
    pub fetched_at: u64,
}

/// A single memoization slot with a fixed time-to-live.
pub struct Cache<T> {
    /// Age bound: a value older than this is stale.
    pub ttl: u64,
    /// The stored value, if any fetch has succeeded yet.
    pub entry: Option<CacheEntry<T>>,
    /// True while some reader's fetch is outstanding.
    pub in_flight: bool,
}

/// True when the slot holds a value fetched no longer than the
/// time-to-live before `now`.
pub open spec fn spec_fresh<T>(c: &Cache<T>, now: int) -> bool {
    match c.entry {
        Some(e) => e.fetched_at <= now && now - e.fetched_at < c.ttl,
        None => false,
    }
}

/// The value the slot would serve, regardless of freshness.
pub open spec fn stored_value<T>(c: &Cache<T>) -> Option<T> {
    match c.entry {
        Some(e) => Some(e.value),
        None => None,
    }
}

/// The decision a reader receives at time `now`.
pub open spec fn spec_decision<T>(c: &Cache<T>, now: int) -> CacheDecision {
    if spec_fresh(c, now) {
        CacheDecision::Hit
    } else if c.in_flight {
        CacheDecision::Wait
    } else {
        CacheDecision::Start
    }
}

impl<T> Cache<T> {
    /// An empty slot with the given time-to-live.
    pub fn new(ttl: u64) -> (r: Self)
        ensures
            r.ttl == ttl,
            r.entry is None,
            !r.in_flight,
    {
        Cache { ttl, entry: None, in_flight: false }
    }

    /// Read the slot: the stored value while fresh, nothing otherwise.
    pub fn get(&self, now: u64) -> (r: Option<&T>)
        ensures
            match r {
                Some(v) => spec_fresh(self, now as int) && stored_value(self) == Some(*v),
                None => !spec_fresh(self, now as int),
            },
    {
        match &self.entry {
            Some(e) => {
                if e.fetched_at <= now && now - e.fetched_at < self.ttl {
                    Some(&e.value)
                } else {
                    None
                }
            },
            None => None,
        }
    }

    /// Ask what to do at time `now`; a `Start` answer marks the slot's
    /// fetch as in flight.
    pub fn begin(&mut self, now: u64) -> (r: CacheDecision)
        ensures
            r == spec_decision(old(self), now as int),
            final(self).ttl == old(self).ttl,
            final(self).entry == old(self).entry,
            final(self).in_flight == (old(self).in_flight || r == CacheDecision::Start),
    {
        let fresh = match &self.entry {
            Some(e) => e.fetched_at <= now && now - e.fetched_at < self.ttl,
            None => false,
        };
        if fresh {
            CacheDecision::Hit
        } else if self.in_flight {
            CacheDecision::Wait
        } else {
            self.in_flight = true;
            CacheDecision::Start
        }
    }

    /// Report the outcome of the fetch that a `Start` answer asked for. A
    /// successful fetch stores its value with a fresh timestamp; a failed
    /// fetch leaves the slot as it was, so the next reader fetches again.
    pub fn complete(&mut self, now: u64, result: Option<T>)
        ensures
            final(self).ttl == old(self).ttl,
            !final(self).in_flight,
            match result {
                Some(v) => final(self).entry == Some(CacheEntry { value: v, fetched_at: now }),
                None => final(self).entry == old(self).entry,
            },
    {
        self.in_flight = false;
        match result {
            Some(v) => {
                self.entry = Some(CacheEntry { value: v, fetched_at: now });
            },
            None => {},
        }
    }
}

/// Law: after a successful fetch at `t0`, every read within the
/// time-to-live window hits the identical stored value and starts no
/// fetch; since a hit leaves the slot unchanged, two sequential reads in
/// the window see the same value and the one fetch at `t0` remains the
/// only one.
pub proof fn lemma_cache_idempotent<T>(c: Cache<T>, v: T, t0: u64, t1: u64, t2: u64)
    requires
        c.entry == Some(CacheEntry { value: v, fetched_at: t0 }),
        !c.in_flight,
        t0 <= t1 <= t2,
        t2 - t0 < c.ttl,
    ensures
        spec_decision(&c, t1 as int) == CacheDecision::Hit,
        spec_decision(&c, t2 as int) == CacheDecision::Hit,
        stored_value(&c) == Some(v),
{
}

/// Law: after a successful fetch at `t0`, the first read at or past the
/// end of the time-to-live window starts exactly one new fetch.
pub proof fn lemma_cache_expiry<T>(c: Cache<T>, v: T, t0: u64, t3: u64)
    requires
        c.entry == Some(CacheEntry { value: v, fetched_at: t0 }),
        !c.in_flight,
        t0 <= t3,
        t3 - t0 >= c.ttl,
    ensures
        spec_decision(&c, t3 as int) == CacheDecision::Start,
{
}

/// Law: concurrent misses on one slot collapse into a single fetch. On a
/// miss the first reader is told to fetch; every reader that arrives
/// while the fetch is in flight is told to wait; and a successful
/// completion at `tc` hands every one of them the same stored value.
pub proof fn lemma_cache_single_flight<T>(c0: Cache<T>, v: T, now: u64, later: u64, tc: u64, tr: u64)
    requires
        !spec_fresh(&c0, now as int),
        !c0.in_flight,
        c0.entry matches Some(e) ==> e.fetched_at <= now,
        now <= later,
        tc <= tr,
        tr - tc < c0.ttl,
    ensures
        spec_decision(&c0, now as int) == CacheDecision::Start,
        ({
            let c1 = Cache { ttl: c0.ttl, entry: c0.entry, in_flight: true };
            spec_decision(&c1, later as int) == CacheDecision::Wait
        }),
        ({
            let c2 = Cache {
                ttl: c0.ttl,
                entry: Some(CacheEntry { value: v, fetched_at: tc }),
                in_flight: false,
            };
            spec_decision(&c2, tr as int) == CacheDecision::Hit && stored_value(&c2) == Some(v)
        }),
{
}

/// A stored value for one key of a keyed cache.
pub struct KeyedEntry<T> {
    /// The key the value was fetched for.
    pub key: String,
    /// The fetched value.
    pub value: T,
    /// When the value was fetched, in the caller's clock ticks.
    pub fetched_at: u64,
}

/// A keyed memoization table with a fixed time-to-live. Distinct keys
/// fetch independently; concurrent misses on one key are single-flighted.
pub struct CacheWithKey<T> {
    /// Age bound: a value older than this is stale.
    pub ttl: u64,
    /// The stored values, at most one per key.
    pub entries: Vec<KeyedEntry<T>>,
    /// The keys whose fetches are outstanding, each at most once.
    pub in_flight: Vec<String>,
}

/// The first stored entry for key `k`, if any.
pub open spec fn find_entry<T>(s: Seq<KeyedEntry<T>>, k: Seq<char>) -> Option<KeyedEntry<T>>
    decreases s.len(),
{
    if s.len() == 0 {
        None
    } else if s[0].key@ == k {
        Some(s[0])
    } else {
        find_entry(s.drop_first(), k)
    }
}

/// True when some string of `s` reads `k`.
pub open spec fn contains_key(s: Seq<String>, k: Seq<char>) -> bool {
    exists|i: int| 0 <= i < s.len() && (#[trigger] s[i])@ == k
}

/// Well-formedness of the keyed cache: one entry per key, one in-flight
/// mark per key.
pub open spec fn keyed_wf<T>(c: &CacheWithKey<T>) -> bool {
    &&& forall|i: int, j: int|
        0 <= i < j < c.entries@.len() ==> (#[trigger] c.entries@[i]).key@ != (
        #[trigger] c.entries@[j]).key@
    &&& forall|i: int, j: int|
        0 <= i < j < c.in_flight@.len() ==> (#[trigger] c.in_flight@[i])@ != (
        #[trigger] c.in_flight@[j])@
}

/// True when the table holds a value for `k` fetched no longer than the
/// time-to-live before `now`.
pub open spec fn spec_key_fresh<T>(c: &CacheWithKey<T>, k: Seq<char>, now: int) -> bool {
    match find_entry(c.entries@, k) {
        Some(e) => e.fetched_at <= now && now - e.fetched_at < c.ttl,
        None => false,
    }
}

/// The value the table would serve for `k`, regardless of freshness.
pub open spec fn stored_key_value<T>(c: &CacheWithKey<T>, k: Seq<char>) -> Option<T> {
    match find_entry(c.entries@, k) {
        Some(e) => Some(e.value),
        None => None,
    }
}

/// The decision a reader of key `k` receives at time `now`.
pub open spec fn spec_key_decision<T>(c: &CacheWithKey<T>, k: Seq<char>, now: int) -> CacheDecision {
    if spec_key_fresh(c, k, now) {
        CacheDecision::Hit
    } else if contains_key(c.in_flight@, k) {
        CacheDecision::Wait
    } else {
        CacheDecision::Start
    }
}

proof fn lemma_find_entry_index<T>(s: Seq<KeyedEntry<T>>, k: Seq<char>, i: int)
    requires
        forall|a: int, b: int| 0 <= a < b < s.len() ==> (#[trigger] s[a]).key@ != (
        #[trigger] s[b]).key@,
        0 <= i < s.len(),
        s[i].key@ == k,
    ensures
        find_entry(s, k) == Some(s[i]),
    decreases s.len(),
{
    if i > 0 {
        assert(forall|j: int| 0 <= j < s.drop_first().len() ==> #[trigger] s.drop_first()[j] == s[j
            + 1]);
        lemma_find_entry_index(s.drop_first(), k, i - 1);
    }
}

proof fn lemma_find_entry_absent<T>(s: Seq<KeyedEntry<T>>, k: Seq<char>)
    requires
        forall|i: int| 0 <= i < s.len() ==> (#[trigger] s[i]).key@ != k,
    ensures
        find_entry(s, k) is None,
    decreases s.len(),
{
    if s.len() > 0 {
        assert(forall|j: int| 0 <= j < s.drop_first().len() ==> #[trigger] s.drop_first()[j] == s[j
            + 1]);
        lemma_find_entry_absent(s.drop_first(), k);
    }
}

proof fn lemma_find_entry_some<T>(s: Seq<KeyedEntry<T>>, k: Seq<char>)
    requires
        find_entry(s, k) is Some,
    ensures
        exists|i: int|
            0 <= i < s.len() && #[trigger] s[i] == find_entry(s, k)->Some_0 && s[i].key@ == k,
    decreases s.len(),
{
    if s.len() > 0 && s[0].key@ != k {
        assert(forall|j: int| 0 <= j < s.drop_first().len() ==> #[trigger] s.drop_first()[j] == s[j
            + 1]);
        lemma_find_entry_some(s.drop_first(), k);
        let w = choose|i: int|
            0 <= i < s.drop_first().len() && #[trigger] s.drop_first()[i] == find_entry(
                s.drop_first(),
                k,
            )->Some_0 && s.drop_first()[i].key@ == k;
        assert(s[w + 1] == s.drop_first()[w]);
    }
}

proof fn lemma_find_entry_none_forall<T>(s: Seq<KeyedEntry<T>>, k: Seq<char>)
    requires
        find_entry(s, k) is None,
    ensures
        forall|i: int| 0 <= i < s.len() ==> (#[trigger] s[i]).key@ != k,
    decreases s.len(),
{
    if s.len() > 0 {
        lemma_find_entry_none_forall(s.drop_first(), k);
        assert forall|i: int| 0 <= i < s.len() implies (#[trigger] s[i]).key@ != k by {
            if i > 0 {
                assert(s[i] == s.drop_first()[i - 1]);
            }
        }
    }
}

impl<T> CacheWithKey<T> {
    /// An empty keyed table with the given time-to-live.
    pub fn new(ttl: u64) -> (r: Self)
        ensures
            r.ttl == ttl,
            r.entries@.len() == 0,
            r.in_flight@.len() == 0,
            keyed_wf(&r),
    {
        CacheWithKey { ttl, entries: Vec::new(), in_flight: Vec::new() }
    }

    /// Index of the stored entry for `key`, if any.
    fn find_index(&self, key: &String) -> (r: Option<usize>)
        requires
            keyed_wf(self),
        ensures
            match r {
                Some(i) => i < self.entries@.len() && self.entries@[i as int].key@ == key@
                    && find_entry(self.entries@, key@) == Some(self.entries@[i as int]),
                None => find_entry(self.entries@, key@) is None,
            },
    {
        let n = self.entries.len();
        let mut i: usize = 0;
        while i < n
            invariant
                keyed_wf(self),
                n == self.entries@.len(),
                0 <= i <= n,
                forall|j: int| 0 <= j < i ==> (#[trigger] self.entries@[j]).key@ != key@,
            decreases n - i,
        {
            if self.entries[i].key == *key {
                proof {
                    lemma_find_entry_index(self.entries@, key@, i as int);
                }
                return Some(i);
            }
            i = i + 1;
        }
        proof {
            lemma_find_entry_absent(self.entries@, key@);
        }
        None
    }

    /// True when a fetch for `key` is outstanding.
    fn is_in_flight(&self, key: &String) -> (r: bool)
        ensures
            r == contains_key(self.in_flight@, key@),
    {
        let n = self.in_flight.len();
        let mut i: usize = 0;
        while i < n
            invariant
                n == self.in_flight@.len(),
                0 <= i <= n,
                forall|j: int| 0 <= j < i ==> (#[trigger] self.in_flight@[j])@ != key@,
            decreases n - i,
        {
            if self.in_flight[i] == *key {
                return true;
            }
            i = i + 1;
        }
        false
    }

    /// Read the table: the value stored for `key` while fresh, nothing
    /// otherwise.
    pub fn get(&self, key: &String, now: u64) -> (r: Option<&T>)
        requires
            keyed_wf(self),
        ensures
            match r {
                Some(v) => spec_key_fresh(self, key@, now as int) && stored_key_value(self, key@)
                    == Some(*v),
                None => !spec_key_fresh(self, key@, now as int),
            },
    {
        match self.find_index(key) {
            Some(i) => {
                let e = &self.entries[i];
                if e.fetched_at <= now && now - e.fetched_at < self.ttl {
                    Some(&e.value)
                } else {
                    None
                }
            },
            None => None,
        }
    }

    /// Ask what to do for `key` at time `now`; a `Start` answer marks the
    /// key's fetch as in flight.
    pub fn begin(&mut self, key: &String, now: u64) -> (r: CacheDecision)
        requires
            keyed_wf(old(self)),
        ensures
            keyed_wf(final(self)),
            r == spec_key_decision(old(self), key@, now as int),
            final(self).ttl == old(self).ttl,
            final(self).entries == old(self).entries,
            r == CacheDecision::Start ==> final(self).in_flight@ == old(self).in_flight@.push(
                *key,
            ),
            r != CacheDecision::Start ==> final(self).in_flight == old(self).in_flight,
    {
        let fresh = match self.find_index(key) {
            Some(i) => {
                let e = &self.entries[i];
                e.fetched_at <= now && now - e.fetched_at < self.ttl
            },
            None => false,
        };
        if fresh {
            CacheDecision::Hit
        } else if self.is_in_flight(key) {
            CacheDecision::Wait
        } else {
            self.in_flight.push(key.clone());
            proof {
                assert forall|i: int, j: int|
                    0 <= i < j < self.in_flight@.len() implies (#[trigger] self.in_flight@[i])@ != (
                #[trigger] self.in_flight@[j])@ by {
                    if j == self.in_flight@.len() - 1 {
                        assert(self.in_flight@[i] == old(self).in_flight@[i]);
                    }
                }
            }
            CacheDecision::Start
        }
    }

    /// Report the outcome of the fetch for `key`. A successful fetch
    /// stores its value for that key with a fresh timestamp; a failed
    /// fetch leaves the table as it was. Either way the key's in-flight
    /// mark is cleared and every other key is untouched.
    pub fn complete(&mut self, key: &String, now: u64, result: Option<T>)
        requires
            keyed_wf(old(self)),
        ensures
            keyed_wf(final(self)),
            final(self).ttl == old(self).ttl,
            !contains_key(final(self).in_flight@, key@),
            forall|k2: Seq<char>|
                k2 != key@ ==> #[trigger] contains_key(final(self).in_flight@, k2) == contains_key(
                    old(self).in_flight@,
                    k2,
                ),
            match result {
                Some(v) => find_entry(final(self).entries@, key@) matches Some(e) && e.value == v
                    && e.fetched_at == now && e.key@ == key@,
                None => final(self).entries == old(self).entries,
            },
            forall|k2: Seq<char>|
                k2 != key@ ==> #[trigger] find_entry(final(self).entries@, k2) == find_entry(
                    old(self).entries@,
                    k2,
                ),
    {
        self.clear_in_flight(key);
        match result {
            Some(v) => {
                self.store(key, now, v);
            },
            None => {},
        }
    }

    /// Remove the in-flight mark of `key`, if it is set.
    fn clear_in_flight(&mut self, key: &String)
        requires
            keyed_wf(old(self)),
        ensures
            keyed_wf(final(self)),
            final(self).ttl == old(self).ttl,
            final(self).entries == old(self).entries,
            !contains_key(final(self).in_flight@, key@),
            forall|k2: Seq<char>|
                k2 != key@ ==> #[trigger] contains_key(final(self).in_flight@, k2) == contains_key(
                    old(self).in_flight@,
                    k2,
                ),
    {
        let n = self.in_flight.len();
        let mut i: usize = 0;
        while i < n
            invariant
                keyed_wf(self),
                self.ttl == old(self).ttl,
                self.entries == old(self).entries,
                self.in_flight == old(self).in_flight,
                n == self.in_flight@.len(),
                0 <= i <= n,
                forall|j: int| 0 <= j < i ==> (#[trigger] self.in_flight@[j])@ != key@,
            decreases n - i,
        {
            if self.in_flight[i] == *key {
                self.in_flight.remove(i);
                proof {
                    let s0 = old(self).in_flight@;
                    let s1 = self.in_flight@;
                    assert(s1 =~= s0.subrange(0, i as int) + s0.subrange(i + 1, s0.len() as int));
                    assert forall|j: int| 0 <= j < s1.len() implies (#[trigger] s1[j])@ != key@ by {
                        if j < i {
                            assert(s1[j] == s0[j]);
                        } else {
                            assert(s1[j] == s0[j + 1]);
                        }
                    }
                    assert forall|k2: Seq<char>| k2 != key@ && contains_key(s0, k2) implies
                        contains_key(s1, k2) by {
                        let w = choose|w: int| 0 <= w < s0.len() && (#[trigger] s0[w])@ == k2;
                        if w < i {
                            assert(s1[w] == s0[w]);
                        } else {
                            assert(s1[w - 1] == s0[w]);
                        }
                    }
                    assert forall|k2: Seq<char>| k2 != key@ && contains_key(s1, k2) implies
                        contains_key(s0, k2) by {
                        let w = choose|w: int| 0 <= w < s1.len() && (#[trigger] s1[w])@ == k2;
                        if w < i {
                            assert(s0[w] == s1[w]);
                        } else {
                            assert(s0[w + 1] == s1[w]);
                        }
                    }
                }
                return ;
            }
            i = i + 1;
        }
    }

    /// Store a fetched value for `key`, replacing the key's old entry.
    fn store(&mut self, key: &String, now: u64, value: T)
        requires
            keyed_wf(old(self)),
        ensures
            keyed_wf(final(self)),
            final(self).ttl == old(self).ttl,
            final(self).in_flight == old(self).in_flight,
            find_entry(final(self).entries@, key@) matches Some(e) && e.value == value
                && e.fetched_at == now && e.key@ == key@,
            forall|k2: Seq<char>|
                k2 != key@ ==> #[trigger] find_entry(final(self).entries@, k2) == find_entry(
                    old(self).entries@,
                    k2,
                ),
    {
        let ghost s0 = self.entries@;
        match self.find_index(key) {
            Some(i) => {
                self.entries.remove(i);
                proof {
                    let s1 = self.entries@;
                    assert(s1 =~= s0.subrange(0, i as int) + s0.subrange(i + 1, s0.len() as int));
                    assert forall|a: int, b: int| 0 <= a < b < s1.len() implies (
                    #[trigger] s1[a]).key@ != (#[trigger] s1[b]).key@ by {
                        let a0: int = if a < i { a } else { a + 1 };
                        let b0: int = if b < i { b } else { b + 1 };
                        assert(s1[a] == s0[a0] && s1[b] == s0[b0]);
                    }
                    assert forall|j: int| 0 <= j < s1.len() implies (#[trigger] s1[j]).key@
                        != key@ by {
                        let j0: int = if j < i { j } else { j + 1 };
                        assert(s1[j] == s0[j0]);
                    }
                    assert forall|k2: Seq<char>| k2 != key@ implies #[trigger] find_entry(s1, k2)
                        == find_entry(s0, k2) by {
                        lemma_find_after_remove(s0, i as int, k2);
                    }
                }
            },
            None => {
                proof {
                    lemma_find_entry_none_forall(s0, key@);
                }
            },
        }
        let ghost s1 = self.entries@;
        self.entries.push(KeyedEntry { key: key.clone(), value, fetched_at: now });
        proof {
            let s2 = self.entries@;
            let e = s2[s2.len() - 1];
            assert forall|a: int, b: int| 0 <= a < b < s2.len() implies (#[trigger] s2[a]).key@ != (
            #[trigger] s2[b]).key@ by {
                if b == s2.len() - 1 {
                    assert(s2[a] == s1[a]);
                }
            }
            lemma_find_entry_index(s2, key@, s2.len() - 1);
            assert forall|k2: Seq<char>| k2 != key@ implies #[trigger] find_entry(s2, k2)
                == find_entry(s1, k2) by {
                lemma_find_push_other(s1, e, k2);
            }
        }
    }
}

proof fn lemma_find_after_remove<T>(s0: Seq<KeyedEntry<T>>, i: int, k2: Seq<char>)
    requires
        forall|a: int, b: int| 0 <= a < b < s0.len() ==> (#[trigger] s0[a]).key@ != (
        #[trigger] s0[b]).key@,
        0 <= i < s0.len(),
        s0[i].key@ != k2,
    ensures
        find_entry(s0.remove(i), k2) == find_entry(s0, k2),
{
    let s1 = s0.remove(i);
    assert(forall|a: int, b: int|
        0 <= a < b < s1.len() ==> (#[trigger] s1[a]).key@ != (#[trigger] s1[b]).key@) by {
        assert forall|a: int, b: int| 0 <= a < b < s1.len() implies (#[trigger] s1[a]).key@ != (
        #[trigger] s1[b]).key@ by {
            let a0: int = if a < i { a } else { a + 1 };
            let b0: int = if b < i { b } else { b + 1 };
            assert(s1[a] == s0[a0] && s1[b] == s0[b0]);
        }
    }
    match find_entry(s0, k2) {
        Some(e) => {
            lemma_find_entry_some(s0, k2);
            let w = choose|w: int| 0 <= w < s0.len() && #[trigger] s0[w] == e && s0[w].key@ == k2;
            let w1: int = if w < i { w } else { w - 1 };
            assert(s1[w1] == s0[w]);
            lemma_find_entry_index(s1, k2, w1);
        },
        None => {
            lemma_find_entry_none_forall(s0, k2);
            assert forall|j: int| 0 <= j < s1.len() implies (#[trigger] s1[j]).key@ != k2 by {
                let j0: int = if j < i { j } else { j + 1 };
                assert(s1[j] == s0[j0]);
            }
            lemma_find_entry_absent(s1, k2);
        },
    }
}

proof fn lemma_find_push_other<T>(s: Seq<KeyedEntry<T>>, e: KeyedEntry<T>, k2: Seq<char>)
    requires
        e.key@ != k2,
    ensures
        find_entry(s.push(e), k2) == find_entry(s, k2),
    decreases s.len(),
{
    reveal_with_fuel(find_entry, 3);
    if s.len() == 0 {
        assert(s.push(e)[0] == e);
        assert(s.push(e).drop_first() =~= Seq::<KeyedEntry<T>>::empty());
    } else {
        assert(s.push(e)[0] == s[0]);
        assert(s.push(e).drop_first() =~= s.drop_first().push(e));
        lemma_find_push_other(s.drop_first(), e, k2);
    }
}

/// Law: concurrent misses on one key collapse into a single fetch for
/// that key. `c1` is the state `begin` leaves behind when it answers
/// `Start` for `key`, and `c2` any later state in which `key` holds a
/// value fetched at `tc`: the first reader fetches, same-keyed readers
/// arriving meanwhile wait, a reader of any other key is unaffected, and
/// after completion every reader within the window sees the one stored
/// value.
pub proof fn lemma_keyed_single_flight<T>(
    c0: CacheWithKey<T>,
    c1: CacheWithKey<T>,
    c2: CacheWithKey<T>,
    key: String,
    other: Seq<char>,
    v: T,
    now: u64,
    later: u64,
    tc: u64,
    tr: u64,
)
    requires
        !spec_key_fresh(&c0, key@, now as int),
        !contains_key(c0.in_flight@, key@),
        find_entry(c0.entries@, key@) matches Some(e) ==> e.fetched_at <= now,
        now <= later,
        c1.ttl == c0.ttl,
        c1.entries == c0.entries,
        c1.in_flight@ == c0.in_flight@.push(key),
        c2.ttl == c0.ttl,
        find_entry(c2.entries@, key@) matches Some(e) && e.value == v && e.fetched_at == tc,
        tc <= tr,
        tr - tc < c0.ttl,
        other != key@,
    ensures
        spec_key_decision(&c0, key@, now as int) == CacheDecision::Start,
        spec_key_decision(&c1, key@, later as int) == CacheDecision::Wait,
        spec_key_fresh(&c1, other, later as int) == spec_key_fresh(&c0, other, later as int),
        contains_key(c1.in_flight@, other) == contains_key(c0.in_flight@, other),
        spec_key_decision(&c2, key@, tr as int) == CacheDecision::Hit,
        stored_key_value(&c2, key@) == Some(v),
{
    let s0 = c0.in_flight@;
    let s1 = c1.in_flight@;
    assert(s1[s1.len() - 1] == key);
    assert(contains_key(s1, key@));
    if contains_key(s1, other) {
        let w = choose|w: int| 0 <= w < s1.len() && (#[trigger] s1[w])@ == other;
        assert(w < s0.len() && s1[w] == s0[w]);
        assert(contains_key(s0, other));
    }
    if contains_key(s0, other) {
        let w = choose|w: int| 0 <= w < s0.len() && (#[trigger] s0[w])@ == other;
        assert(s1[w] == s0[w]);
        assert(contains_key(s1, other));
    }
}

/// Law: a failed fetch neither populates nor poisons the slot: after the
/// failure is reported, a stale reader is told to fetch again from
/// scratch.
pub proof fn lemma_cache_error_retry<T>(c0: Cache<T>, now: u64, tr: u64)
    requires
        !spec_fresh(&c0, now as int),
        c0.entry matches Some(e) ==> e.fetched_at <= now,
        now <= tr,
    ensures
        ({
            let c2 = Cache { ttl: c0.ttl, entry: c0.entry, in_flight: false };
            spec_decision(&c2, tr as int) == CacheDecision::Start
        }),
{
}

} // verus!
