//! Price caches, per symbol and per time bucket (an hour or a day).
//!
//! A cache maps a symbol to a series of `(timestamp, value)` points.
//! Symbols are compared after conversion to upper case, and the
//! timestamps of a [`ResolutionCache`] are aligned on the start of their
//! bucket (one point per bucket). Loading and saving a cache is left to
//! the caller, which fills a cache through [`ResolutionCache::insert`]
//! and reads it back through [`PriceCache::symbols`] and
//! [`PriceCache::range_since`].
use vstd::prelude::*;

use crate::market::series::{
    earliest_key, first_key, is_earliest, is_latest_at_or_before, last_key, latest_at_or_before,
    latest_key, lookup, points_map, points_since, put, since, strictly_sorted, value_at,
    value_at_or_before,
};
use crate::text::{ascii_upper, is_ascii_text, to_upper, upper_text};
use crate::time::{now_secs, MAX_UTC_SECS, MIN_UTC_SECS, SECONDS_PER_DAY};

verus! {

/// Width of a cache bucket.
#[derive(Debug, Clone, Copy, PartialEq, Eq, Structural)]
pub enum Resolution {
    Hour,
    Day,
}

impl Resolution {
    pub open spec fn spec_seconds(self) -> int {
        match self {
            Resolution::Hour => 3_600,
            Resolution::Day => 86_400,
        }
    }

    /// Length of a bucket in seconds.
    pub fn seconds(self) -> (r: i64)
        ensures
            r == self.spec_seconds(),
    {
        match self {
            Resolution::Hour => 3_600,
            Resolution::Day => 86_400,
        }
    }

    /// Start of the bucket that contains `ts`.
    pub open spec fn spec_align(self, ts: int) -> int {
        ts - ts % self.spec_seconds()
    }

    /// Start of the bucket that contains `ts`. (For `ts` within one bucket
    /// of `i64::MIN` the start is not representable.)
    pub fn align(self, ts: i64) -> (r: i64)
        requires
            self.spec_align(ts as int) >= i64::MIN,
        ensures
            r == self.spec_align(ts as int),
            r <= ts < r + self.spec_seconds(),
            (r as int) % self.spec_seconds() == 0,
    {
        let s = self.seconds();
        let rem = match ts.checked_rem_euclid(s) {
            Some(x) => x,
            None => 0,
        };
        proof {
            lemma_align_props(ts as int, s as int);
        }
        ts - rem
    }

    /// [`Self::align`] where the start of the bucket is representable,
    /// `None` otherwise.
    pub fn checked_align(self, ts: i64) -> (r: Option<i64>)
        ensures
            r == (if self.spec_align(ts as int) >= i64::MIN {
                Some(self.spec_align(ts as int) as i64)
            } else {
                None::<i64>
            }),
    {
        let s = self.seconds();
        let rem = match ts.checked_rem_euclid(s) {
            Some(x) => x,
            None => 0,
        };
        proof {
            lemma_align_props(ts as int, s as int);
        }
        ts.checked_sub(rem)
    }
}

proof fn lemma_align_props(ts: int, s: int)
    requires
        s > 0,
    ensures
        0 <= ts % s < s,
        (ts - ts % s) % s == 0,
        (ts - ts % s) <= ts < (ts - ts % s) + s,
{
    assert(0 <= ts % s < s) by (nonlinear_arith)
        requires
            s > 0,
    ;
    assert((ts - ts % s) % s == 0) by (nonlinear_arith)
        requires
            s > 0,
    ;
}

/// Aligning twice is aligning once, and every instant of a bucket aligns
/// on the same start.
pub proof fn lemma_align_idempotent(r: Resolution, ts: int)
    ensures
        r.spec_align(r.spec_align(ts)) == r.spec_align(ts),
        forall|t: int| r.spec_align(ts) <= t < r.spec_align(ts) + r.spec_seconds()
            ==> #[trigger] r.spec_align(t) == r.spec_align(ts),
{
    let s = r.spec_seconds();
    lemma_align_props(ts, s);
    let a = r.spec_align(ts);
    lemma_align_props(a, s);
    assert(a % s == 0);
    assert forall|t: int| a <= t < a + s implies #[trigger] r.spec_align(t) == a by {
        lemma_align_props(t, s);
        assert(t - t % s == a) by (nonlinear_arith)
            requires
                a % s == 0,
                a <= t < a + s,
                0 <= t % s < s,
                (t - t % s) % s == 0,
                t - t % s <= t < t - t % s + s,
                s > 0,
        ;
    }
}

/// `aligned_ts` is the bucket that contains the instant `now`.
pub open spec fn spec_is_live_bucket(aligned_ts: int, resolution: Resolution, now: int) -> bool {
    aligned_ts == resolution.spec_align(now)
}

/// Whether `aligned_ts` is the bucket of `now`: a price asked for that
/// bucket is a price "now" (which can still move), not a price of the
/// (immutable) past.
pub fn is_live_bucket_at(aligned_ts: i64, resolution: Resolution, now: i64) -> (r: bool)
    requires
        0 <= now,
    ensures
        r == spec_is_live_bucket(aligned_ts as int, resolution, now as int),
{
    proof {
        lemma_align_props(now as int, resolution.spec_seconds());
    }
    aligned_ts == resolution.align(now)
}

/// Whether `aligned_ts` is the current bucket, by the system clock.
pub fn is_live_bucket(aligned_ts: i64, resolution: Resolution) -> (r: bool)
    ensures
        exists|now: int|
            0 <= now <= MAX_UTC_SECS && r == spec_is_live_bucket(aligned_ts as int, resolution, now),
{
    let now = now_secs();
    is_live_bucket_at(aligned_ts, resolution, now)
}

/// The series of one symbol.
struct SymbolSeries<V> {
    symbol: String,
    points: Vec<(i64, V)>,
}

/// Cached values per (upper-case) symbol and timestamp.
pub struct PriceCache<V> {
    entries: Vec<SymbolSeries<V>>,
}

/// The abstract content of a cache: symbol -> timestamp -> value.
spec fn cache_view<V>(entries: Seq<SymbolSeries<V>>) -> Map<Seq<char>, Map<i64, V>> {
    Map::new(
        |s: Seq<char>| exists|j: int| 0 <= j < entries.len() && entries[j].symbol@ == s,
        |s: Seq<char>|
            points_map(
                entries[choose|j: int| 0 <= j < entries.len() && entries[j].symbol@ == s].points@,
            ),
    )
}

spec fn entries_wf<V>(entries: Seq<SymbolSeries<V>>) -> bool {
    &&& forall|j: int| 0 <= j < entries.len() ==> strictly_sorted(#[trigger] entries[j].points@)
    &&& forall|i: int, j: int|
        0 <= i < j < entries.len() ==> #[trigger] entries[i].symbol@ != #[trigger] entries[j].symbol@
}

proof fn lemma_cache_view_at<V>(entries: Seq<SymbolSeries<V>>, j: int)
    requires
        entries_wf(entries),
        0 <= j < entries.len(),
    ensures
        cache_view(entries).contains_key(entries[j].symbol@),
        cache_view(entries)[entries[j].symbol@] == points_map(entries[j].points@),
{
    let s = entries[j].symbol@;
    let c = choose|c: int| 0 <= c < entries.len() && entries[c].symbol@ == s;
    if c < j {
    } else if c > j {
    }
}

impl<V> View for PriceCache<V> {
    type V = Map<Seq<char>, Map<i64, V>>;

    closed spec fn view(&self) -> Map<Seq<char>, Map<i64, V>> {
        cache_view(self.entries@)
    }
}

/// The points cached for `key` (empty when the key is unknown).
pub open spec fn series_of<V>(m: Map<Seq<char>, Map<i64, V>>, key: Seq<char>) -> Map<i64, V> {
    if m.contains_key(key) {
        m[key]
    } else {
        Map::empty()
    }
}

/// The value of the latest point of `m` at or before `ts`.
pub open spec fn value_at_or_before_spec<V>(m: Map<i64, V>, ts: int) -> Option<V> {
    match latest_at_or_before(m, ts) {
        Some(k) => Some(m[k]),
        None => None,
    }
}

impl<V> PriceCache<V> {
    #[verifier::type_invariant]
    closed spec fn wf(self) -> bool {
        entries_wf(self.entries@)
    }
}

impl<V: Copy> PriceCache<V> {
    /// An empty cache.
    pub fn new() -> (r: PriceCache<V>)
        ensures
            r@ == Map::<Seq<char>, Map<i64, V>>::empty(),
    {
        let r = PriceCache { entries: Vec::new() };
        assert(r@ =~= Map::<Seq<char>, Map<i64, V>>::empty());
        r
    }

    /// Position of the series of `key`, if there is one.
    fn find(&self, key: &String) -> (r: Option<usize>)
        ensures
            match r {
                Some(j) => j < self.entries@.len() && self.entries@[j as int].symbol@ == key@,
                None => forall|j: int|
                    0 <= j < self.entries@.len() ==> self.entries@[j].symbol@ != key@,
            },
    {
        let mut j: usize = 0;
        while j < self.entries.len()
            invariant
                j <= self.entries@.len(),
                forall|i: int| 0 <= i < j ==> self.entries@[i].symbol@ != key@,
            decreases self.entries@.len() - j,
        {
            if self.entries[j].symbol == *key {
                return Some(j);
            }
            j = j + 1;
        }
        None
    }

    proof fn lemma_view_of_found(&self, key: Seq<char>, r: Option<usize>)
        requires
            entries_wf(self.entries@),
            match r {
                Some(j) => j < self.entries@.len() && self.entries@[j as int].symbol@ == key,
                None => forall|j: int|
                    0 <= j < self.entries@.len() ==> self.entries@[j].symbol@ != key,
            },
        ensures
            match r {
                Some(j) => series_of(self@, key) == points_map(self.entries@[j as int].points@)
                    && strictly_sorted(self.entries@[j as int].points@),
                None => !self@.contains_key(key) && series_of(self@, key) == Map::<i64, V>::empty(),
            },
    {
        match r {
            Some(j) => {
                lemma_cache_view_at(self.entries@, j as int);
            },
            None => {},
        }
    }

    /// Value at exactly `ts` for `symbol` (any case).
    pub fn get_exact(&self, symbol: &str, ts: i64) -> (r: Option<V>)
        ensures
            r == lookup(series_of(self@, upper_text(symbol@)), ts),
    {
        let key = to_upper(symbol);
        let found = self.find(&key);
        proof {
            use_type_invariant(self);
            self.lemma_view_of_found(key@, found);
        }
        match found {
            Some(j) => value_at(&self.entries[j].points, ts),
            None => None,
        }
    }

    /// Value of the latest point at or before `ts` for `symbol` (any
    /// case), however old that point is.
    pub fn get_closest(&self, symbol: &str, ts: i64) -> (r: Option<V>)
        ensures
            r == value_at_or_before_spec(series_of(self@, upper_text(symbol@)), ts as int),
    {
        let key = to_upper(symbol);
        let found = self.find(&key);
        proof {
            use_type_invariant(self);
            self.lemma_view_of_found(key@, found);
        }
        match found {
            Some(j) => value_at_or_before(&self.entries[j].points, ts),
            None => {
                proof {
                    let m = Map::<i64, V>::empty();
                    assert(!exists|k: i64| is_latest_at_or_before(m, ts as int, k));
                }
                None
            },
        }
    }

    /// Timestamp of the latest point of `symbol`.
    pub fn latest_ts(&self, symbol: &str) -> (r: Option<i64>)
        ensures
            r == latest_key(series_of(self@, upper_text(symbol@))),
    {
        let key = to_upper(symbol);
        let found = self.find(&key);
        proof {
            use_type_invariant(self);
            self.lemma_view_of_found(key@, found);
        }
        match found {
            Some(j) => last_key(&self.entries[j].points),
            None => {
                proof {
                    let m = Map::<i64, V>::empty();
                    assert(!exists|k: i64| is_latest_at_or_before(m, i64::MAX as int, k));
                }
                None
            },
        }
    }

    /// Timestamp of the earliest point of `symbol`.
    pub fn earliest_ts(&self, symbol: &str) -> (r: Option<i64>)
        ensures
            r == earliest_key(series_of(self@, upper_text(symbol@))),
    {
        let key = to_upper(symbol);
        let found = self.find(&key);
        proof {
            use_type_invariant(self);
            self.lemma_view_of_found(key@, found);
        }
        match found {
            Some(j) => first_key(&self.entries[j].points),
            None => {
                proof {
                    let m = Map::<i64, V>::empty();
                    assert(!exists|k: i64| is_earliest(m, k));
                }
                None
            },
        }
    }

    /// The points of `symbol` at or after `since_ts`, in increasing order
    /// of timestamp.
    pub fn range_since(&self, symbol: &str, since_ts: i64) -> (r: Vec<(i64, V)>)
        ensures
            strictly_sorted(r@),
            points_map(r@) == since(series_of(self@, upper_text(symbol@)), since_ts as int),
    {
        let key = to_upper(symbol);
        let found = self.find(&key);
        proof {
            use_type_invariant(self);
            self.lemma_view_of_found(key@, found);
        }
        match found {
            Some(j) => points_since(&self.entries[j].points, since_ts),
            None => {
                let r: Vec<(i64, V)> = Vec::new();
                proof {
                    assert(points_map(r@) =~= since(Map::<i64, V>::empty(), since_ts as int));
                }
                r
            },
        }
    }

    /// Stores `price` at `ts` for `symbol` (any case), replacing the value
    /// already there.
    pub fn insert(&mut self, symbol: &str, ts: i64, price: V)
        ensures
            final(self)@ == old(self)@.insert(
                upper_text(symbol@),
                series_of(old(self)@, upper_text(symbol@)).insert(ts, price),
            ),
    {
        proof {
            use_type_invariant(&*self);
        }
        let key = to_upper(symbol);
        let found = self.find(&key);
        proof {
            self.lemma_view_of_found(key@, found);
        }
        let ghost old_entries = self.entries@;
        let ghost old_view = self@;
        let mut entries: Vec<SymbolSeries<V>> = Vec::new();
        std::mem::swap(&mut entries, &mut self.entries);
        match found {
            Some(j) => {
                let mut slot = SymbolSeries { symbol: String::new(), points: Vec::new() };
                entries.set_and_swap(j, &mut slot);
                let SymbolSeries { symbol: sym, points: mut pts } = slot;
                put(&mut pts, ts, price);
                let ghost new_pts = pts@;
                let mut back = SymbolSeries { symbol: sym, points: pts };
                entries.set_and_swap(j, &mut back);
                proof {
                    assert(entries@[j as int].symbol@ == key@);
                    assert(entries@[j as int].points@ == new_pts);
                    assert forall|a: int| 0 <= a < entries@.len() implies strictly_sorted(
                        #[trigger] entries@[a].points@,
                    ) by {
                        if a != j {
                            assert(entries@[a] == old_entries[a]);
                        }
                    }
                    assert forall|a: int, b: int|
                        0 <= a < b < entries@.len() implies #[trigger] entries@[a].symbol@
                        != #[trigger] entries@[b].symbol@ by {
                        assert(entries_wf(old_entries));
                        assert(old_entries[a].symbol@ != old_entries[b].symbol@);
                        assert(entries@[j as int].symbol@ == old_entries[j as int].symbol@);
                        if a != j {
                            assert(entries@[a] == old_entries[a]);
                        }
                        if b != j {
                            assert(entries@[b] == old_entries[b]);
                        }
                    }
                    let nv = cache_view(entries@);
                    let target = old_view.insert(key@, series_of(old_view, key@).insert(ts, price));
                    assert forall|s: Seq<char>| #[trigger] nv.contains_key(s) == target.contains_key(s) by {
                        if nv.contains_key(s) {
                            let c = choose|c: int| 0 <= c < entries@.len() && entries@[c].symbol@ == s;
                            if c != j {
                                assert(entries@[c] == old_entries[c]);
                                lemma_cache_view_at(old_entries, c);
                            }
                        }
                        if target.contains_key(s) {
                            if s == key@ {
                                lemma_cache_view_at(entries@, j as int);
                            } else {
                                let c = choose|c: int|
                                    0 <= c < old_entries.len() && old_entries[c].symbol@ == s;
                                assert(entries@[c] == old_entries[c]);
                                lemma_cache_view_at(entries@, c);
                            }
                        }
                    }
                    assert forall|s: Seq<char>| nv.contains_key(s) implies #[trigger] nv[s]
                        == target[s] by {
                        let c = choose|c: int| 0 <= c < entries@.len() && entries@[c].symbol@ == s;
                        lemma_cache_view_at(entries@, c);
                        if c != j {
                            assert(entries@[c] == old_entries[c]);
                            lemma_cache_view_at(old_entries, c);
                        }
                    }
                    assert(nv =~= target);
                }
            },
            None => {
                let mut pts: Vec<(i64, V)> = Vec::new();
                put(&mut pts, ts, price);
                let ghost new_pts = pts@;
                entries.push(SymbolSeries { symbol: key, points: pts });
                proof {
                    let n = old_entries.len() as int;
                    assert(points_map(Seq::<(i64, V)>::empty()) =~= Map::<i64, V>::empty());
                    assert forall|a: int| 0 <= a < entries@.len() implies strictly_sorted(
                        #[trigger] entries@[a].points@,
                    ) by {
                        if a != n {
                            assert(entries@[a] == old_entries[a]);
                        }
                    }
                    assert forall|a: int, b: int|
                        0 <= a < b < entries@.len() implies #[trigger] entries@[a].symbol@
                        != #[trigger] entries@[b].symbol@ by {
                        assert(entries@[a] == old_entries[a]);
                        if b != n {
                            assert(entries@[b] == old_entries[b]);
                        }
                    }
                    let nv = cache_view(entries@);
                    let target = old_view.insert(key@, series_of(old_view, key@).insert(ts, price));
                    assert forall|s: Seq<char>| #[trigger] nv.contains_key(s) == target.contains_key(s) by {
                        if nv.contains_key(s) {
                            let c = choose|c: int| 0 <= c < entries@.len() && entries@[c].symbol@ == s;
                            if c != n {
                                assert(entries@[c] == old_entries[c]);
                                lemma_cache_view_at(old_entries, c);
                            }
                        }
                        if target.contains_key(s) {
                            if s == key@ {
                                lemma_cache_view_at(entries@, n);
                            } else {
                                let c = choose|c: int|
                                    0 <= c < old_entries.len() && old_entries[c].symbol@ == s;
                                assert(entries@[c] == old_entries[c]);
                                lemma_cache_view_at(entries@, c);
                            }
                        }
                    }
                    assert forall|s: Seq<char>| nv.contains_key(s) implies #[trigger] nv[s]
                        == target[s] by {
                        let c = choose|c: int| 0 <= c < entries@.len() && entries@[c].symbol@ == s;
                        lemma_cache_view_at(entries@, c);
                        if c != n {
                            assert(entries@[c] == old_entries[c]);
                            lemma_cache_view_at(old_entries, c);
                        }
                    }
                    assert(nv =~= target);
                }
            },
        }
        self.entries = entries;
    }
}

} // verus!

verus! {

impl<V: Copy> PriceCache<V> {
    /// The symbols (upper case) that have points, each once.
    pub fn symbols(&self) -> (r: Vec<String>)
        ensures
            forall|i: int| 0 <= i < r@.len() ==> self@.contains_key(#[trigger] r@[i]@),
            forall|s: Seq<char>| self@.contains_key(s) ==> exists|i: int| 0 <= i < r@.len() && #[trigger] r@[i]@ == s,
            forall|i: int, j: int| 0 <= i < j < r@.len() ==> #[trigger] r@[i]@ != #[trigger] r@[j]@,
    {
        proof {
            use_type_invariant(self);
        }
        let mut out: Vec<String> = Vec::new();
        let mut j: usize = 0;
        while j < self.entries.len()
            invariant
                j <= self.entries@.len(),
                entries_wf(self.entries@),
                out@.len() == j,
                forall|i: int| 0 <= i < j ==> #[trigger] out@[i]@ == self.entries@[i].symbol@,
            decreases self.entries@.len() - j,
        {
            out.push(self.entries[j].symbol.clone());
            j = j + 1;
        }
        proof {
            assert forall|i: int| 0 <= i < out@.len() implies self@.contains_key(#[trigger] out@[i]@) by {
                lemma_cache_view_at(self.entries@, i);
            }
            assert forall|s: Seq<char>| self@.contains_key(s) implies exists|i: int|
                0 <= i < out@.len() && #[trigger] out@[i]@ == s by {
                let c = choose|c: int| 0 <= c < self.entries@.len() && self.entries@[c].symbol@ == s;
                assert(out@[c]@ == s);
            }
        }
        out
    }
}

/// A price cache whose timestamps are aligned on the buckets of one
/// resolution.
pub struct ResolutionCache<V> {
    resolution: Resolution,
    cache: PriceCache<V>,
}

impl<V> View for ResolutionCache<V> {
    type V = Map<Seq<char>, Map<i64, V>>;

    closed spec fn view(&self) -> Map<Seq<char>, Map<i64, V>> {
        self.cache@
    }
}

impl<V> ResolutionCache<V> {
    pub closed spec fn spec_resolution(&self) -> Resolution {
        self.resolution
    }

    /// Every point is at the start of its bucket.
    #[verifier::type_invariant]
    closed spec fn points_aligned(self) -> bool {
        all_aligned(self.cache@, self.resolution)
    }
}

/// Every point of `m` is at the start of its bucket of `resolution`.
pub open spec fn all_aligned<V>(m: Map<Seq<char>, Map<i64, V>>, resolution: Resolution) -> bool {
    forall|s: Seq<char>, t: i64|
        m.contains_key(s) && #[trigger] m[s].contains_key(t) ==> resolution.spec_align(t as int) == t
}

/// The epoch day of second `ts`, as the timestamp of that day's midnight.
pub open spec fn midnight_of(ts: int) -> int {
    crate::time::day_of_secs(ts) * SECONDS_PER_DAY
}

/// Cut-off of a window of `days` days ending at `now`: the start of the
/// day `days` days before `now`.
pub open spec fn window_cutoff(now: int, days: int) -> int {
    Resolution::Day.spec_align(now - days * SECONDS_PER_DAY)
}

/// Midnight of the day before the day of `now`.
pub open spec fn yesterday_start(now: int) -> int {
    midnight_of(now) - SECONDS_PER_DAY
}

/// The points of `m` from `cutoff` on, as `(epoch day, value)` in
/// increasing order: `r` lists them when some strictly sorted `pts` with
/// exactly those points maps to `r` day by day.
pub open spec fn is_day_listing<V>(r: Seq<(i64, V)>, m: Map<i64, V>, cutoff: int) -> bool {
    exists|pts: Seq<(i64, V)>|
        {
            &&& strictly_sorted(pts)
            &&& points_map(pts) == since(m, cutoff)
            &&& r.len() == pts.len()
            &&& forall|i: int|
                0 <= i < pts.len() ==> #[trigger] r[i] == (
                crate::time::day_of_secs(pts[i].0 as int) as i64,
                pts[i].1,
            )
        }
}

/// `r` lists, as `(epoch day, value)`, the points of `m` in the window of
/// `days` days ending at the instant `now` (a second within the range of
/// `chrono`), with the window's start aligned on `resolution`.
pub open spec fn window_listing<V>(
    r: Seq<(i64, V)>,
    m: Map<i64, V>,
    resolution: Resolution,
    now: int,
    days: int,
) -> bool {
    &&& 0 <= now <= MAX_UTC_SECS
    &&& is_day_listing(r, m, resolution.spec_align(now - days * SECONDS_PER_DAY))
}

/// `r` lists the window of `days` days at some instant read from the
/// clock.
pub open spec fn window_listing_at_some_instant<V>(
    r: Seq<(i64, V)>,
    m: Map<i64, V>,
    resolution: Resolution,
    days: int,
) -> bool {
    exists|now: int| #[trigger] window_listing(r, m, resolution, now, days)
}

impl<V: Copy> ResolutionCache<V> {
    /// An empty cache with buckets of `resolution`.
    pub fn empty(resolution: Resolution) -> (r: ResolutionCache<V>)
        ensures
            r.spec_resolution() == resolution,
            r@ == Map::<Seq<char>, Map<i64, V>>::empty(),
            all_aligned(r@, r.spec_resolution()),
    {
        ResolutionCache { resolution, cache: PriceCache::new() }
    }

    /// The bucket width.
    pub fn resolution(&self) -> (r: Resolution)
        ensures
            r == self.spec_resolution(),
    {
        self.resolution
    }

    /// The underlying cache (aligned timestamps).
    pub fn prices(&self) -> (r: &PriceCache<V>)
        ensures
            r@ == self@,
            all_aligned(r@, self.spec_resolution()),
    {
        proof {
            use_type_invariant(self);
        }
        &self.cache
    }

    /// Latest known value at or before the bucket of `ts`, however old.
    /// Right for a past date (immutable); wrong for a price "now", which
    /// must come from [`Self::get_exact`].
    pub fn get_closest(&self, symbol: &str, ts: i64) -> (r: Option<V>)
        requires
            self.spec_resolution().spec_align(ts as int) >= i64::MIN,
        ensures
            r == value_at_or_before_spec(
                series_of(self@, upper_text(symbol@)),
                self.spec_resolution().spec_align(ts as int),
            ),
    {
        self.cache.get_closest(symbol, self.resolution.align(ts))
    }

    /// Value stored in exactly the bucket of `ts`.
    pub fn get_exact(&self, symbol: &str, ts: i64) -> (r: Option<V>)
        requires
            self.spec_resolution().spec_align(ts as int) >= i64::MIN,
        ensures
            r == lookup(
                series_of(self@, upper_text(symbol@)),
                self.spec_resolution().spec_align(ts as int) as i64,
            ),
    {
        self.cache.get_exact(symbol, self.resolution.align(ts))
    }

    /// Bucket of the latest point of `symbol`.
    pub fn latest(&self, symbol: &str) -> (r: Option<i64>)
        ensures
            r == latest_key(series_of(self@, upper_text(symbol@))),
    {
        self.cache.latest_ts(symbol)
    }

    /// Bucket of the earliest point of `symbol`.
    pub fn earliest(&self, symbol: &str) -> (r: Option<i64>)
        ensures
            r == earliest_key(series_of(self@, upper_text(symbol@))),
    {
        self.cache.earliest_ts(symbol)
    }

    /// Stores `price` in the bucket of `ts`.
    pub fn insert(&mut self, symbol: &str, ts: i64, price: V)
        requires
            old(self).spec_resolution().spec_align(ts as int) >= i64::MIN,
        ensures
            final(self).spec_resolution() == old(self).spec_resolution(),
            final(self)@ == old(self)@.insert(
                upper_text(symbol@),
                series_of(old(self)@, upper_text(symbol@)).insert(
                    old(self).spec_resolution().spec_align(ts as int) as i64,
                    price,
                ),
            ),
            all_aligned(final(self)@, final(self).spec_resolution()),
    {
        proof {
            use_type_invariant(&*self);
            lemma_align_idempotent(self.resolution, ts as int);
        }
        let aligned = self.resolution.align(ts);
        let mut points = PriceCache::new();
        std::mem::swap(&mut points, &mut self.cache);
        let ghost before = points@;
        points.insert(symbol, aligned, price);
        proof {
            let r = self.resolution;
            assert forall|sym: Seq<char>, t: i64|
                points@.contains_key(sym) && #[trigger] points@[sym].contains_key(t) implies r.spec_align(t as int) == t by {
                if sym != upper_text(symbol@) || t != aligned {
                    assert(before.contains_key(sym) && before[sym].contains_key(t));
                }
            }
        }
        self.cache = points;
    }

    /// Stores `price` in the bucket of midnight of epoch day `day`.
    pub fn insert_date(&mut self, symbol: &str, day: i64, price: V)
        requires
            crate::time::MIN_DAY <= day <= crate::time::MAX_DAY,
        ensures
            final(self).spec_resolution() == old(self).spec_resolution(),
            final(self)@ == old(self)@.insert(
                upper_text(symbol@),
                series_of(old(self)@, upper_text(symbol@)).insert(
                    old(self).spec_resolution().spec_align(day * SECONDS_PER_DAY) as i64,
                    price,
                ),
            ),
            all_aligned(final(self)@, final(self).spec_resolution()),
    {
        let ts = day * SECONDS_PER_DAY;
        proof {
            lemma_align_props(ts as int, self.resolution.spec_seconds());
        }
        self.insert(symbol, ts, price);
    }

    /// The points of `symbol` from the start of the day `days` days
    /// before `now`, as `(epoch day, value)` in increasing order.
    pub fn range_days_at(&self, symbol: &str, days: i64, now: i64) -> (r: Vec<(i64, V)>)
        requires
            0 <= now <= MAX_UTC_SECS,
            i64::MIN <= days * SECONDS_PER_DAY <= i64::MAX,
            i64::MIN + SECONDS_PER_DAY <= now - days * SECONDS_PER_DAY <= i64::MAX,
        ensures
            is_day_listing(
                r@,
                series_of(self@, upper_text(symbol@)),
                self.spec_resolution().spec_align(now - days * SECONDS_PER_DAY),
            ),
    {
        let from = now - days * SECONDS_PER_DAY;
        proof {
            lemma_align_props(from as int, self.resolution.spec_seconds());
        }
        let cutoff = self.resolution.align(from);
        let pts = self.cache.range_since(symbol, cutoff);
        let mut out: Vec<(i64, V)> = Vec::new();
        let mut i: usize = 0;
        while i < pts.len()
            invariant
                i <= pts@.len(),
                out@.len() == i,
                forall|j: int|
                    0 <= j < i ==> #[trigger] out@[j] == (
                        crate::time::day_of_secs(pts@[j].0 as int) as i64,
                        pts@[j].1,
                    ),
            decreases pts@.len() - i,
        {
            let (ts, v) = pts[i];
            out.push((crate::time::day_of(ts), v));
            i = i + 1;
        }
        out
    }

    /// [`Self::range_days_at`] at the current instant.
    pub fn range_days(&self, symbol: &str, days: i64) -> (r: Vec<(i64, V)>)
        requires
            i64::MIN + SECONDS_PER_DAY <= -days * SECONDS_PER_DAY,
            MAX_UTC_SECS - days * SECONDS_PER_DAY <= i64::MAX,
        ensures
            window_listing_at_some_instant(
                r@,
                series_of(self@, upper_text(symbol@)),
                self.spec_resolution(),
                days as int,
            ),
    {
        let now = now_secs();
        let r = self.range_days_at(symbol, days, now);
        assert(window_listing(
            r@,
            series_of(self@, upper_text(symbol@)),
            self.spec_resolution(),
            now as int,
            days as int,
        ));
        r
    }
}

/// The daily cache after writing the fetched points `pts` under `key`,
/// in order, each at the midnight of its day. Points outside the range of
/// instants that `chrono` represents are not written.
pub open spec fn insert_days<V>(
    m: Map<Seq<char>, Map<i64, V>>,
    key: Seq<char>,
    pts: Seq<(i64, V)>,
) -> Map<Seq<char>, Map<i64, V>>
    decreases pts.len(),
{
    if pts.len() == 0 {
        m
    } else {
        let prev = insert_days(m, key, pts.drop_last());
        let p = pts.last();
        if MIN_UTC_SECS <= p.0 <= MAX_UTC_SECS {
            prev.insert(key, series_of(prev, key).insert(midnight_of(p.0 as int) as i64, p.1))
        } else {
            prev
        }
    }
}

/// Whether a daily series must be fetched again to serve a window of
/// `days` days at `now`: it must end no earlier than yesterday (fresh)
/// and start no later than the window's cut-off (deep enough).
pub open spec fn needs_refresh<V>(series: Map<i64, V>, now: int, days: int) -> bool {
    let fresh = match latest_key(series) {
        Some(t) => t >= yesterday_start(now),
        None => false,
    };
    let deep = match earliest_key(series) {
        Some(t) => t <= window_cutoff(now, days),
        None => false,
    };
    !(fresh && deep)
}

/// Instant from which a refresh fetches: five days before the cut-off,
/// to cover week-ends and holidays of stock markets.
pub open spec fn refresh_start(now: int, days: int) -> int {
    window_cutoff(now, days) - 5 * SECONDS_PER_DAY
}

/// What a refresh of the daily series `key` for a window of `days` days
/// at `now` did, from the cache `before` to the cache `after`: nothing
/// when the series was fresh and deep enough; otherwise one call of
/// `fetch` from [`refresh_start`], whose points were written (see
/// [`insert_days`]) or whose error was returned, the cache unchanged.
pub open spec fn refresh_outcome<V, E, F: FnOnce(i64) -> Result<Vec<(i64, V)>, E>>(
    before: Map<Seq<char>, Map<i64, V>>,
    after: Map<Seq<char>, Map<i64, V>>,
    key: Seq<char>,
    days: int,
    now: int,
    fetch: F,
    result: Result<(), E>,
) -> bool {
    if !needs_refresh(series_of(before, key), now, days) {
        result is Ok && after == before
    } else {
        match result {
            Ok(_) => exists|v: Vec<(i64, V)>|
                #[trigger] fetch.ensures((refresh_start(now, days) as i64,), Ok(v)) && after == insert_days(
                    before,
                    key,
                    v@,
                ),
            Err(e) => fetch.ensures((refresh_start(now, days) as i64,), Err(e)) && after == before,
        }
    }
}

/// The outcome of a computation, without its value.
pub open spec fn without_value<T, E>(r: Result<T, E>) -> Result<(), E> {
    match r {
        Ok(_) => Ok(()),
        Err(e) => Err(e),
    }
}

/// Brings the daily series `cache_key` up to date for a window of `days`
/// days at `now`: when the cached series is not fresh or not deep enough,
/// calls `fetch` once with [`refresh_start`] and writes every returned
/// point at the midnight of its day; otherwise leaves the cache alone.
pub fn refresh_daily_closes_at<V: Copy, E, F: FnOnce(i64) -> Result<Vec<(i64, V)>, E>>(
    cache: &mut ResolutionCache<V>,
    cache_key: &str,
    days: i64,
    now: i64,
    fetch: F,
) -> (r: Result<(), E>)
    requires
        old(cache).spec_resolution() == Resolution::Day,
        0 <= now <= MAX_UTC_SECS,
        i64::MIN <= days * SECONDS_PER_DAY <= i64::MAX,
        i64::MIN + 6 * SECONDS_PER_DAY <= now - days * SECONDS_PER_DAY <= i64::MAX,
        needs_refresh(series_of(old(cache)@, upper_text(cache_key@)), now as int, days as int)
            ==> fetch.requires((refresh_start(now as int, days as int) as i64,)),
    ensures
        final(cache).spec_resolution() == Resolution::Day,
        refresh_outcome(old(cache)@, final(cache)@, upper_text(cache_key@), days as int, now as int, fetch, r),
{
    let today = crate::time::day_of(now);
    let yesterday_ts = (today - 1) * SECONDS_PER_DAY;
    let from = now - days * SECONDS_PER_DAY;
    proof {
        lemma_align_props(from as int, 86400);
    }
    let cutoff_ts = Resolution::Day.align(from);
    let fresh = match cache.latest(cache_key) {
        Some(ts) => ts >= yesterday_ts,
        None => false,
    };
    let deep = match cache.earliest(cache_key) {
        Some(ts) => ts <= cutoff_ts,
        None => false,
    };
    if fresh && deep {
        return Ok(());
    }
    let start_ts = cutoff_ts - SECONDS_PER_DAY * 5;
    let fetched = match fetch(start_ts) {
        Ok(v) => v,
        Err(e) => {
            return Err(e);
        },
    };
    let ghost key = upper_text(cache_key@);
    let ghost initial = cache@;
    let mut i: usize = 0;
    while i < fetched.len()
        invariant
            i <= fetched@.len(),
            cache.spec_resolution() == Resolution::Day,
            cache@ == insert_days(initial, key, fetched@.take(i as int)),
            key == upper_text(cache_key@),
        decreases fetched@.len() - i,
    {
        let (ts, close) = fetched[i];
        proof {
            assert(fetched@.take(i + 1).drop_last() == fetched@.take(i as int));
        }
        if MIN_UTC_SECS <= ts && ts <= MAX_UTC_SECS {
            let day = crate::time::day_of(ts);
            proof {
                assert(crate::time::MIN_DAY <= day <= crate::time::MAX_DAY);
                lemma_align_props(day * 86400, 86400);
                assert((day * 86400) % 86400 == 0) by (nonlinear_arith);
            }
            cache.insert_date(cache_key, day, close);
        }
        i = i + 1;
    }
    proof {
        assert(fetched@.take(fetched@.len() as int) == fetched@);
    }
    Ok(())
}

/// Serves `days` days of daily values of `cache_key`, calling `fetch`
/// only when the cached series is not fresh or not deep enough (see
/// [`refresh_daily_closes_at`]); the clock is read for the decision and
/// again for the returned window, as `(epoch day, value)` in increasing
/// order.
pub fn daily_closes_cached<V: Copy, E, F: FnOnce(i64) -> Result<Vec<(i64, V)>, E>>(
    cache: &mut ResolutionCache<V>,
    cache_key: &str,
    days: i64,
    fetch: F,
) -> (r: Result<Vec<(i64, V)>, E>)
    requires
        old(cache).spec_resolution() == Resolution::Day,
        i64::MIN + 6 * SECONDS_PER_DAY <= -days * SECONDS_PER_DAY,
        MAX_UTC_SECS - days * SECONDS_PER_DAY <= i64::MAX,
        forall|now: int|
            0 <= now <= MAX_UTC_SECS && #[trigger] needs_refresh(
                series_of(old(cache)@, upper_text(cache_key@)),
                now,
                days as int,
            ) ==> fetch.requires((refresh_start(now, days as int) as i64,)),
    ensures
        final(cache).spec_resolution() == Resolution::Day,
        exists|now: int|
            0 <= now <= MAX_UTC_SECS && #[trigger] refresh_outcome(
                old(cache)@,
                final(cache)@,
                upper_text(cache_key@),
                days as int,
                now,
                fetch,
                without_value(r),
            ),
        r is Ok ==> window_listing_at_some_instant(
            r->Ok_0@,
            series_of(final(cache)@, upper_text(cache_key@)),
            Resolution::Day,
            days as int,
        ),
{
    let now = now_secs();
    let ghost before = cache@;
    proof {
        if needs_refresh(series_of(before, upper_text(cache_key@)), now as int, days as int) {
        }
    }
    let refreshed = refresh_daily_closes_at(cache, cache_key, days, now, fetch);
    match refreshed {
        Ok(_) => {
            let listing = cache.range_days(cache_key, days);
            let r: Result<Vec<(i64, V)>, E> = Ok(listing);
            proof {
                assert(refresh_outcome(before, cache@, upper_text(cache_key@), days as int, now as int, fetch, without_value(r)));
            }
            r
        },
        Err(e) => {
            let r: Result<Vec<(i64, V)>, E> = Err(e);
            proof {
                assert(refresh_outcome(before, cache@, upper_text(cache_key@), days as int, now as int, fetch, without_value(r)));
            }
            r
        },
    }
}

} // verus!

verus! {

/// Read after write: once a value is inserted at a key and timestamp, an
/// exact read of that key and timestamp gives it back.
pub proof fn lemma_exact_after_insert<V>(
    m: Map<Seq<char>, Map<i64, V>>,
    key: Seq<char>,
    ts: i64,
    v: V,
)
    ensures
        lookup(series_of(m.insert(key, series_of(m, key).insert(ts, v)), key), ts) == Some(v),
{
}

/// Inserting at one key leaves every other key's series as it was.
pub proof fn lemma_insert_keeps_other_symbols<V>(
    m: Map<Seq<char>, Map<i64, V>>,
    key: Seq<char>,
    other: Seq<char>,
    ts: i64,
    v: V,
)
    requires
        other != key,
    ensures
        series_of(m.insert(key, series_of(m, key).insert(ts, v)), other) == series_of(m, other),
{
}

/// A closest read never returns a point after the instant asked for: the
/// point it picks exists, is at or before `ts`, and no other point at or
/// before `ts` is later. When the series has no point at all, there is
/// nothing to pick.
pub proof fn lemma_closest_never_after<V>(m: Map<i64, V>, ts: int)
    ensures
        latest_at_or_before(m, ts) matches Some(k) ==> m.contains_key(k) && k <= ts && forall|
            k2: i64,
        | m.contains_key(k2) && k2 <= ts ==> k2 <= k,
        m =~= Map::<i64, V>::empty() ==> latest_at_or_before(m, ts) is None,
{
}

/// Inserting a point widens the known range of a series to include it:
/// the earliest timestamp becomes the smaller of the old earliest and the
/// new one, the latest the larger; into an empty series, the point is
/// both.
pub proof fn lemma_insert_widens_range<V>(s: Map<i64, V>, k: i64, v: V)
    ensures
        earliest_key(s) matches Some(e) ==> earliest_key(s.insert(k, v)) == Some(
            if e <= k {
                e
            } else {
                k
            },
        ),
        latest_key(s) matches Some(l) ==> latest_key(s.insert(k, v)) == Some(
            if l >= k {
                l
            } else {
                k
            },
        ),
        s =~= Map::<i64, V>::empty() ==> earliest_key(s.insert(k, v)) == Some(k) && latest_key(
            s.insert(k, v),
        ) == Some(k),
{
    let n = s.insert(k, v);
    if let Some(e) = earliest_key(s) {
        let c = if e <= k {
            e
        } else {
            k
        };
        assert(is_earliest(n, c));
        let d = choose|d: i64| is_earliest(n, d);
        assert(d <= c && c <= d);
    }
    if let Some(l) = latest_key(s) {
        let c = if l >= k {
            l
        } else {
            k
        };
        assert(is_latest_at_or_before(n, i64::MAX as int, c));
        let d = choose|d: i64| is_latest_at_or_before(n, i64::MAX as int, d);
        assert(d <= c && c <= d);
    }
    if s =~= Map::<i64, V>::empty() {
        assert(is_earliest(n, k));
        let d = choose|d: i64| is_earliest(n, d);
        assert(d <= k && k <= d);
        assert(is_latest_at_or_before(n, i64::MAX as int, k));
        let d2 = choose|d: i64| is_latest_at_or_before(n, i64::MAX as int, d);
        assert(d2 <= k && k <= d2);
    }
}

/// Writing fetched points under `key` changes no other series and drops
/// no point of that series.
proof fn lemma_insert_days_grows<V>(m: Map<Seq<char>, Map<i64, V>>, key: Seq<char>, pts: Seq<(i64, V)>)
    ensures
        forall|other: Seq<char>| other != key ==> #[trigger] series_of(insert_days(m, key, pts), other) == series_of(m, other),
        forall|t: i64| series_of(m, key).contains_key(t) ==> #[trigger] series_of(insert_days(m, key, pts), key).contains_key(t),
    decreases pts.len(),
{
    if pts.len() > 0 {
        let init = pts.drop_last();
        lemma_insert_days_grows(m, key, init);
        let prev = insert_days(m, key, init);
        assert forall|other: Seq<char>| other != key implies #[trigger] series_of(insert_days(m, key, pts), other)
            == series_of(m, other) by {
            assert(series_of(prev, other) == series_of(m, other));
        }
        assert forall|t: i64| series_of(m, key).contains_key(t) implies #[trigger] series_of(
            insert_days(m, key, pts),
            key,
        ).contains_key(t) by {
            assert(series_of(prev, key).contains_key(t));
        }
    }
}

/// A refresh of the daily cache only adds: every other symbol keeps its
/// series, and the refreshed symbol keeps every day it had (a day that
/// is fetched again gets the new value).
pub proof fn lemma_refresh_only_adds<V, E, F: FnOnce(i64) -> Result<Vec<(i64, V)>, E>>(
    before: Map<Seq<char>, Map<i64, V>>,
    after: Map<Seq<char>, Map<i64, V>>,
    key: Seq<char>,
    days: int,
    now: int,
    fetch: F,
    result: Result<(), E>,
)
    requires
        refresh_outcome(before, after, key, days, now, fetch, result),
    ensures
        forall|other: Seq<char>| other != key ==> #[trigger] series_of(after, other) == series_of(before, other),
        forall|t: i64| series_of(before, key).contains_key(t) ==> #[trigger] series_of(after, key).contains_key(t),
{
    if needs_refresh(series_of(before, key), now, days) && result is Ok {
        let v = choose|v: Vec<(i64, V)>|
            #[trigger] fetch.ensures((refresh_start(now, days) as i64,), Ok(v)) && after == insert_days(before, key, v@);
        lemma_insert_days_grows(before, key, v@);
    }
}

/// Symbols are looked up in upper case: two ASCII symbols that differ
/// only in the case of their letters name the same series in every cache
/// (a point stored under "btc" is read under "BTC" or "Btc").
pub proof fn lemma_ascii_symbols_ignore_case<V>(m: Map<Seq<char>, Map<i64, V>>, a: Seq<char>, b: Seq<char>)
    requires
        is_ascii_text(a),
        is_ascii_text(b),
        ascii_upper(a) == ascii_upper(b),
    ensures
        upper_text(a) == upper_text(b),
        series_of(m, upper_text(a)) == series_of(m, upper_text(b)),
{
}

/// One point per bucket: in a cache whose points are aligned (as every
/// [`ResolutionCache`] is, see [`ResolutionCache::prices`]), two points
/// of a series that fall in the same bucket are the same point.
pub proof fn lemma_one_point_per_bucket<V>(
    m: Map<Seq<char>, Map<i64, V>>,
    resolution: Resolution,
    symbol: Seq<char>,
    t1: i64,
    t2: i64,
)
    requires
        all_aligned(m, resolution),
        m.contains_key(symbol),
        m[symbol].contains_key(t1),
        m[symbol].contains_key(t2),
        resolution.spec_align(t1 as int) == resolution.spec_align(t2 as int),
    ensures
        t1 == t2,
{
}

} // verus!
