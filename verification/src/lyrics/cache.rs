//! A small in-memory cache of lyrics lookups, keyed by the normalised track
//! metadata, with a capacity and a time to live.
//!
//! Times are milliseconds on a monotonic clock chosen by the caller.
use vstd::prelude::*;

use crate::lyrics::lrc::Entry;
use crate::lyrics::matching::{normalize_for_match, normalize_spec, opt_lines};
use crate::lyrics::LyricLine;

verus! {

/// The cache key: normalised title, artist and album, and the duration.
#[derive(Clone, Debug, PartialEq, Eq)]
pub struct LyricsCacheKey {
    pub title: String,
    pub artist: String,
    pub album: String,
    pub duration_ms: u64,
}

/// The model of a cache key.
pub type KeyModel = (Seq<char>, Seq<char>, Seq<char>, u64);

/// The model of a cached lookup: the lyrics found (or `None` when the track
/// has none) and when they were stored.
pub type CachedModel = (Option<Seq<Entry>>, u64);

impl View for LyricsCacheKey {
    type V = KeyModel;

    open spec fn view(&self) -> KeyModel {
        (self.title@, self.artist@, self.album@, self.duration_ms)
    }
}

/// The key of a track: normalised title, artist and album (an absent album
/// counts as empty) and the duration.
pub open spec fn key_for(title: Seq<char>, artist: Seq<char>, album: Option<Seq<char>>, duration_ms: u64) -> KeyModel {
    (
        normalize_spec(title),
        normalize_spec(artist),
        match album {
            Some(a) => normalize_spec(a),
            None => Seq::empty(),
        },
        duration_ms,
    )
}

/// The model of an optional string slice.
pub open spec fn opt_str(o: Option<&str>) -> Option<Seq<char>> {
    match o {
        Some(s) => Some(s@),
        None => None,
    }
}

impl LyricsCacheKey {
    /// The key of a track.
    pub fn new(title: &str, artist: &str, album: Option<&str>, duration_ms: u64) -> (k: Self)
        ensures
            k@ == key_for(title@, artist@, opt_str(album), duration_ms),
            k.duration_ms == duration_ms,
            k.title@ == normalize_spec(title@),
            k.artist@ == normalize_spec(artist@),
            k.album@ == match album {
                Some(a) => normalize_spec(a@),
                None => Seq::<char>::empty(),
            },
    {
        LyricsCacheKey {
            title: normalize_for_match(title),
            artist: normalize_for_match(artist),
            album: match album {
                Some(a) => normalize_for_match(a),
                None => String::new(),
            },
            duration_ms,
        }
    }

    /// Whether two keys are equal.
    pub fn same_as(&self, other: &Self) -> (r: bool)
        ensures
            r == (self@ == other@),
    {
        self.title.eq(&other.title) && self.artist.eq(&other.artist) && self.album.eq(&other.album)
            && self.duration_ms == other.duration_ms
    }
}

struct LyricsCacheEntry {
    key: LyricsCacheKey,
    lyrics: Option<Vec<LyricLine>>,
    cached_at_ms: u64,
}

spec fn entry_key(e: LyricsCacheEntry) -> KeyModel {
    e.key@
}

spec fn entry_model(e: LyricsCacheEntry) -> CachedModel {
    (opt_lines(e.lyrics), e.cached_at_ms)
}

spec fn distinct_keys(s: Seq<LyricsCacheEntry>) -> bool {
    forall|i: int, j: int|
        0 <= i < s.len() && 0 <= j < s.len() && i != j ==> entry_key(#[trigger] s[i]) != entry_key(
            #[trigger] s[j],
        )
}

spec fn has_key(s: Seq<LyricsCacheEntry>, k: KeyModel) -> bool {
    exists|i: int| 0 <= i < s.len() && entry_key(#[trigger] s[i]) == k
}

spec fn entries_map(s: Seq<LyricsCacheEntry>) -> Map<KeyModel, CachedModel> {
    Map::new(
        |k: KeyModel| has_key(s, k),
        |k: KeyModel| entry_model(s[choose|i: int| 0 <= i < s.len() && entry_key(#[trigger] s[i]) == k]),
    )
}

proof fn lemma_entries_map_at(s: Seq<LyricsCacheEntry>, i: int)
    requires
        distinct_keys(s),
        0 <= i < s.len(),
    ensures
        entries_map(s).contains_key(entry_key(s[i])),
        entries_map(s)[entry_key(s[i])] == entry_model(s[i]),
{
    let k = entry_key(s[i]);
    assert(has_key(s, k));
    let j = choose|j: int| 0 <= j < s.len() && entry_key(#[trigger] s[j]) == k;
    assert(j == i);
}

proof fn lemma_entries_map_remove(s: Seq<LyricsCacheEntry>, i: int)
    requires
        distinct_keys(s),
        0 <= i < s.len(),
    ensures
        distinct_keys(s.remove(i)),
        entries_map(s.remove(i)) == entries_map(s).remove(entry_key(s[i])),
{
    let t = s.remove(i);
    let k = entry_key(s[i]);
    assert forall|a: int, b: int| 0 <= a < t.len() && 0 <= b < t.len() && a != b implies entry_key(
        #[trigger] t[a],
    ) != entry_key(#[trigger] t[b]) by {
        let a2 = if a < i {
            a
        } else {
            a + 1
        };
        let b2 = if b < i {
            b
        } else {
            b + 1
        };
        assert(t[a] == s[a2] && t[b] == s[b2]);
    }
    assert forall|kk: KeyModel| #[trigger] has_key(t, kk) <==> has_key(s, kk) && kk != k by {
        if has_key(t, kk) {
            let a = choose|a: int| 0 <= a < t.len() && entry_key(#[trigger] t[a]) == kk;
            let a2 = if a < i {
                a
            } else {
                a + 1
            };
            assert(t[a] == s[a2]);
        }
        if has_key(s, kk) && kk != k {
            let a = choose|a: int| 0 <= a < s.len() && entry_key(#[trigger] s[a]) == kk;
            assert(a != i);
            let a2 = if a < i {
                a
            } else {
                a - 1
            };
            assert(t[a2] == s[a]);
        }
    }
    assert forall|kk: KeyModel| #[trigger] entries_map(t).contains_key(kk) implies entries_map(t)[kk]
        == entries_map(s)[kk] by {
        let a = choose|a: int| 0 <= a < t.len() && entry_key(#[trigger] t[a]) == kk;
        lemma_entries_map_at(t, a);
        let a2 = if a < i {
            a
        } else {
            a + 1
        };
        assert(t[a] == s[a2]);
        lemma_entries_map_at(s, a2);
    }
    assert(entries_map(t) =~= entries_map(s).remove(k));
}

proof fn lemma_entries_map_push(s: Seq<LyricsCacheEntry>, e: LyricsCacheEntry)
    requires
        distinct_keys(s),
        !has_key(s, entry_key(e)),
    ensures
        distinct_keys(s.push(e)),
        entries_map(s.push(e)) == entries_map(s).insert(entry_key(e), entry_model(e)),
{
    let t = s.push(e);
    let k = entry_key(e);
    assert forall|a: int, b: int| 0 <= a < t.len() && 0 <= b < t.len() && a != b implies entry_key(
        #[trigger] t[a],
    ) != entry_key(#[trigger] t[b]) by {
        if a == s.len() {
            assert(t[b] == s[b]);
        } else if b == s.len() {
            assert(t[a] == s[a]);
        } else {
            assert(t[a] == s[a] && t[b] == s[b]);
        }
    }
    assert forall|kk: KeyModel| #[trigger] has_key(t, kk) <==> has_key(s, kk) || kk == k by {
        if has_key(t, kk) {
            let a = choose|a: int| 0 <= a < t.len() && entry_key(#[trigger] t[a]) == kk;
            if a < s.len() {
                assert(t[a] == s[a]);
            }
        }
        if has_key(s, kk) {
            let a = choose|a: int| 0 <= a < s.len() && entry_key(#[trigger] s[a]) == kk;
            assert(t[a] == s[a]);
        }
        if kk == k {
            assert(t[s.len() as int] == e);
        }
    }
    assert forall|kk: KeyModel| #[trigger] entries_map(t).contains_key(kk) implies entries_map(t)[kk]
        == entries_map(s).insert(k, entry_model(e))[kk] by {
        let a = choose|a: int| 0 <= a < t.len() && entry_key(#[trigger] t[a]) == kk;
        lemma_entries_map_at(t, a);
        if a < s.len() {
            assert(t[a] == s[a]);
            lemma_entries_map_at(s, a);
        }
    }
    assert(entries_map(t) =~= entries_map(s).insert(k, entry_model(e)));
}

/// The lyrics cache.
pub struct LyricsCache {
    capacity: usize,
    ttl_ms: u64,
    entries: Vec<LyricsCacheEntry>,
}

/// How long ago `at` was at time `now` (zero when `at` is later).
pub open spec fn age(at: u64, now: u64) -> int {
    if now >= at {
        now - at
    } else {
        0
    }
}

/// Whether an entry stored at `at` has outlived `ttl_ms` at `now`.
pub open spec fn expired(at: u64, now: u64, ttl_ms: u64) -> bool {
    age(at, now) >= ttl_ms
}

/// Whether `k` is an entry stored no later than any other.
pub open spec fn is_oldest(m: Map<KeyModel, CachedModel>, k: KeyModel) -> bool {
    &&& m.contains_key(k)
    &&& forall|k2: KeyModel| #[trigger] m.contains_key(k2) ==> m[k].1 <= m[k2].1
}

/// What a lookup answers: the cached lyrics of a live entry.
pub open spec fn lookup(m: Map<KeyModel, CachedModel>, key: KeyModel, now_ms: u64, ttl_ms: u64) -> Option<Option<Seq<Entry>>> {
    if m.contains_key(key) && !expired(m[key].1, now_ms, ttl_ms) {
        Some(m[key].0)
    } else {
        None
    }
}

/// The cache after a lookup: an expired entry for the key is dropped.
pub open spec fn after_lookup(m: Map<KeyModel, CachedModel>, key: KeyModel, now_ms: u64, ttl_ms: u64) -> Map<KeyModel, CachedModel> {
    if m.contains_key(key) && expired(m[key].1, now_ms, ttl_ms) {
        m.remove(key)
    } else {
        m
    }
}

/// The cache after storing `value` for `key`: nothing changes without
/// capacity; an existing key or a cache with room takes the value; a full
/// cache first evicts an oldest entry.
pub open spec fn insert_outcome(
    before: Map<KeyModel, CachedModel>,
    size: nat,
    capacity: nat,
    key: KeyModel,
    value: CachedModel,
    after: Map<KeyModel, CachedModel>,
) -> bool {
    if capacity == 0 {
        after == before
    } else if before.contains_key(key) || size < capacity {
        after == before.insert(key, value)
    } else {
        exists|k0: KeyModel| #[trigger] is_oldest(before, k0) && after == before.remove(k0).insert(key, value)
    }
}

/// The model of a lookup answer.
pub open spec fn opt_opt_lines(o: Option<Option<Vec<LyricLine>>>) -> Option<Option<Seq<Entry>>> {
    match o {
        Some(x) => Some(opt_lines(x)),
        None => None,
    }
}

/// The key of a track carries its normalised metadata and its duration, so
/// that cuts of different lengths never share a key.
pub proof fn cache_keys_keep_durations_apart(
    title: Seq<char>,
    artist: Seq<char>,
    album: Option<Seq<char>>,
    d1: u64,
    d2: u64,
)
    ensures
        key_for(title, artist, album, d1).3 == d1,
        key_for(title, artist, album, d1).0 == normalize_spec(title),
        key_for(title, artist, album, d1).1 == normalize_spec(artist),
        d1 != d2 ==> key_for(title, artist, album, d1) != key_for(title, artist, album, d2),
{
}

/// Storing the lyrics of one cut of a track does not answer a lookup of a
/// cut with another duration that the cache did not hold before.
pub proof fn other_durations_are_not_served(
    before: Map<KeyModel, CachedModel>,
    size: nat,
    capacity: nat,
    title: Seq<char>,
    artist: Seq<char>,
    album: Option<Seq<char>>,
    stored_ms: u64,
    asked_ms: u64,
    value: CachedModel,
    after: Map<KeyModel, CachedModel>,
    now_ms: u64,
    ttl_ms: u64,
)
    requires
        insert_outcome(before, size, capacity, key_for(title, artist, album, stored_ms), value, after),
        stored_ms != asked_ms,
        !before.contains_key(key_for(title, artist, album, asked_ms)),
    ensures
        lookup(after, key_for(title, artist, album, asked_ms), now_ms, ttl_ms) is None,
{
    let k1 = key_for(title, artist, album, stored_ms);
    let k2 = key_for(title, artist, album, asked_ms);
    assert(k1 != k2);
    if capacity != 0 && !(before.contains_key(k1) || size < capacity) {
        let k0 = choose|k0: KeyModel| #[trigger] is_oldest(before, k0) && after == before.remove(k0).insert(k1, value);
        assert(!after.contains_key(k2));
    }
}

/// A stored value is read back until it expires, whatever the store
/// evicted to make room for it.
pub proof fn lemma_cache_read_after_write(
    before: Map<KeyModel, CachedModel>,
    size: nat,
    capacity: nat,
    key: KeyModel,
    value: CachedModel,
    after: Map<KeyModel, CachedModel>,
    now_ms: u64,
    ttl_ms: u64,
)
    requires
        insert_outcome(before, size, capacity, key, value, after),
        capacity > 0,
        !expired(value.1, now_ms, ttl_ms),
    ensures
        lookup(after, key, now_ms, ttl_ms) == Some(value.0),
        after_lookup(after, key, now_ms, ttl_ms) == after,
{
    if !(before.contains_key(key) || size < capacity) {
        let k0 = choose|k0: KeyModel| #[trigger] is_oldest(before, k0) && after == before.remove(k0).insert(key, value);
        assert(after.contains_key(key) && after[key] == value);
    }
}

/// A stored value is gone once it has expired: the lookup misses and drops
/// it.
pub proof fn lemma_cache_expiry(
    before: Map<KeyModel, CachedModel>,
    size: nat,
    capacity: nat,
    key: KeyModel,
    value: CachedModel,
    after: Map<KeyModel, CachedModel>,
    now_ms: u64,
    ttl_ms: u64,
)
    requires
        insert_outcome(before, size, capacity, key, value, after),
        capacity > 0,
        expired(value.1, now_ms, ttl_ms),
    ensures
        lookup(after, key, now_ms, ttl_ms) is None,
        after_lookup(after, key, now_ms, ttl_ms) == after.remove(key),
{
    if !(before.contains_key(key) || size < capacity) {
        let k0 = choose|k0: KeyModel| #[trigger] is_oldest(before, k0) && after == before.remove(k0).insert(key, value);
        assert(after.contains_key(key) && after[key] == value);
    }
}

impl View for LyricsCache {
    type V = Map<KeyModel, CachedModel>;

    closed spec fn view(&self) -> Map<KeyModel, CachedModel> {
        entries_map(self.entries@)
    }
}

/// A copy of a list of lyric lines.
pub fn copy_lines(v: &Vec<LyricLine>) -> (r: Vec<LyricLine>)
    ensures
        r@ == v@,
{
    let mut r: Vec<LyricLine> = Vec::new();
    let mut i: usize = 0;
    while i < v.len()
        invariant
            i <= v@.len(),
            r@ == v@.take(i as int),
        decreases v@.len() - i,
    {
        let l = LyricLine { timestamp_ms: v[i].timestamp_ms, text: v[i].text.clone() };
        assert(l == v@[i as int]);
        r.push(l);
        assert(r@ =~= v@.take(i + 1));
        i = i + 1;
    }
    assert(v@.take(i as int) =~= v@);
    r
}

impl LyricsCache {
    /// The cache's internal consistency: keys are distinct and the number of
    /// entries is within the capacity.
    pub closed spec fn wf(&self) -> bool {
        &&& distinct_keys(self.entries@)
        &&& self.entries@.len() <= self.capacity
    }

    /// How many entries the cache holds.
    pub closed spec fn size(&self) -> nat {
        self.entries@.len()
    }

    /// The most entries the cache holds.
    pub closed spec fn capacity(&self) -> nat {
        self.capacity as nat
    }

    /// How long an entry stays valid, in milliseconds.
    pub closed spec fn ttl(&self) -> u64 {
        self.ttl_ms
    }

    /// The cache holds at most its capacity, and as many entries as keys.
    pub proof fn lemma_size(&self)
        requires
            self.wf(),
        ensures
            self.size() <= self.capacity(),
            self@.dom().finite(),
            self@.dom().len() == self.size(),
    {
        lemma_entries_map_size(self.entries@);
    }

    /// An empty cache.
    pub fn new(capacity: usize, ttl_ms: u64) -> (c: Self)
        ensures
            c.wf(),
            c@ == Map::<KeyModel, CachedModel>::empty(),
            c.capacity() == capacity,
            c.ttl() == ttl_ms,
    {
        let c = LyricsCache { capacity, ttl_ms, entries: Vec::new() };
        assert(entries_map(c.entries@) =~= Map::<KeyModel, CachedModel>::empty());
        c
    }

    fn find(&self, key: &LyricsCacheKey) -> (r: Option<usize>)
        ensures
            match r {
                Some(i) => i < self.entries@.len() && entry_key(self.entries@[i as int]) == key@,
                None => !has_key(self.entries@, key@),
            },
    {
        let mut i: usize = 0;
        while i < self.entries.len()
            invariant
                i <= self.entries@.len(),
                forall|j: int| 0 <= j < i ==> entry_key(#[trigger] self.entries@[j]) != key@,
            decreases self.entries@.len() - i,
        {
            if self.entries[i].key.same_as(key) {
                return Some(i);
            }
            i = i + 1;
        }
        None
    }

    /// Looks `key` up at time `now`.  An entry that has outlived the time to
    /// live is dropped and counts as absent; otherwise a copy of the cached
    /// lyrics (`Some(None)` for a track known to have none) is returned.
    pub fn get(&mut self, key: &LyricsCacheKey, now_ms: u64) -> (r: Option<Option<Vec<LyricLine>>>)
        requires
            old(self).wf(),
        ensures
            final(self).wf(),
            final(self).capacity() == old(self).capacity(),
            final(self).ttl() == old(self).ttl(),
            opt_opt_lines(r) == lookup(old(self)@, key@, now_ms, old(self).ttl()),
            final(self)@ == after_lookup(old(self)@, key@, now_ms, old(self).ttl()),
    {
        match self.find(key) {
            None => {
                assert(!entries_map(self.entries@).contains_key(key@));
                None
            },
            Some(i) => {
                proof {
                    lemma_entries_map_at(self.entries@, i as int);
                }
                let at = self.entries[i].cached_at_ms;
                let age = if now_ms >= at {
                    now_ms - at
                } else {
                    0
                };
                if age >= self.ttl_ms {
                    proof {
                        lemma_entries_map_remove(self.entries@, i as int);
                    }
                    let _ = self.entries.remove(i);
                    None
                } else {
                    let found = match &self.entries[i].lyrics {
                        None => None,
                        Some(lines) => Some(copy_lines(lines)),
                    };
                    Some(found)
                }
            },
        }
    }

    /// Stores `lyrics` for `key` at time `now`, replacing an entry with the
    /// same key.  When a new key arrives at a full cache, an oldest entry is
    /// evicted first.  A cache of capacity zero stores nothing.
    pub fn insert(&mut self, key: LyricsCacheKey, lyrics: Option<Vec<LyricLine>>, now_ms: u64)
        requires
            old(self).wf(),
        ensures
            final(self).wf(),
            final(self).capacity() == old(self).capacity(),
            final(self).ttl() == old(self).ttl(),
            insert_outcome(
                old(self)@,
                old(self).size(),
                old(self).capacity(),
                key@,
                (opt_lines(lyrics), now_ms),
                final(self)@,
            ),
    {
        if self.capacity == 0 {
            return;
        }
        let ghost m0 = self@;
        let found = self.find(&key);
        let ghost k = key@;
        let e = LyricsCacheEntry { key, lyrics, cached_at_ms: now_ms };
        assert(entry_key(e) == k);
        assert(entry_model(e) == (opt_lines(lyrics), now_ms));
        match found {
            Some(i) => {
                proof {
                    lemma_entries_map_remove(self.entries@, i as int);
                }
                let _ = self.entries.remove(i);
                proof {
                    assert(!has_key(self.entries@, k)) by {
                        if has_key(self.entries@, k) {
                            let j = choose|j: int| 0 <= j < self.entries@.len() && entry_key(#[trigger] self.entries@[j]) == k;
                            assert(entries_map(self.entries@).contains_key(k));
                        }
                    }
                    lemma_entries_map_push(self.entries@, e);
                }
                self.entries.push(e);
                assert(self@ =~= m0.insert(k, (opt_lines(lyrics), now_ms)));
            },
            None => {
                if self.entries.len() >= self.capacity {
                    // Evict the first of the oldest entries.
                    let mut oldest: usize = 0;
                    let mut j: usize = 1;
                    while j < self.entries.len()
                        invariant
                            1 <= j <= self.entries@.len(),
                            oldest < j,
                            forall|t: int| 0 <= t < j ==> self.entries@[oldest as int].cached_at_ms <= (
                            #[trigger] self.entries@[t]).cached_at_ms,
                        decreases self.entries@.len() - j,
                    {
                        if self.entries[j].cached_at_ms < self.entries[oldest].cached_at_ms {
                            oldest = j;
                        }
                        j = j + 1;
                    }
                    let ghost k0 = entry_key(self.entries@[oldest as int]);
                    proof {
                        lemma_entries_map_at(self.entries@, oldest as int);
                        assert forall|k2: KeyModel| #[trigger] m0.contains_key(k2) implies m0[k0].1
                            <= m0[k2].1 by {
                            let t = choose|t: int| 0 <= t < self.entries@.len() && entry_key(#[trigger] self.entries@[t]) == k2;
                            lemma_entries_map_at(self.entries@, t);
                        }
                        assert(is_oldest(m0, k0));
                        lemma_entries_map_remove(self.entries@, oldest as int);
                    }
                    let _ = self.entries.remove(oldest);
                    proof {
                        assert(!has_key(self.entries@, k)) by {
                            if has_key(self.entries@, k) {
                                assert(entries_map(self.entries@).contains_key(k));
                            }
                        }
                        lemma_entries_map_push(self.entries@, e);
                    }
                    self.entries.push(e);
                    assert(self@ =~= m0.remove(k0).insert(k, (opt_lines(lyrics), now_ms)));
                } else {
                    proof {
                        lemma_entries_map_push(self.entries@, e);
                    }
                    self.entries.push(e);
                }
            },
        }
    }
}

/// The first step of a cached lookup: the key of the track and, on a cache
/// hit, the cached lyrics (`Some(None)` for a track known to have none), in
/// which case the provider is not asked.
pub fn begin_cached_lookup(
    cache: &mut LyricsCache,
    title: &str,
    artist: &str,
    album: Option<&str>,
    duration_ms: u64,
    now_ms: u64,
) -> (r: (LyricsCacheKey, Option<Option<Vec<LyricLine>>>))
    requires
        old(cache).wf(),
    ensures
        final(cache).wf(),
        final(cache).capacity() == old(cache).capacity(),
        final(cache).ttl() == old(cache).ttl(),
        r.0@ == key_for(title@, artist@, opt_str(album), duration_ms),
        r.0.duration_ms == duration_ms,
        opt_opt_lines(r.1) == lookup(old(cache)@, r.0@, now_ms, old(cache).ttl()),
        final(cache)@ == after_lookup(old(cache)@, r.0@, now_ms, old(cache).ttl()),
{
    let key = LyricsCacheKey::new(title, artist, album, duration_ms);
    let hit = cache.get(&key, now_ms);
    (key, hit)
}

/// The last step of a cached lookup: the provider's answer is returned as
/// it is, and cached when it is lyrics or the fact that the track has none;
/// a failure caches nothing.
pub fn finish_cached_lookup<E>(
    cache: &mut LyricsCache,
    key: LyricsCacheKey,
    result: Result<Option<Vec<LyricLine>>, E>,
    now_ms: u64,
) -> (r: Result<Option<Vec<LyricLine>>, E>)
    requires
        old(cache).wf(),
    ensures
        r == result,
        final(cache).wf(),
        final(cache).capacity() == old(cache).capacity(),
        final(cache).ttl() == old(cache).ttl(),
        match result {
            Ok(lyrics) => insert_outcome(
                old(cache)@,
                old(cache).size(),
                old(cache).capacity(),
                key@,
                (opt_lines(lyrics), now_ms),
                final(cache)@,
            ),
            Err(_) => final(cache)@ == old(cache)@ && final(cache).size() == old(cache).size(),
        },
{
    match &result {
        Ok(lyrics) => {
            let stored = match lyrics {
                Some(lines) => Some(copy_lines(lines)),
                None => None,
            };
            cache.insert(key, stored, now_ms);
        },
        Err(_) => {},
    }
    result
}

proof fn lemma_entries_map_size(s: Seq<LyricsCacheEntry>)
    requires
        distinct_keys(s),
    ensures
        entries_map(s).dom().finite(),
        entries_map(s).dom().len() == s.len(),
    decreases s.len(),
{
    if s.len() == 0 {
        assert(entries_map(s).dom() =~= Set::<KeyModel>::empty());
    } else {
        let t = s.drop_last();
        let e = s.last();
        assert(t.push(e) =~= s);
        assert(distinct_keys(t)) by {
            assert forall|a: int, b: int| 0 <= a < t.len() && 0 <= b < t.len() && a != b implies entry_key(
                #[trigger] t[a],
            ) != entry_key(#[trigger] t[b]) by {
                assert(t[a] == s[a] && t[b] == s[b]);
            }
        }
        assert(!has_key(t, entry_key(e))) by {
            if has_key(t, entry_key(e)) {
                let a = choose|a: int| 0 <= a < t.len() && entry_key(#[trigger] t[a]) == entry_key(e);
                assert(t[a] == s[a]);
                assert(s[s.len() - 1] == e);
            }
        }
        lemma_entries_map_size(t);
        lemma_entries_map_push(t, e);
        assert(!entries_map(t).dom().contains(entry_key(e)));
    }
}

} // verus!
