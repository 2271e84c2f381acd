//! The persistent memoization cache: at most one live entry per content key,
//! a time-to-live window, a ceiling on the number of entries, and hit/miss
//! counters.
//!
//! The store is held here as plain values; making it durable is the host's
//! part. Every mutating operation says exactly what it changed, so the host
//! can mirror it.
use vstd::prelude::*;
use crate::digest::{content_hash, content_key};

verus! {

/// Entries older than this many seconds are not served (24 hours).
pub const CACHE_TTL_SECS: i64 = 86400;

/// The most entries kept once pruning has run.
pub const MAX_CACHE_ENTRIES: usize = 50000;

/// One stored result.
pub struct CachedNeutralization {
    pub content_hash: String,
    pub original: String,
    pub neutralized: String,
    pub techniques: Vec<String>,
    pub severity: i32,
    pub created_at: i64,
    pub hit_count: i64,
}

/// A stored result as mathematical values.
pub struct NeutralizationView {
    pub content_hash: Seq<char>,
    pub original: Seq<char>,
    pub neutralized: Seq<char>,
    pub techniques: Seq<Seq<char>>,
    pub severity: int,
    pub created_at: int,
    pub hit_count: int,
}

pub open spec fn labels_view(v: Seq<String>) -> Seq<Seq<char>> {
    v.map_values(|t: String| t@)
}

impl View for CachedNeutralization {
    type V = NeutralizationView;

    open spec fn view(&self) -> NeutralizationView {
        NeutralizationView {
            content_hash: self.content_hash@,
            original: self.original@,
            neutralized: self.neutralized@,
            techniques: labels_view(self.techniques@),
            severity: self.severity as int,
            created_at: self.created_at as int,
            hit_count: self.hit_count as int,
        }
    }
}

pub open spec fn opt_view(o: Option<CachedNeutralization>) -> Option<NeutralizationView> {
    match o {
        Some(e) => Some(e@),
        None => None,
    }
}

/// Counters and size of the cache.
pub struct CacheStats {
    pub total_entries: i64,
    pub cache_hits: i64,
    pub cache_misses: i64,
}

/// The whole cache as mathematical values.
pub struct CacheModel {
    pub entries: Seq<NeutralizationView>,
    pub hits: int,
    pub misses: int,
    pub ttl: int,
    pub max_entries: int,
}

/// Served by a lookup at time `now`.
pub open spec fn entry_is_live(e: NeutralizationView, now: int, ttl: int) -> bool {
    e.created_at > now - ttl
}

/// Removed by pruning at time `now`.
pub open spec fn entry_is_expired(e: NeutralizationView, now: int, ttl: int) -> bool {
    e.created_at < now - ttl
}

/// Keys are unique and each is the content key of the entry's original text.
pub open spec fn keys_ok(s: Seq<NeutralizationView>) -> bool {
    &&& forall|i: int, j: int|
        0 <= i < s.len() && 0 <= j < s.len() && i != j ==> s[i].content_hash != s[j].content_hash
    &&& forall|i: int| 0 <= i < s.len() ==> s[i].content_hash == content_key(#[trigger] s[i].original)
}

pub open spec fn i64_range(x: int) -> bool {
    i64::MIN <= x <= i64::MAX
}

pub open spec fn cache_wf(m: CacheModel) -> bool {
    store_ok(m) && m.entries.len() <= i64::MAX
}

/// Everything that well-formedness asks but the bound on the number of entries.
pub open spec fn store_ok(m: CacheModel) -> bool {
    &&& keys_ok(m.entries)
    &&& 0 <= m.max_entries <= i64::MAX
    &&& i64_range(m.hits)
    &&& i64_range(m.misses)
    &&& i64_range(m.ttl)
    &&& forall|i: int| 0 <= i < m.entries.len() ==> entry_in_range(#[trigger] m.entries[i])
}

pub open spec fn entry_in_range(e: NeutralizationView) -> bool {
    &&& i64_range(e.created_at)
    &&& i64_range(e.hit_count)
    &&& i32::MIN <= e.severity <= i32::MAX
}

/// One more, unless the counter is already at its largest value.
pub open spec fn sat_inc(x: int) -> int {
    if x < i64::MAX {
        x + 1
    } else {
        x
    }
}

pub open spec fn has_key(s: Seq<NeutralizationView>, key: Seq<char>) -> bool {
    exists|i: int| 0 <= i < s.len() && s[i].content_hash == key
}

pub open spec fn key_pos(s: Seq<NeutralizationView>, key: Seq<char>) -> int {
    choose|i: int| 0 <= i < s.len() && s[i].content_hash == key
}

pub open spec fn has_live(s: Seq<NeutralizationView>, key: Seq<char>, now: int, ttl: int) -> bool {
    has_key(s, key) && entry_is_live(s[key_pos(s, key)], now, ttl)
}

pub open spec fn bumped(e: NeutralizationView) -> NeutralizationView {
    NeutralizationView { hit_count: sat_inc(e.hit_count), ..e }
}

/// A lookup of `key` at time `now`: the cache afterwards and what is returned.
pub open spec fn lookup(m: CacheModel, key: Seq<char>, now: int) -> (CacheModel, Option<NeutralizationView>) {
    if has_live(m.entries, key, now, m.ttl) {
        let i = key_pos(m.entries, key);
        (
            CacheModel { entries: m.entries.update(i, bumped(m.entries[i])), hits: sat_inc(m.hits), ..m },
            Some(m.entries[i]),
        )
    } else {
        (CacheModel { misses: sat_inc(m.misses), ..m }, None)
    }
}

/// The entry that `set` stores.
pub open spec fn fresh_entry(
    original: Seq<char>,
    neutralized: Seq<char>,
    techniques: Seq<Seq<char>>,
    severity: int,
    now: int,
) -> NeutralizationView {
    NeutralizationView {
        content_hash: content_key(original),
        original,
        neutralized,
        techniques,
        severity,
        created_at: now,
        hit_count: 0,
    }
}

/// Replaces the entry with `e`'s key, if any, and appends `e`.
pub open spec fn upsert(s: Seq<NeutralizationView>, e: NeutralizationView) -> Seq<NeutralizationView> {
    if has_key(s, e.content_hash) {
        s.remove(key_pos(s, e.content_hash)).push(e)
    } else {
        s.push(e)
    }
}

/// The entries that survive the age cut, in order.
pub open spec fn unexpired(s: Seq<NeutralizationView>, now: int, ttl: int) -> Seq<NeutralizationView>
    decreases s.len(),
{
    if s.len() == 0 {
        s
    } else {
        let r = unexpired(s.drop_last(), now, ttl);
        if entry_is_expired(s.last(), now, ttl) {
            r
        } else {
            r.push(s.last())
        }
    }
}

/// The entries removed by the age cut, in order.
pub open spec fn expired(s: Seq<NeutralizationView>, now: int, ttl: int) -> Seq<NeutralizationView>
    decreases s.len(),
{
    if s.len() == 0 {
        s
    } else {
        let r = expired(s.drop_last(), now, ttl);
        if entry_is_expired(s.last(), now, ttl) {
            r.push(s.last())
        } else {
            r
        }
    }
}

/// `a` goes before `b` when the store is over its ceiling: fewer uses first,
/// then the older one.
pub open spec fn precedes(a: NeutralizationView, b: NeutralizationView) -> bool {
    a.hit_count < b.hit_count || (a.hit_count == b.hit_count && a.created_at < b.created_at)
}

/// Position `i` holds the first entry that no other entry precedes.
pub open spec fn is_victim(s: Seq<NeutralizationView>, i: int) -> bool {
    &&& 0 <= i < s.len()
    &&& forall|j: int| 0 <= j < i ==> precedes(s[i], #[trigger] s[j])
    &&& forall|j: int| i < j < s.len() ==> !precedes(#[trigger] s[j], s[i])
}

pub open spec fn victim_pos(s: Seq<NeutralizationView>) -> int {
    choose|i: int| is_victim(s, i)
}

/// What is left after `n` evictions.
pub open spec fn evict(s: Seq<NeutralizationView>, n: nat) -> Seq<NeutralizationView>
    decreases n,
{
    if n == 0 || s.len() == 0 {
        s
    } else {
        evict(s.remove(victim_pos(s)), (n - 1) as nat)
    }
}

/// The entries taken by `n` evictions, in the order they go.
pub open spec fn evicted(s: Seq<NeutralizationView>, n: nat) -> Seq<NeutralizationView>
    decreases n,
{
    if n == 0 || s.len() == 0 {
        Seq::empty()
    } else {
        seq![s[victim_pos(s)]] + evicted(s.remove(victim_pos(s)), (n - 1) as nat)
    }
}

pub open spec fn excess(len: int, max: int) -> nat {
    if len > max {
        (len - max) as nat
    } else {
        0
    }
}

/// The entries kept by pruning at time `now`.
pub open spec fn pruned(s: Seq<NeutralizationView>, now: int, ttl: int, max: int) -> Seq<NeutralizationView> {
    let u = unexpired(s, now, ttl);
    evict(u, excess(u.len() as int, max))
}

/// The entries removed by pruning at time `now`, in the order they go.
pub open spec fn pruned_out(s: Seq<NeutralizationView>, now: int, ttl: int, max: int) -> Seq<NeutralizationView> {
    let u = unexpired(s, now, ttl);
    expired(s, now, ttl) + evicted(u, excess(u.len() as int, max))
}

pub open spec fn keys_of(s: Seq<NeutralizationView>) -> Seq<Seq<char>> {
    s.map_values(|e: NeutralizationView| e.content_hash)
}

/// A `set` at time `now`: the cache afterwards and the keys that pruning removed.
pub open spec fn store(
    m: CacheModel,
    original: Seq<char>,
    neutralized: Seq<char>,
    techniques: Seq<Seq<char>>,
    severity: int,
    now: int,
) -> (CacheModel, Seq<Seq<char>>) {
    let s = upsert(m.entries, fresh_entry(original, neutralized, techniques, severity, now));
    (
        CacheModel { entries: pruned(s, now, m.ttl, m.max_entries), ..m },
        keys_of(pruned_out(s, now, m.ttl, m.max_entries)),
    )
}

pub proof fn lemma_keys_ok_remove(s: Seq<NeutralizationView>, i: int)
    requires
        keys_ok(s),
        0 <= i < s.len(),
    ensures
        keys_ok(s.remove(i)),
{
    s.remove_ensures(i);
    let r = s.remove(i);
    assert forall|a: int, b: int| 0 <= a < r.len() && 0 <= b < r.len() && a != b implies r[a].content_hash
        != r[b].content_hash by {
        let a2 = if a < i { a } else { a + 1 };
        let b2 = if b < i { b } else { b + 1 };
        assert(r[a] == s[a2] && r[b] == s[b2]);
    }
    assert forall|a: int| 0 <= a < r.len() implies r[a].content_hash == content_key(#[trigger] r[a].original) by {
        let a2 = if a < i { a } else { a + 1 };
        assert(r[a] == s[a2]);
    }
}

pub proof fn lemma_victim_unique(s: Seq<NeutralizationView>, i: int, j: int)
    requires
        is_victim(s, i),
        is_victim(s, j),
    ensures
        i == j,
{
    if i < j {
        assert(precedes(s[j], s[i]));
    } else if j < i {
        assert(precedes(s[i], s[j]));
    }
}

pub proof fn lemma_victim_exists(s: Seq<NeutralizationView>)
    requires
        s.len() > 0,
    ensures
        is_victim(s, victim_pos(s)),
    decreases s.len(),
{
    if s.len() == 1 {
        assert(is_victim(s, 0));
    } else {
        let t = s.drop_last();
        lemma_victim_exists(t);
        let v = victim_pos(t);
        let l = s.len() - 1;
        if precedes(s[l], s[v]) {
            assert forall|j: int| 0 <= j < l implies precedes(s[l], #[trigger] s[j]) by {
                assert(t[j] == s[j]);
                if j > v {
                    assert(!precedes(t[j], t[v]));
                } else if j < v {
                    assert(precedes(t[v], t[j]));
                }
            }
            assert(is_victim(s, l));
        } else {
            assert forall|j: int| 0 <= j < v implies precedes(s[v], #[trigger] s[j]) by {
                assert(t[j] == s[j]);
            }
            assert forall|j: int| v < j < s.len() implies !precedes(#[trigger] s[j], s[v]) by {
                if j < l {
                    assert(t[j] == s[j]);
                }
            }
            assert(is_victim(s, v));
        }
    }
}

pub proof fn lemma_key_pos_unique(s: Seq<NeutralizationView>, key: Seq<char>, i: int)
    requires
        keys_ok(s),
        0 <= i < s.len(),
        s[i].content_hash == key,
    ensures
        has_key(s, key),
        key_pos(s, key) == i,
{
    assert(has_key(s, key));
}

fn copy_labels(v: &[String]) -> (r: Vec<String>)
    ensures
        labels_view(r@) == labels_view(v@),
{
    let mut r: Vec<String> = Vec::new();
    let mut i: usize = 0;
    while i < v.len()
        invariant
            i <= v@.len(),
            r@.len() == i,
            forall|j: int| 0 <= j < i ==> (#[trigger] r@[j])@ == v@[j]@,
        decreases v@.len() - i,
    {
        let c = v[i].clone();
        r.push(c);
        i += 1;
    }
    assert(labels_view(r@) =~= labels_view(v@));
    r
}

fn duplicate(e: &CachedNeutralization) -> (r: CachedNeutralization)
    ensures
        r@ == e@,
{
    CachedNeutralization {
        content_hash: e.content_hash.clone(),
        original: e.original.clone(),
        neutralized: e.neutralized.clone(),
        techniques: copy_labels(e.techniques.as_slice()),
        severity: e.severity,
        created_at: e.created_at,
        hit_count: e.hit_count,
    }
}

/// The durable cache of computed results.
pub struct NeutralizationCache {
    entries: Vec<CachedNeutralization>,
    hits: i64,
    misses: i64,
    ttl_secs: i64,
    max_entries: usize,
}

impl View for NeutralizationCache {
    type V = CacheModel;

    closed spec fn view(&self) -> CacheModel {
        CacheModel {
            entries: self.entries@.map_values(|e: CachedNeutralization| e@),
            hits: self.hits as int,
            misses: self.misses as int,
            ttl: self.ttl_secs as int,
            max_entries: self.max_entries as int,
        }
    }
}

impl NeutralizationCache {
    pub open spec fn wf(&self) -> bool {
        cache_wf(self@)
    }

    /// An empty store with the standard limits and the hit/miss tally
    /// persisted by an earlier run.
    pub fn new(stored_hits: i64, stored_misses: i64) -> (r: Self)
        ensures
            r.wf(),
            r@ == (CacheModel {
                entries: Seq::empty(),
                hits: stored_hits as int,
                misses: stored_misses as int,
                ttl: CACHE_TTL_SECS as int,
                max_entries: MAX_CACHE_ENTRIES as int,
            }),
    {
        Self::with_limits(CACHE_TTL_SECS, MAX_CACHE_ENTRIES, stored_hits, stored_misses)
    }

    /// An empty store with the given time-to-live (seconds) and entry ceiling.
    pub fn with_limits(ttl_secs: i64, max_entries: usize, stored_hits: i64, stored_misses: i64) -> (r: Self)
        requires
            max_entries <= i64::MAX,
        ensures
            r.wf(),
            r@ == (CacheModel {
                entries: Seq::empty(),
                hits: stored_hits as int,
                misses: stored_misses as int,
                ttl: ttl_secs as int,
                max_entries: max_entries as int,
            }),
    {
        let r = NeutralizationCache {
            entries: Vec::new(),
            hits: stored_hits,
            misses: stored_misses,
            ttl_secs,
            max_entries,
        };
        assert(r@.entries =~= Seq::<NeutralizationView>::empty());
        r
    }

    /// The key under which a result for `content` is stored.
    pub fn hash_content(content: &str) -> (r: String)
        ensures
            r@ == content_key(content@),
            r@.len() == 64,
    {
        content_hash(content)
    }

    proof fn lemma_view_index(&self, i: int)
        requires
            0 <= i < self.entries@.len(),
        ensures
            self@.entries[i] == self.entries@[i]@,
            self@.entries.len() == self.entries@.len(),
    {
    }

    /// Looks up the live entry for `original` at time `now` (seconds).
    /// A hit returns the entry as it was and then counts one more use of it.
    pub fn get(&mut self, original: &str, now: i64) -> (r: Option<CachedNeutralization>)
        requires
            old(self).wf(),
        ensures
            final(self).wf(),
            final(self)@ == lookup(old(self)@, content_key(original@), now as int).0,
            opt_view(r) == lookup(old(self)@, content_key(original@), now as int).1,
    {
        let key = content_hash(original);
        let ghost m = self@;
        let n = self.entries.len();
        let mut i: usize = 0;
        while i < n
            invariant
                self@ == m,
                m == old(self)@,
                key@ == content_key(original@),
                n == self.entries@.len(),
                cache_wf(m),
                i <= n,
                forall|j: int| 0 <= j < i ==> (#[trigger] m.entries[j]).content_hash != key@,
            decreases n - i,
        {
            proof {
                self.lemma_view_index(i as int);
            }
            if self.entries[i].content_hash == key {
                proof {
                    lemma_key_pos_unique(m.entries, key@, i as int);
                }
                let e = &self.entries[i];
                let live = (e.created_at as i128) > (now as i128) - (self.ttl_secs as i128);
                if live {
                    let found = duplicate(e);
                    let h = self.entries[i].hit_count;
                    let h2 = if h < i64::MAX { h + 1 } else { h };
                    self.entries[i].hit_count = h2;
                    self.hits = if self.hits < i64::MAX { self.hits + 1 } else { self.hits };
                    proof {
                        assert(found@ == m.entries[i as int]);
                        assert(entry_is_live(m.entries[i as int], now as int, m.ttl));
                        assert(has_live(m.entries, key@, now as int, m.ttl));
                        assert(self@.entries =~= m.entries.update(i as int, bumped(m.entries[i as int])));
                        assert(self@.hits == sat_inc(m.hits));
                        assert(key_pos(m.entries, key@) == i);
                        assert(self@ == lookup(m, key@, now as int).0);
                        assert(opt_view(Some(found)) == lookup(m, key@, now as int).1);
                    }
                    return Some(found);
                } else {
                    self.misses = if self.misses < i64::MAX { self.misses + 1 } else { self.misses };
                    proof {
                        assert(self@.entries =~= m.entries);
                    }
                    return None;
                }
            }
            i += 1;
        }
        self.misses = if self.misses < i64::MAX { self.misses + 1 } else { self.misses };
        proof {
            assert(self@.entries =~= m.entries);
        }
        None
    }

    fn key_position(&self, key: &String) -> (r: Option<usize>)
        requires
            keys_ok(self@.entries),
        ensures
            match r {
                Some(i) => i < self@.entries.len() && self@.entries[i as int].content_hash == key@
                    && key_pos(self@.entries, key@) == i,
                None => !has_key(self@.entries, key@),
            },
    {
        let n = self.entries.len();
        let mut i: usize = 0;
        while i < n
            invariant
                n == self@.entries.len(),
                keys_ok(self@.entries),
                i <= n,
                forall|j: int| 0 <= j < i ==> (#[trigger] self@.entries[j]).content_hash != key@,
            decreases n - i,
        {
            proof {
                self.lemma_view_index(i as int);
            }
            if self.entries[i].content_hash == *key {
                proof {
                    lemma_key_pos_unique(self@.entries, key@, i as int);
                }
                return Some(i);
            }
            i += 1;
        }
        None
    }

    fn victim_index(&self) -> (r: usize)
        requires
            self@.entries.len() > 0,
        ensures
            r < self@.entries.len(),
            r == victim_pos(self@.entries),
    {
        let ghost s = self@.entries;
        let n = self.entries.len();
        let mut best: usize = 0;
        let mut i: usize = 1;
        proof {
            self.lemma_view_index(0);
        }
        while i < n
            invariant
                s == self@.entries,
                n == s.len(),
                best < i <= n,
                forall|j: int| 0 <= j < best ==> precedes(s[best as int], #[trigger] s[j]),
                forall|j: int| best < j < i ==> !precedes(#[trigger] s[j], s[best as int]),
            decreases n - i,
        {
            proof {
                self.lemma_view_index(i as int);
                self.lemma_view_index(best as int);
            }
            let a = &self.entries[i];
            let b = &self.entries[best];
            if a.hit_count < b.hit_count || (a.hit_count == b.hit_count && a.created_at < b.created_at) {
                best = i;
            }
            i += 1;
        }
        proof {
            assert(is_victim(s, best as int));
            lemma_victim_exists(s);
            lemma_victim_unique(s, best as int, victim_pos(s));
        }
        best
    }

    /// Drops the entries older than the time-to-live, then, while the store is
    /// over its ceiling, the entry that `precedes` all others. Returns the keys
    /// dropped, in order.
    fn prune_if_needed(&mut self, now: i64) -> (dropped: Vec<String>)
        requires
            store_ok(old(self)@),
        ensures
            cache_wf(final(self)@),
            final(self)@ == (CacheModel {
                entries: pruned(old(self)@.entries, now as int, old(self)@.ttl, old(self)@.max_entries),
                ..old(self)@
            }),
            labels_view(dropped@) == keys_of(
                pruned_out(old(self)@.entries, now as int, old(self)@.ttl, old(self)@.max_entries),
            ),
    {
        let ghost m = self@;
        let ghost s0 = self@.entries;
        let ghost ttl = m.ttl;
        let ghost max = m.max_entries;
        let mut dropped: Vec<String> = Vec::new();
        let cutoff: i128 = (now as i128) - (self.ttl_secs as i128);
        let ghost mut k: int = 0;
        let mut i: usize = 0;
        while i < self.entries.len()
            invariant
                0 <= k <= s0.len(),
                s0 == m.entries,
                ttl == m.ttl,
                max == m.max_entries,
                cutoff == now - ttl,
                self@ == (CacheModel { entries: self@.entries, ..m }),
                store_ok(self@),
                self@.entries == unexpired(s0.subrange(0, k), now as int, ttl) + s0.subrange(k, s0.len() as int),
                i == unexpired(s0.subrange(0, k), now as int, ttl).len(),
                labels_view(dropped@) == keys_of(expired(s0.subrange(0, k), now as int, ttl)),
            decreases self@.entries.len() - i,
        {
            let ghost cur = self@.entries;
            let ghost pre = s0.subrange(0, k);
            let ghost pre1 = s0.subrange(0, k + 1);
            proof {
                self.lemma_view_index(i as int);
                assert(pre1.drop_last() =~= pre);
                assert(cur[i as int] == s0[k]);
            }
            if (self.entries[i].created_at as i128) < cutoff {
                let e = self.entries.remove(i);
                proof {
                    lemma_keys_ok_remove(cur, i as int);
                    assert(self@.entries =~= cur.remove(i as int));
                }
                let ghost d0 = dropped@;
                proof {
                    assert(e@ == s0[k]);
                }
                dropped.push(e.content_hash);
                proof {
                    assert(self@.entries =~= unexpired(pre1, now as int, ttl) + s0.subrange(k + 1, s0.len() as int));
                    assert(expired(pre1, now as int, ttl) == expired(pre, now as int, ttl).push(s0[k]));
                    assert(labels_view(dropped@) =~= labels_view(d0).push(s0[k].content_hash));
                    assert(labels_view(dropped@) =~= keys_of(expired(pre1, now as int, ttl)));
                }
            } else {
                i += 1;
                proof {
                    assert(self@.entries =~= unexpired(pre1, now as int, ttl) + s0.subrange(k + 1, s0.len() as int));
                }
            }
            proof {
                k = k + 1;
            }
        }
        proof {
            assert(s0.subrange(0, k) =~= s0);
            assert(self@.entries =~= unexpired(s0, now as int, ttl));
        }
        let ghost u = self@.entries;
        let ghost x0 = excess(u.len() as int, max);
        while self.entries.len() > self.max_entries
            invariant
                ttl == m.ttl,
                max == m.max_entries,
                self@ == (CacheModel { entries: self@.entries, ..m }),
                store_ok(self@),
                evict(self@.entries, excess(self@.entries.len() as int, max)) == evict(u, x0),
                labels_view(dropped@) + keys_of(evicted(self@.entries, excess(self@.entries.len() as int, max)))
                    == keys_of(expired(s0, now as int, ttl)) + keys_of(evicted(u, x0)),
            decreases self@.entries.len(),
        {
            let v = self.victim_index();
            let ghost cur = self@.entries;
            let ghost x = excess(cur.len() as int, max);
            let ghost rest = cur.remove(v as int);
            proof {
                self.lemma_view_index(v as int);
                assert(excess(rest.len() as int, max) == (x - 1) as nat);
                assert(evicted(cur, x) == seq![cur[v as int]] + evicted(rest, (x - 1) as nat));
                assert(keys_of(seq![cur[v as int]] + evicted(rest, (x - 1) as nat)) =~= seq![cur[v as int].content_hash]
                    + keys_of(evicted(rest, (x - 1) as nat)));
            }
            let e = self.entries.remove(v);
            proof {
                lemma_keys_ok_remove(cur, v as int);
                assert(self@.entries =~= rest);
            }
            let ghost d0 = dropped@;
            dropped.push(e.content_hash);
            proof {
                assert(labels_view(dropped@) =~= labels_view(d0).push(cur[v as int].content_hash));
                assert(labels_view(dropped@) + keys_of(evicted(rest, (x - 1) as nat)) =~= labels_view(d0)
                    + keys_of(evicted(cur, x)));
            }
        }
        proof {
            assert(evicted(self@.entries, 0) =~= Seq::<NeutralizationView>::empty());
            assert(keys_of(expired(s0, now as int, ttl) + evicted(u, x0)) =~= keys_of(expired(s0, now as int, ttl))
                + keys_of(evicted(u, x0)));
            assert(labels_view(dropped@) =~= labels_view(dropped@) + keys_of(Seq::<NeutralizationView>::empty()));
        }
        dropped
    }

    /// Stores a result for `original` at time `now` (seconds), replacing any
    /// entry with the same key, then prunes. Returns the keys that pruning
    /// removed, in the order they went.
    pub fn set(
        &mut self,
        original: &str,
        neutralized: &str,
        techniques: &[String],
        severity: i32,
        now: i64,
    ) -> (dropped: Vec<String>)
        requires
            old(self).wf(),
        ensures
            final(self).wf(),
            final(self)@ == store(
                old(self)@,
                original@,
                neutralized@,
                labels_view(techniques@),
                severity as int,
                now as int,
            ).0,
            labels_view(dropped@) == store(
                old(self)@,
                original@,
                neutralized@,
                labels_view(techniques@),
                severity as int,
                now as int,
            ).1,
    {
        let ghost m = self@;
        let key = content_hash(original);
        let ghost fresh = fresh_entry(original@, neutralized@, labels_view(techniques@), severity as int, now as int);
        match self.key_position(&key) {
            Some(i) => {
                self.entries.remove(i);
                proof {
                    lemma_keys_ok_remove(m.entries, i as int);
                    assert(self@.entries =~= m.entries.remove(i as int));
                }
            },
            None => {},
        }
        let ghost mid = self@.entries;
        proof {
            assert forall|j: int| 0 <= j < mid.len() implies (#[trigger] mid[j]).content_hash != key@ by {
                if has_key(m.entries, key@) {
                    let p = key_pos(m.entries, key@);
                    m.entries.remove_ensures(p);
                    let j2 = if j < p { j } else { j + 1 };
                    assert(mid[j] == m.entries[j2]);
                }
            }
            assert forall|j: int| 0 <= j < mid.len() implies entry_in_range(#[trigger] mid[j]) by {
                if has_key(m.entries, key@) {
                    let p = key_pos(m.entries, key@);
                    m.entries.remove_ensures(p);
                    let j2 = if j < p { j } else { j + 1 };
                    assert(mid[j] == m.entries[j2]);
                }
            }
        }
        let entry = CachedNeutralization {
            content_hash: key,
            original: original.to_owned(),
            neutralized: neutralized.to_owned(),
            techniques: copy_labels(techniques),
            severity,
            created_at: now,
            hit_count: 0,
        };
        self.entries.push(entry);
        proof {
            assert(self@.entries =~= mid.push(fresh));
            assert(self@.entries == upsert(m.entries, fresh));
            assert(keys_ok(self@.entries));
            assert(store_ok(self@));
        }
        self.prune_if_needed(now)
    }

    /// Adds an entry read back from durable storage, as it is. It is refused
    /// when its key is not the content key of its original text, when an
    /// entry with that key is already held, or when the store holds as many
    /// entries as it can count.
    pub fn restore(&mut self, entry: CachedNeutralization) -> (r: bool)
        requires
            old(self).wf(),
        ensures
            final(self).wf(),
            r == (entry@.content_hash == content_key(entry@.original) && !has_key(
                old(self)@.entries,
                entry@.content_hash,
            ) && old(self)@.entries.len() < i64::MAX),
            r ==> final(self)@ == (CacheModel { entries: old(self)@.entries.push(entry@), ..old(self)@ }),
            !r ==> final(self)@ == old(self)@,
    {
        let ghost m = self@;
        let key = content_hash(entry.original.as_str());
        if key != entry.content_hash {
            return false;
        }
        if self.key_position(&key).is_some() {
            return false;
        }
        if self.entries.len() as u64 >= i64::MAX as u64 {
            return false;
        }
        self.entries.push(entry);
        proof {
            assert(self@.entries =~= m.entries.push(entry@));
        }
        true
    }

    /// The counters and the current number of entries.
    pub fn get_stats(&self) -> (r: CacheStats)
        requires
            self.wf(),
        ensures
            r.total_entries == self@.entries.len(),
            r.cache_hits == self@.hits,
            r.cache_misses == self@.misses,
    {
        CacheStats { total_entries: self.entries.len() as i64, cache_hits: self.hits, cache_misses: self.misses }
    }

    /// Removes every entry; the counters stay as they are.
    pub fn clear(&mut self)
        requires
            old(self).wf(),
        ensures
            final(self).wf(),
            final(self)@ == (CacheModel { entries: Seq::empty(), ..old(self)@ }),
    {
        self.entries = Vec::new();
        assert(self@.entries =~= Seq::<NeutralizationView>::empty());
    }
}

} // verus!
