//! Properties that relate several operations, stated over the models that the
//! operations' own contracts use, and proved.
use vstd::prelude::*;
use crate::digest::{content_key, sha256_of, lemma_hex_text_injective};
use crate::status::{model_missing_view, not_installed_view, running_view, error_view, MSG_PLEASE_RESTART, MSG_RECONNECTING};
use crate::supervisor::{
    SupervisorModel, SupervisorState, StartStep, MonitorAction, supervisor_wf, start_begin, start_finish, stopped,
    monitor_skips, monitor_step, count_attempt, reset_count, status_of, names_default_model,
};
use crate::hot_cache::{HotModel, HotEntry, hot_wf, hot_has, hot_insert, hot_room, is_lru, lru_pos};
use crate::cache::{
    CacheModel, NeutralizationView, cache_wf, entry_is_expired, excess, evict, evicted, fresh_entry, has_key, key_pos,
    lookup, pruned, precedes, sat_inc, store, unexpired, upsert, victim_pos, bumped, lemma_key_pos_unique,
    lemma_victim_exists,
};

verus! {

/// The key of a text depends on the text alone; two texts get the same key
/// exactly when the SHA-256 digests of their UTF-8 bytes agree, and those
/// bytes agree exactly when the texts do.
pub proof fn hash_is_a_function_of_content(c1: Seq<char>, c2: Seq<char>)
    ensures
        c1 == c2 ==> content_key(c1) == content_key(c2),
        vstd::utf8::encode_utf8(c1) == vstd::utf8::encode_utf8(c2) <==> c1 == c2,
        content_key(c1) == content_key(c2) <==> sha256_of(vstd::utf8::encode_utf8(c1)) == sha256_of(
            vstd::utf8::encode_utf8(c2),
        ),
{
    vstd::utf8::encode_utf8_decode_utf8(c1);
    vstd::utf8::encode_utf8_decode_utf8(c2);
    if content_key(c1) == content_key(c2) {
        lemma_hex_text_injective(sha256_of(vstd::utf8::encode_utf8(c1)), sha256_of(vstd::utf8::encode_utf8(c2)));
    }
}

pub proof fn lemma_unexpired_member(s: Seq<NeutralizationView>, now: int, ttl: int, i: int)
    requires
        0 <= i < unexpired(s, now, ttl).len(),
    ensures
        exists|j: int| 0 <= j < s.len() && s[j] == unexpired(s, now, ttl)[i],
    decreases s.len(),
{
    let t = s.drop_last();
    let r = unexpired(t, now, ttl);
    if i < r.len() {
        lemma_unexpired_member(t, now, ttl, i);
        let j = choose|j: int| 0 <= j < t.len() && t[j] == r[i];
        assert(s[j] == t[j]);
    } else {
        assert(s[s.len() - 1] == unexpired(s, now, ttl)[i]);
    }
}

pub proof fn lemma_unexpired_len(s: Seq<NeutralizationView>, now: int, ttl: int)
    ensures
        unexpired(s, now, ttl).len() <= s.len(),
    decreases s.len(),
{
    if s.len() > 0 {
        lemma_unexpired_len(s.drop_last(), now, ttl);
    }
}

/// A result just stored is served as stored, with no uses counted yet; served
/// a second time, it shows one use. This holds while the store is below its
/// ceiling and the time-to-live is positive.
pub proof fn set_then_get_serves_stored_result(
    m: CacheModel,
    original: Seq<char>,
    neutralized: Seq<char>,
    techniques: Seq<Seq<char>>,
    severity: int,
    now: int,
)
    requires
        cache_wf(m),
        m.ttl > 0,
        m.entries.len() < m.max_entries,
    ensures
        ({
            let fresh = fresh_entry(original, neutralized, techniques, severity, now);
            let m1 = store(m, original, neutralized, techniques, severity, now).0;
            let first = lookup(m1, content_key(original), now);
            let second = lookup(first.0, content_key(original), now);
            &&& first.1 == Some(fresh)
            &&& first.1.unwrap().hit_count == 0
            &&& second.1 == Some(NeutralizationView { hit_count: 1, ..fresh })
        }),
{
    let key = content_key(original);
    let fresh = fresh_entry(original, neutralized, techniques, severity, now);
    let s = upsert(m.entries, fresh);
    let t = if has_key(m.entries, key) {
        m.entries.remove(key_pos(m.entries, key))
    } else {
        m.entries
    };
    assert(s == t.push(fresh));
    assert(s.drop_last() =~= t);
    assert forall|j: int| 0 <= j < t.len() implies (#[trigger] t[j]).content_hash != key by {
        if has_key(m.entries, key) {
            let p = key_pos(m.entries, key);
            m.entries.remove_ensures(p);
            let j2 = if j < p { j } else { j + 1 };
            assert(t[j] == m.entries[j2]);
        }
    }
    let u = unexpired(s, now, m.ttl);
    assert(!entry_is_expired(fresh, now, m.ttl));
    assert(u == unexpired(t, now, m.ttl).push(fresh));
    lemma_unexpired_len(t, now, m.ttl);
    assert(excess(u.len() as int, m.max_entries) == 0);
    assert(pruned(s, now, m.ttl, m.max_entries) == u);
    let m1 = store(m, original, neutralized, techniques, severity, now).0;
    assert(m1.entries == u);
    let p = u.len() - 1;
    assert forall|j: int| 0 <= j < u.len() && u[j].content_hash == key implies j == p by {
        if j < p {
            lemma_unexpired_member(t, now, m.ttl, j);
            let k = choose|k: int| 0 <= k < t.len() && t[k] == unexpired(t, now, m.ttl)[j];
            assert(t[k].content_hash != key);
        }
    }
    assert(u[p] == fresh);
    assert(has_key(u, key));
    assert(key_pos(u, key) == p);
    let first = lookup(m1, key, now);
    assert(first.1 == Some(fresh));
    let u2 = first.0.entries;
    assert(u2 == u.update(p, bumped(fresh)));
    assert forall|j: int| 0 <= j < u2.len() && u2[j].content_hash == key implies j == p by {
        if j != p {
            assert(u2[j] == u[j]);
        }
    }
    assert(u2[p].content_hash == key);
    assert(has_key(u2, key));
    assert(key_pos(u2, key) == p);
    assert(bumped(fresh) == NeutralizationView { hit_count: 1, ..fresh });
}

/// An entry past its time-to-live is not served, though it stays in the
/// store until pruning runs; the lookup counts a miss.
pub proof fn expired_entry_is_not_served(m: CacheModel, key: Seq<char>, now: int, i: int)
    requires
        cache_wf(m),
        0 <= i < m.entries.len(),
        m.entries[i].content_hash == key,
        m.entries[i].created_at <= now - m.ttl,
    ensures
        lookup(m, key, now).1 is None,
        lookup(m, key, now).0.entries == m.entries,
        lookup(m, key, now).0.misses == sat_inc(m.misses),
{
    lemma_key_pos_unique(m.entries, key, i);
}

/// Removing everything leaves no entries and the counters as they were.
pub proof fn clear_keeps_counters(m: CacheModel)
    ensures
        (CacheModel { entries: Seq::empty(), ..m }).entries.len() == 0,
        (CacheModel { entries: Seq::empty(), ..m }).hits == m.hits,
        (CacheModel { entries: Seq::empty(), ..m }).misses == m.misses,
{
}

pub proof fn lemma_victim_not_preceded(s: Seq<NeutralizationView>, j: int)
    requires
        s.len() > 0,
        0 <= j < s.len(),
        j != victim_pos(s),
    ensures
        !precedes(s[j], s[victim_pos(s)]),
{
    lemma_victim_exists(s);
    let v = victim_pos(s);
    if j < v {
        assert(precedes(s[v], s[j]));
    }
}

/// Evicting never brings in an entry that precedes a bound all entries respect.
pub proof fn lemma_evict_keeps_bound(s: Seq<NeutralizationView>, n: nat, x: NeutralizationView)
    requires
        forall|j: int| 0 <= j < s.len() ==> !precedes(#[trigger] s[j], x),
    ensures
        forall|b: int| 0 <= b < evict(s, n).len() ==> !precedes(#[trigger] evict(s, n)[b], x),
    decreases n,
{
    if n > 0 && s.len() > 0 {
        let v = victim_pos(s);
        lemma_victim_exists(s);
        let r = s.remove(v);
        s.remove_ensures(v);
        assert forall|j: int| 0 <= j < r.len() implies !precedes(#[trigger] r[j], x) by {
            let j2 = if j < v { j } else { j + 1 };
            assert(r[j] == s[j2]);
        }
        lemma_evict_keeps_bound(r, (n - 1) as nat, x);
        assert(evict(s, n) == evict(r, (n - 1) as nat));
    }
}

/// `n` evictions from at least `n` entries take exactly `n`, and no entry
/// kept precedes an entry taken.
pub proof fn lemma_evict_order(s: Seq<NeutralizationView>, n: nat)
    requires
        n <= s.len(),
    ensures
        evict(s, n).len() == s.len() - n,
        evicted(s, n).len() == n,
        forall|a: int, b: int|
            0 <= a < evicted(s, n).len() && 0 <= b < evict(s, n).len() ==> !precedes(
                #[trigger] evict(s, n)[b],
                #[trigger] evicted(s, n)[a],
            ),
    decreases n,
{
    if n > 0 {
        let v = victim_pos(s);
        lemma_victim_exists(s);
        let r = s.remove(v);
        s.remove_ensures(v);
        lemma_evict_order(r, (n - 1) as nat);
        assert forall|j: int| 0 <= j < r.len() implies !precedes(#[trigger] r[j], s[v]) by {
            let j2 = if j < v { j } else { j + 1 };
            assert(r[j] == s[j2]);
            lemma_victim_not_preceded(s, j2);
        }
        lemma_evict_keeps_bound(r, (n - 1) as nat, s[v]);
        let ed = evicted(s, n);
        let ek = evict(s, n);
        assert(ed == seq![s[v]] + evicted(r, (n - 1) as nat));
        assert forall|a: int, b: int| 0 <= a < ed.len() && 0 <= b < ek.len() implies !precedes(
            #[trigger] ek[b],
            #[trigger] ed[a],
        ) by {
            if a == 0 {
                assert(ed[a] == s[v]);
            } else {
                assert(ed[a] == evicted(r, (n - 1) as nat)[a - 1]);
            }
        }
    }
}

/// After a `set`, the store holds at most its ceiling. Pruning takes the
/// expired entries and then exactly as many more as the ceiling asks, and
/// none of those it keeps has fewer uses than one it took, nor as many uses
/// and an older creation time.
pub proof fn set_respects_ceiling(
    m: CacheModel,
    original: Seq<char>,
    neutralized: Seq<char>,
    techniques: Seq<Seq<char>>,
    severity: int,
    now: int,
)
    requires
        cache_wf(m),
    ensures
        ({
            let s = upsert(m.entries, fresh_entry(original, neutralized, techniques, severity, now));
            let u = unexpired(s, now, m.ttl);
            let n = excess(u.len() as int, m.max_entries);
            let kept = store(m, original, neutralized, techniques, severity, now).0.entries;
            let taken = evicted(u, n);
            &&& kept.len() <= m.max_entries
            &&& kept == evict(u, n)
            &&& taken.len() == n
            &&& n == (if u.len() > m.max_entries { u.len() - m.max_entries } else { 0 })
            &&& forall|a: int, b: int|
                0 <= a < taken.len() && 0 <= b < kept.len() ==> !precedes(#[trigger] kept[b], #[trigger] taken[a])
        }),
{
    let s = upsert(m.entries, fresh_entry(original, neutralized, techniques, severity, now));
    let u = unexpired(s, now, m.ttl);
    let n = excess(u.len() as int, m.max_entries);
    lemma_evict_order(u, n);
}

/// Starting while the runtime already answers spawns nothing and succeeds at
/// once, and a second start right after does the same and changes nothing.
pub proof fn start_is_idempotent_when_healthy(m: SupervisorModel, found1: bool, found2: bool)
    ensures
        ({
            let (m1, r1) = start_begin(m, true, found1);
            let (m2, r2) = start_begin(m1, true, found2);
            &&& r1 == Ok::<StartStep, crate::supervisor::SupervisorError>(StartStep::AlreadyRunning)
            &&& r2 == Ok::<StartStep, crate::supervisor::SupervisorError>(StartStep::AlreadyRunning)
            &&& m2 == m1
            &&& m1.state == SupervisorState::Running
        }),
{
}

/// While running and answering, the status is "model missing" exactly when
/// no listed model is the configured default, and "running" otherwise.
pub proof fn model_missing_iff_default_absent(m: SupervisorModel, names: Seq<Seq<char>>, default_model: Seq<char>)
    requires
        m.state == SupervisorState::Running,
    ensures
        ({
            let listed = exists|i: int| 0 <= i < names.len() && names_default_model(#[trigger] names[i], default_model);
            &&& (status_of(m, true, true, Some(listed)) == model_missing_view()) <==> !listed
            &&& listed ==> status_of(m, true, true, Some(listed)) == running_view()
        }),
{
}

/// When binary discovery fails, the status is "not installed" whatever the
/// stored state and whatever the probes say.
pub proof fn not_installed_overrides_state(m: SupervisorModel, healthy: bool, model_available: Option<bool>)
    ensures
        status_of(m, false, healthy, model_available) == not_installed_view(),
{
}

/// One automatic recovery that fails: the monitor finds the runtime
/// unhealthy and restarts it (stop, then start with a binary found), no probe
/// succeeds before the startup timeout, and the attempt is counted.
pub open spec fn failed_recovery(m: SupervisorModel) -> SupervisorModel {
    let m1 = monitor_step(m, false).0;
    let m2 = stopped(m1);
    let m3 = start_begin(m2, false, true).0;
    let m4 = start_finish(m3, false).0;
    count_attempt(m4)
}

pub open spec fn failed_recoveries(m: SupervisorModel, n: nat) -> SupervisorModel
    decreases n,
{
    if n == 0 {
        m
    } else {
        failed_recovery(failed_recoveries(m, (n - 1) as nat))
    }
}

pub proof fn lemma_failed_recoveries(m: SupervisorModel, n: nat)
    requires
        supervisor_wf(m),
        !monitor_skips(m.state),
        m.restart_count == 0,
        n <= m.max_restart_attempts,
    ensures
        failed_recoveries(m, n).restart_count == n,
        failed_recoveries(m, n).max_restart_attempts == m.max_restart_attempts,
        n > 0 ==> failed_recoveries(m, n).state == SupervisorState::Unhealthy,
        !monitor_skips(failed_recoveries(m, n).state),
        supervisor_wf(failed_recoveries(m, n)),
    decreases n,
{
    if n > 0 {
        lemma_failed_recoveries(m, (n - 1) as nat);
    }
}

/// After as many failed automatic recoveries in a row as the restart ceiling
/// allows, the status asks the user to restart (before that, it says it is
/// reconnecting) and the monitor stops restarting. Once the count is reset
/// and a probe succeeds, the status is "running" again.
pub proof fn recovery_gives_up_at_ceiling(
    m: SupervisorModel,
    healthy: bool,
    model_available: Option<bool>,
    later_model: Option<bool>,
)
    requires
        supervisor_wf(m),
        !monitor_skips(m.state),
        m.restart_count == 0,
        m.max_restart_attempts >= 1,
        later_model != Some(false),
    ensures
        ({
            let last = failed_recoveries(m, m.max_restart_attempts as nat);
            let back = monitor_step(reset_count(last), true).0;
            &&& status_of(last, true, healthy, model_available) == error_view(MSG_PLEASE_RESTART@)
            &&& monitor_step(last, false).1 == MonitorAction::GiveUp
            &&& monitor_step(last, false).0 == last
            &&& back.state == SupervisorState::Running
            &&& back.restart_count == 0
            &&& status_of(back, true, true, later_model) == running_view()
        }),
        forall|k: nat|
            1 <= k < m.max_restart_attempts ==> status_of(#[trigger] failed_recoveries(m, k), true, healthy, model_available)
                == error_view(MSG_RECONNECTING@),
{
    lemma_failed_recoveries(m, m.max_restart_attempts as nat);
    assert forall|k: nat| 1 <= k < m.max_restart_attempts implies status_of(
        #[trigger] failed_recoveries(m, k),
        true,
        healthy,
        model_available,
    ) == error_view(MSG_RECONNECTING@) by {
        lemma_failed_recoveries(m, k);
    }
}

pub proof fn lemma_lru_exists(s: Seq<HotEntry>)
    requires
        s.len() > 0,
    ensures
        is_lru(s, lru_pos(s)),
    decreases s.len(),
{
    if s.len() == 1 {
        assert(is_lru(s, 0));
    } else {
        let t = s.drop_last();
        lemma_lru_exists(t);
        let v = lru_pos(t);
        let l = s.len() - 1;
        if s[l].last_access < s[v].last_access {
            assert forall|j: int| 0 <= j < s.len() implies s[l].last_access <= #[trigger] s[j].last_access by {
                if j < l {
                    assert(t[j] == s[j]);
                }
            }
            assert(is_lru(s, l));
        } else {
            assert forall|j: int| 0 <= j < s.len() implies s[v].last_access <= #[trigger] s[j].last_access by {
                if j < l {
                    assert(t[j] == s[j]);
                }
            }
            assert(is_lru(s, v));
        }
    }
}

/// Inserting a new key into a full cache evicts exactly one entry: the one
/// whose last access is older than every other's, however recently it was
/// inserted. Every other key stays with its value, and the new key is held
/// afterwards with the newest access number.
pub proof fn full_insert_evicts_least_recently_used(m: HotModel, key: Seq<char>, value: crate::cache::NeutralizationView)
    requires
        hot_wf(m),
        m.max_size >= 1,
        m.entries.len() == m.max_size,
        !hot_has(m.entries, key),
    ensures
        ({
            let v = lru_pos(m.entries);
            let after = hot_insert(m, key, value);
            &&& 0 <= v < m.entries.len()
            &&& forall|j: int|
                0 <= j < m.entries.len() && j != v ==> m.entries[v].last_access < #[trigger] m.entries[j].last_access
            &&& after.entries == m.entries.remove(v).push(HotEntry { key, value, last_access: m.counter + 1 })
            &&& after.entries.len() == m.max_size
            &&& !hot_has(after.entries, m.entries[v].key)
            &&& hot_has(after.entries, key)
            &&& forall|j: int|
                0 <= j < m.entries.len() && j != v ==> hot_has(after.entries, #[trigger] m.entries[j].key)
                    && after.entries[if j < v { j } else { j - 1 }] == m.entries[j]
        }),
{
    lemma_lru_exists(m.entries);
    let v = lru_pos(m.entries);
    let s = hot_room(m, key);
    assert(s == m.entries.remove(v));
    m.entries.remove_ensures(v);
    assert(!hot_has(s, key)) by {
        if hot_has(s, key) {
            let p = choose|p: int| 0 <= p < s.len() && s[p].key == key;
            let p2 = if p < v { p } else { p + 1 };
            assert(s[p] == m.entries[p2]);
        }
    }
    let after = hot_insert(m, key, value);
    let n = after.entries.len() - 1;
    assert(after.entries[n].key == key);
    assert forall|j: int| 0 <= j < m.entries.len() && j != v implies hot_has(after.entries, #[trigger] m.entries[j].key)
        && after.entries[if j < v { j } else { j - 1 }] == m.entries[j] by {
        let k = if j < v { j } else { j - 1 };
        assert(after.entries[k] == s[k]);
    }
    assert(!hot_has(after.entries, m.entries[v].key)) by {
        if hot_has(after.entries, m.entries[v].key) {
            let p = choose|p: int| 0 <= p < after.entries.len() && after.entries[p].key == m.entries[v].key;
            if p < n {
                let p2 = if p < v { p } else { p + 1 };
                assert(after.entries[p] == m.entries[p2]);
            }
        }
    }
}

} // verus!
