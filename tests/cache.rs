use feelingwise::cache::{CachedNeutralization, NeutralizationCache, CACHE_TTL_SECS, MAX_CACHE_ENTRIES};

fn labels(xs: &[&str]) -> Vec<String> {
    xs.iter().map(|s| s.to_string()).collect()
}

#[test]
fn hash_is_lowercase_hex_sha256() {
    assert_eq!(
        NeutralizationCache::hash_content(""),
        "e3b0c44298fc1c149afbf4c8996fb92427ae41e4649b934ca495991b7852b855"
    );
    assert_eq!(
        NeutralizationCache::hash_content("abc"),
        "ba7816bf8f01cfea414140de5dae2223b00361a396177a9cb410ff61f20015ad"
    );
}

#[test]
fn hash_is_stable_and_separates_texts() {
    let a1 = NeutralizationCache::hash_content("BREAKING!!! Everyone is lying");
    let a2 = NeutralizationCache::hash_content("BREAKING!!! Everyone is lying");
    let b = NeutralizationCache::hash_content("BREAKING!! Everyone is lying");
    assert_eq!(a1, a2);
    assert_ne!(a1, b);
    assert_eq!(a1.len(), 64);
}

#[test]
fn set_then_get_returns_stored_result_and_counts_uses() {
    let mut c = NeutralizationCache::new(0, 0);
    let dropped = c.set("ALL CAPS!!!", "All caps.", &labels(&["caps", "punctuation"]), 4, 1_000);
    assert!(dropped.is_empty());
    let first = c.get("ALL CAPS!!!", 1_000).expect("hit");
    assert_eq!(first.neutralized, "All caps.");
    assert_eq!(first.original, "ALL CAPS!!!");
    assert_eq!(first.techniques, labels(&["caps", "punctuation"]));
    assert_eq!(first.severity, 4);
    assert_eq!(first.hit_count, 0);
    assert_eq!(first.created_at, 1_000);
    assert_eq!(first.content_hash, NeutralizationCache::hash_content("ALL CAPS!!!"));
    let second = c.get("ALL CAPS!!!", 1_001).expect("hit");
    assert_eq!(second.hit_count, 1);
    let stats = c.get_stats();
    assert_eq!(stats.cache_hits, 2);
    assert_eq!(stats.cache_misses, 0);
    assert_eq!(stats.total_entries, 1);
}

#[test]
fn get_of_unknown_content_is_a_miss() {
    let mut c = NeutralizationCache::new(5, 7);
    assert!(c.get("never stored", 10).is_none());
    let stats = c.get_stats();
    assert_eq!(stats.cache_hits, 5);
    assert_eq!(stats.cache_misses, 8);
}

#[test]
fn expired_entry_is_not_served_but_stays_until_pruned() {
    let mut c = NeutralizationCache::with_limits(100, 10, 0, 0);
    c.set("old text", "old", &[], 1, 1_000);
    assert!(c.get("old text", 1_099).is_some());
    assert!(c.get("old text", 1_100).is_none());
    assert_eq!(c.get_stats().total_entries, 1);
    assert_eq!(c.get_stats().cache_misses, 1);
    // The next set prunes it.
    let dropped = c.set("new text", "new", &[], 1, 1_200);
    assert_eq!(dropped, vec![NeutralizationCache::hash_content("old text")]);
    assert_eq!(c.get_stats().total_entries, 1);
}

#[test]
fn entry_exactly_at_cutoff_is_neither_served_nor_pruned() {
    let mut c = NeutralizationCache::with_limits(100, 10, 0, 0);
    c.set("edge", "e", &[], 0, 1_000);
    let dropped = c.set("other", "o", &[], 0, 1_100);
    assert!(dropped.is_empty());
    assert!(c.get("edge", 1_100).is_none());
    assert_eq!(c.get_stats().total_entries, 2);
}

#[test]
fn repeated_set_replaces_with_newest_result() {
    let mut c = NeutralizationCache::new(0, 0);
    c.set("same", "first", &labels(&["a"]), 2, 10);
    c.get("same", 11);
    c.set("same", "second", &labels(&["b"]), 9, 20);
    let e = c.get("same", 21).expect("hit");
    assert_eq!(e.neutralized, "second");
    assert_eq!(e.techniques, labels(&["b"]));
    assert_eq!(e.severity, 9);
    assert_eq!(e.hit_count, 0);
    assert_eq!(e.created_at, 20);
    assert_eq!(c.get_stats().total_entries, 1);
}

#[test]
fn over_ceiling_evicts_least_used_then_oldest() {
    let mut c = NeutralizationCache::with_limits(10_000, 3, 0, 0);
    c.set("a", "A", &[], 0, 100);
    c.set("b", "B", &[], 0, 101);
    c.set("c", "C", &[], 0, 102);
    c.get("a", 103);
    c.get("a", 104);
    c.get("b", 105);
    // a has 2 uses, b has 1, c has none: c goes, though d has none either,
    // because c is older.
    let dropped = c.set("d", "D", &[], 0, 106);
    assert_eq!(dropped, vec![NeutralizationCache::hash_content("c")]);
    assert_eq!(c.get_stats().total_entries, 3);
    assert!(c.get("c", 107).is_none());
    assert!(c.get("a", 107).is_some());
    assert!(c.get("b", 107).is_some());
    assert!(c.get("d", 107).is_some());
}

#[test]
fn new_entry_itself_goes_when_every_other_entry_has_uses() {
    let mut c = NeutralizationCache::with_limits(10_000, 2, 0, 0);
    c.set("a", "A", &[], 0, 100);
    c.set("b", "B", &[], 0, 101);
    c.get("a", 102);
    c.get("b", 102);
    let dropped = c.set("c", "C", &[], 0, 103);
    assert_eq!(dropped, vec![NeutralizationCache::hash_content("c")]);
    assert!(c.get("a", 104).is_some());
}

fn row(original: &str, created_at: i64, hit_count: i64) -> CachedNeutralization {
    CachedNeutralization {
        content_hash: NeutralizationCache::hash_content(original),
        original: original.to_string(),
        neutralized: original.to_lowercase(),
        techniques: vec![],
        severity: 1,
        created_at,
        hit_count,
    }
}

#[test]
fn store_over_ceiling_is_cut_back_on_next_set() {
    let mut c = NeutralizationCache::with_limits(10_000, 3, 0, 0);
    assert!(c.restore(row("r1", 50, 4)));
    assert!(c.restore(row("r2", 40, 1)));
    assert!(c.restore(row("r3", 30, 1)));
    assert!(c.restore(row("r4", 20, 7)));
    assert!(c.restore(row("r5", 10, 2)));
    assert_eq!(c.get_stats().total_entries, 5);
    let dropped = c.set("r6", "x", &[], 0, 60);
    // Six entries, ceiling three: r6 (0 uses), then r3 and r2 (1 use, r3 older).
    assert_eq!(
        dropped,
        vec![
            NeutralizationCache::hash_content("r6"),
            NeutralizationCache::hash_content("r3"),
            NeutralizationCache::hash_content("r2"),
        ]
    );
    assert_eq!(c.get_stats().total_entries, 3);
    assert!(c.get("r1", 61).is_some());
    assert!(c.get("r4", 61).is_some());
    assert!(c.get("r5", 61).is_some());
}

#[test]
fn restore_refuses_bad_rows() {
    let mut c = NeutralizationCache::new(0, 0);
    assert!(c.restore(row("x", 1, 0)));
    assert!(!c.restore(row("x", 2, 0)));
    let mut wrong = row("y", 1, 0);
    wrong.content_hash = NeutralizationCache::hash_content("z");
    assert!(!c.restore(wrong));
    assert_eq!(c.get_stats().total_entries, 1);
}

#[test]
fn clear_empties_store_and_keeps_counters() {
    let mut c = NeutralizationCache::new(0, 0);
    c.set("one", "1", &[], 0, 5);
    c.set("two", "2", &[], 0, 5);
    c.get("one", 6);
    c.get("three", 6);
    c.clear();
    let stats = c.get_stats();
    assert_eq!(stats.total_entries, 0);
    assert_eq!(stats.cache_hits, 1);
    assert_eq!(stats.cache_misses, 1);
    assert!(c.get("one", 7).is_none());
}

#[test]
fn default_limits() {
    assert_eq!(CACHE_TTL_SECS, 24 * 3600);
    assert_eq!(MAX_CACHE_ENTRIES, 50_000);
}
