use feelingwise::cache::{CachedNeutralization, NeutralizationCache};
use feelingwise::hot_cache::LruCache;

fn value(text: &str) -> CachedNeutralization {
    CachedNeutralization {
        content_hash: NeutralizationCache::hash_content(text),
        original: text.to_string(),
        neutralized: text.to_string(),
        techniques: vec![],
        severity: 0,
        created_at: 0,
        hit_count: 0,
    }
}

#[test]
fn evicts_least_recently_accessed_not_first_inserted() {
    let mut c = LruCache::new(3);
    c.insert("a".to_string(), value("a"));
    c.insert("b".to_string(), value("b"));
    c.insert("c".to_string(), value("c"));
    assert!(c.get("a").is_some());
    c.insert("d".to_string(), value("d"));
    assert_eq!(c.len(), 3);
    assert!(c.contains("a"));
    assert!(!c.contains("b"));
    assert!(c.contains("c"));
    assert!(c.contains("d"));
}

#[test]
fn without_accesses_the_first_inserted_goes() {
    let mut c = LruCache::new(2);
    c.insert("a".to_string(), value("a"));
    c.insert("b".to_string(), value("b"));
    c.insert("c".to_string(), value("c"));
    assert!(!c.contains("a"));
    assert!(c.contains("b") && c.contains("c"));
}

#[test]
fn replacing_a_key_evicts_nothing() {
    let mut c = LruCache::new(2);
    c.insert("a".to_string(), value("a"));
    c.insert("b".to_string(), value("b"));
    c.insert("a".to_string(), value("a2"));
    assert_eq!(c.len(), 2);
    assert_eq!(c.get("a").map(|v| v.original.clone()), Some("a2".to_string()));
    assert!(c.contains("b"));
}

#[test]
fn get_returns_value_and_misses_unknown() {
    let mut c = LruCache::new(4);
    assert!(c.is_empty());
    c.insert("k".to_string(), value("text"));
    assert!(!c.is_empty());
    assert_eq!(c.get("k").map(|v| v.original.clone()), Some("text".to_string()));
    assert!(c.get("missing").is_none());
}

#[test]
fn zero_capacity_holds_at_most_one() {
    let mut c = LruCache::new(0);
    c.insert("a".to_string(), value("a"));
    c.insert("b".to_string(), value("b"));
    assert_eq!(c.len(), 1);
    assert!(c.contains("b"));
}
