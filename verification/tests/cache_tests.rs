use rustfast::cache::MemoryStore;

#[test]
fn set_then_get() {
    let mut s = MemoryStore::new();
    s.set("k", "v", None);
    assert_eq!(s.get("k"), Some("v".to_string()));
    assert!(s.has("k"));
    assert_eq!(s.get("missing"), None);
    assert!(!s.has("missing"));
}

#[test]
fn values_expire_after_their_lifetime() {
    let mut s = MemoryStore::default();
    s.set_at("a", "1", Some(100), 1_000);
    assert_eq!(s.get_at("a", 1_000), Some("1".to_string()));
    assert_eq!(s.get_at("a", 1_100), Some("1".to_string()));
    assert_eq!(s.get_at("a", 1_101), None);
    assert!(!s.has_at("a", 5_000));
    assert!(s.has_at("a", 1_050));
}

#[test]
fn long_lifetime_is_readable_now() {
    let mut s = MemoryStore::new();
    s.set("a", "1", Some(60_000_000_000));
    assert_eq!(s.get("a"), Some("1".to_string()));
}

#[test]
fn forget_and_flush() {
    let mut s = MemoryStore::new();
    s.set("a", "1", None);
    s.set("b", "2", None);
    assert!(s.forget("a"));
    assert!(!s.forget("a"));
    assert_eq!(s.get("a"), None);
    assert_eq!(s.get("b"), Some("2".to_string()));
    s.flush();
    assert_eq!(s.get("b"), None);
}

#[test]
fn counters() {
    let mut s = MemoryStore::new();
    assert_eq!(s.increment("hits", 1), 1);
    assert_eq!(s.increment("hits", 5), 6);
    assert_eq!(s.decrement("hits", 10), -4);
    assert_eq!(s.get("hits"), Some("-4".to_string()));
    s.set("word", "abc", None);
    assert_eq!(s.increment("word", 2), 2);
    s.set("plus", "+7", None);
    assert_eq!(s.increment("plus", 1), 8);
}

#[test]
fn counters_keep_expiry() {
    let mut s = MemoryStore::new();
    s.set_at("c", "10", Some(5), 0);
    assert_eq!(s.increment("c", 1), 11);
    assert_eq!(s.get_at("c", 5), Some("11".to_string()));
    assert_eq!(s.get_at("c", 6), None);
    s.set_at("d", "3", Some(1), 0);
    assert_eq!(s.get_at("d", 100), None);
    assert_eq!(s.increment("d", 1), 4);
}

#[test]
fn prune_removes_expired() {
    let mut s = MemoryStore::new();
    s.set_at("old", "1", Some(10), 0);
    s.set_at("new", "2", Some(1_000), 0);
    s.set_at("forever", "3", None, 0);
    s.prune_at(500);
    assert!(!s.forget("old"));
    assert_eq!(s.get_at("new", 500), Some("2".to_string()));
    assert_eq!(s.get_at("forever", 500), Some("3".to_string()));
    s.prune();
    assert_eq!(s.get_at("forever", 0), Some("3".to_string()));
}

#[test]
fn overwrite_replaces_value_and_lifetime() {
    let mut s = MemoryStore::new();
    s.set_at("k", "a", Some(1), 0);
    s.set_at("k", "b", None, 0);
    assert_eq!(s.get_at("k", 1_000_000), Some("b".to_string()));
}

#[test]
fn checked_counters_refuse_overflow() {
    let mut s = MemoryStore::new();
    s.set("big", "9223372036854775807", None);
    assert_eq!(s.counter("big"), i64::MAX);
    assert_eq!(s.checked_increment("big", 1), None);
    assert_eq!(s.get("big"), Some("9223372036854775807".to_string()));
    assert_eq!(s.checked_decrement("n", i64::MIN), None);
    assert_eq!(s.checked_decrement("n", 5), Some(-5));
    assert_eq!(s.checked_increment("n", 2), Some(-3));
    assert_eq!(s.counter("absent"), 0);
}

#[test]
fn expired_entries_stay_expired() {
    let mut c = rustfast::cache::MemoryStore::new();
    c.set_at("k", "v", Some(10), 100);
    assert_eq!(c.get_at("k", 110), Some("v".to_string()));
    assert_eq!(c.get_at("k", 111), None);
    assert_eq!(c.get_at("k", 5000), None);
    assert_eq!(c.get_at("k", 0), Some("v".to_string()));
}
