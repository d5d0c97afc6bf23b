use link_store::config::MAX_ENTRIES;
use link_store::entry::{Entry, Flags};
use link_store::store::Store;

fn entry(payload: &str, expires_at: u128) -> Entry {
    Entry { payload: payload.to_string(), expires_at, flags: Flags::default() }
}

fn store_of(items: &[(&str, u128)]) -> Store {
    let mut store = Store::new();
    for (id, expires_at) in items {
        store.insert(id.to_string(), entry(id, *expires_at));
    }
    store
}

#[test]
fn new_store_is_empty() {
    let store = Store::new();
    assert_eq!(store.len(), 0);
    assert!(!store.contains("aaaaa"));
    assert_eq!(store.get("aaaaa", 0), None);
    assert_eq!(store.remaining_ttl("aaaaa", 0), None);
}

#[test]
fn default_flags_are_not_encrypted() {
    assert_eq!(Flags::default(), Flags { encrypted: false });
}

#[test]
fn insert_then_get_returns_the_entry() {
    let mut store = Store::new();
    let stored = Entry {
        payload: "hello".to_string(),
        expires_at: 1_000,
        flags: Flags { encrypted: true },
    };
    store.insert("ab-_9".to_string(), stored.clone());
    assert_eq!(store.len(), 1);
    assert!(store.contains("ab-_9"));
    assert_eq!(store.get("ab-_9", 0), Some(&stored));
    assert_eq!(store.get("ab-_8", 0), None);
}

#[test]
fn get_tells_identifiers_apart() {
    let store = store_of(&[("aaaaa", 100), ("aaaab", 200), ("baaaa", 300)]);
    assert_eq!(store.get("aaaaa", 0).map(|e| e.payload.as_str()), Some("aaaaa"));
    assert_eq!(store.get("aaaab", 0).map(|e| e.payload.as_str()), Some("aaaab"));
    assert_eq!(store.get("baaaa", 0).map(|e| e.expires_at), Some(300));
    assert_eq!(store.get("aaaa", 0), None);
    assert_eq!(store.get("aaaaaa", 0), None);
    assert_eq!(store.get("", 0), None);
}

#[test]
fn get_stops_at_the_expiry_instant() {
    let store = store_of(&[("aaaaa", 1_000)]);
    assert!(store.get("aaaaa", 0).is_some());
    assert!(store.get("aaaaa", 999).is_some());
    assert_eq!(store.get("aaaaa", 1_000), None);
    assert_eq!(store.get("aaaaa", 1_001), None);
    assert_eq!(store.get("aaaaa", u64::MAX), None);
}

#[test]
fn get_does_not_change_the_store() {
    let store = store_of(&[("aaaaa", 1_000)]);
    assert!(store.get("aaaaa", 5).is_some());
    assert!(store.get("aaaaa", 5).is_some());
    assert_eq!(store.get("aaaaa", 2_000), None);
    assert!(store.contains("aaaaa"));
    assert_eq!(store.len(), 1);
}

#[test]
fn take_removes_what_it_returns() {
    let mut store = store_of(&[("aaaaa", 1_000), ("bbbbb", 1_000)]);
    assert_eq!(store.take("aaaaa", 10), Some(entry("aaaaa", 1_000)));
    assert_eq!(store.take("aaaaa", 10), None);
    assert!(!store.contains("aaaaa"));
    assert!(store.contains("bbbbb"));
    assert_eq!(store.len(), 1);
}

#[test]
fn take_leaves_an_expired_entry_to_the_sweep() {
    let mut store = store_of(&[("aaaaa", 1_000)]);
    assert_eq!(store.take("aaaaa", 1_000), None);
    assert!(store.contains("aaaaa"));
    assert_eq!(store.take("zzzzz", 0), None);
    assert_eq!(store.len(), 1);
}

#[test]
fn delete_says_whether_the_entry_existed() {
    let mut store = store_of(&[("aaaaa", 1_000), ("bbbbb", 1_000)]);
    assert!(store.delete("aaaaa"));
    assert!(!store.delete("aaaaa"));
    assert!(!store.delete("ccccc"));
    assert_eq!(store.len(), 1);
    assert!(store.contains("bbbbb"));
}

#[test]
fn delete_removes_an_expired_entry_too() {
    let mut store = store_of(&[("aaaaa", 10)]);
    assert_eq!(store.get("aaaaa", 20), None);
    assert!(store.delete("aaaaa"));
    assert_eq!(store.len(), 0);
}

#[test]
fn nothing_is_read_after_a_delete() {
    let mut store = store_of(&[("aaaaa", 1_000)]);
    assert!(store.delete("aaaaa"));
    assert_eq!(store.get("aaaaa", 0), None);
    assert_eq!(store.take("aaaaa", 0), None);
    assert_eq!(store.remaining_ttl("aaaaa", 0), None);
}

#[test]
fn remaining_ttl_counts_down_to_zero() {
    let store = store_of(&[("aaaaa", 1_000)]);
    assert_eq!(store.remaining_ttl("aaaaa", 0), Some(1_000));
    assert_eq!(store.remaining_ttl("aaaaa", 400), Some(600));
    assert_eq!(store.remaining_ttl("aaaaa", 999), Some(1));
    assert_eq!(store.remaining_ttl("aaaaa", 1_000), Some(0));
    assert_eq!(store.remaining_ttl("aaaaa", 5_000), Some(0));
    assert_eq!(store.remaining_ttl("bbbbb", 400), None);
}

#[test]
fn sweep_removes_exactly_the_expired() {
    let mut store = store_of(&[("aaaaa", 100), ("bbbbb", 300), ("ccccc", 200), ("ddddd", 301)]);
    store.sweep(99);
    assert_eq!(store.len(), 4);
    store.sweep(100);
    assert_eq!(store.len(), 3);
    assert!(!store.contains("aaaaa"));
    store.sweep(300);
    assert_eq!(store.len(), 1);
    assert!(!store.contains("bbbbb"));
    assert!(!store.contains("ccccc"));
    assert_eq!(store.get("ddddd", 300), Some(&entry("ddddd", 301)));
    store.sweep(u64::MAX);
    assert_eq!(store.len(), 0);
}

#[test]
fn an_expiry_beyond_every_instant_never_runs_out() {
    let store = store_of(&[("aaaaa", u64::MAX as u128 + 1), ("bbbbb", u64::MAX as u128)]);
    assert!(store.get("aaaaa", u64::MAX).is_some());
    assert_eq!(store.get("bbbbb", u64::MAX), None);
    assert_eq!(store.remaining_ttl("aaaaa", u64::MAX), Some(1));
    assert_eq!(store.remaining_ttl("aaaaa", 0), Some(u64::MAX as u128 + 1));
}

#[test]
fn sweep_of_an_empty_store_does_nothing() {
    let mut store = Store::new();
    store.sweep(1_000);
    assert_eq!(store.len(), 0);
}

#[test]
fn sweep_keeps_the_order_of_what_stays() {
    let mut store = Store::new();
    store.insert("first".to_string(), entry("first", 5_000));
    store.insert("early".to_string(), entry("early", 10));
    for i in 0..MAX_ENTRIES - 2 {
        store.insert(format!("{:05}", i), entry("filler", 5_000));
    }
    assert_eq!(store.len(), MAX_ENTRIES);
    store.sweep(10);
    assert_eq!(store.len(), MAX_ENTRIES - 1);
    store.insert("late1".to_string(), entry("late1", 5_000));
    assert_eq!(store.len(), MAX_ENTRIES);
    assert!(store.contains("first"));
    store.insert("late2".to_string(), entry("late2", 5_000));
    assert_eq!(store.len(), MAX_ENTRIES);
    assert!(!store.contains("first"));
    assert!(store.contains("00000"));
    assert!(store.contains("late1"));
    assert!(store.contains("late2"));
}

#[test]
fn store_never_grows_past_its_capacity() {
    let mut store = Store::new();
    for i in 0..MAX_ENTRIES {
        store.insert(format!("{:05}", i), entry("x", 1_000));
        assert_eq!(store.len(), i + 1);
    }
    assert_eq!(store.len(), MAX_ENTRIES);
    assert!(store.contains("00000"));

    store.insert("extra".to_string(), entry("y", 1_000));
    assert_eq!(store.len(), MAX_ENTRIES);
    assert!(store.contains("extra"));
    assert!(!store.contains("00000"));
    let mut gone = 0;
    for i in 0..MAX_ENTRIES {
        if !store.contains(&format!("{:05}", i)) {
            gone += 1;
        }
    }
    assert_eq!(gone, 1);
}

#[test]
fn a_full_store_gives_up_its_oldest_entry_first() {
    let mut store = Store::new();
    for i in 0..MAX_ENTRIES {
        store.insert(format!("{:05}", i), entry("x", 1_000 + i as u128));
    }
    store.insert("new-1".to_string(), entry("n1", 9));
    store.insert("new-2".to_string(), entry("n2", 9));
    assert_eq!(store.len(), MAX_ENTRIES);
    assert!(!store.contains("00000"));
    assert!(!store.contains("00001"));
    assert_eq!(store.get("00002", 0), Some(&entry("x", 1_002)));
    assert_eq!(store.get("new-1", 0), Some(&entry("n1", 9)));
    assert_eq!(store.get("new-2", 0), Some(&entry("n2", 9)));
}

#[test]
fn an_expired_entry_still_counts_until_it_is_swept() {
    let mut store = store_of(&[("aaaaa", 10), ("bbbbb", 20)]);
    assert_eq!(store.get("aaaaa", 15), None);
    assert_eq!(store.len(), 2);
    store.sweep(15);
    assert_eq!(store.len(), 1);
}
