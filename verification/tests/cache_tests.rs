use discord_assist::cache::{SelectableItem, SelectionCache, DEFAULT_SELECTION_TTL_SECS};

fn items(labels: &[&str]) -> Vec<SelectableItem> {
    labels
        .iter()
        .map(|l| SelectableItem {
            title: l.to_string(),
            size: None,
            source_label: "idx".to_string(),
        })
        .collect()
}

#[test]
fn selection_ttl_boundaries() {
    let ttl = DEFAULT_SELECTION_TTL_SECS;
    let mut cache = SelectionCache::new(ttl);
    let id = "s1".to_string();
    cache.put(id.clone(), items(&["a"]), 1000);
    // Retrievable one second after creation.
    let got = cache.get(&id, 1001).expect("fresh entry must be found");
    assert_eq!(got.len(), 1);
    assert_eq!(got[0].title, "a");
    // Still there just before the TTL.
    assert!(cache.get(&id, 1000 + ttl - 1).is_some());
    // Gone at exactly creation + TTL, and at any later time.
    assert!(cache.get(&id, 1000 + ttl).is_none());
    assert!(cache.get(&id, 1000 + ttl + 5000).is_none());
}

#[test]
fn take_consumes_exactly_once() {
    let mut cache = SelectionCache::new(900);
    let id = "s2".to_string();
    cache.put(id.clone(), items(&["x", "y"]), 50);
    // Two takes for the same id: exactly one returns the items.
    let first = cache.take(&id, 60);
    let second = cache.take(&id, 60);
    assert!(first.is_some());
    assert_eq!(first.unwrap().len(), 2);
    assert!(second.is_none());
    // And it never resolves again.
    assert!(cache.get(&id, 61).is_none());
}

#[test]
fn get_does_not_consume() {
    let mut cache = SelectionCache::new(900);
    let id = "s3".to_string();
    cache.put(id.clone(), items(&["x"]), 0);
    assert!(cache.get(&id, 1).is_some());
    assert!(cache.get(&id, 2).is_some());
    assert!(cache.take(&id, 3).is_some());
    assert!(cache.get(&id, 4).is_none());
}

#[test]
fn put_overwrites_same_id() {
    let mut cache = SelectionCache::new(900);
    let id = "s4".to_string();
    cache.put(id.clone(), items(&["old"]), 0);
    cache.put(id.clone(), items(&["new", "newer"]), 10);
    let got = cache.get(&id, 11).unwrap();
    assert_eq!(got.len(), 2);
    assert_eq!(got[0].title, "new");
}

#[test]
fn sweep_removes_only_expired() {
    let mut cache = SelectionCache::new(100);
    cache.put("old".to_string(), items(&["a"]), 0);
    cache.put("fresh".to_string(), items(&["b"]), 90);
    cache.sweep_expired(120);
    assert!(cache.get(&"old".to_string(), 120).is_none());
    assert!(cache.get(&"fresh".to_string(), 120).is_some());
}

#[test]
fn distinct_sessions_are_independent() {
    let mut cache = SelectionCache::new(900);
    cache.put("a".to_string(), items(&["1"]), 0);
    cache.put("b".to_string(), items(&["2"]), 0);
    assert!(cache.take(&"a".to_string(), 1).is_some());
    assert!(cache.get(&"b".to_string(), 2).is_some());
}
