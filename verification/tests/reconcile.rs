use stream_cache::ApplyMode;
use stream_cache::SourceEvent;
use stream_cache::StreamCache;

fn update(key: &str, value: u64) -> SourceEvent {
    SourceEvent::Update(key.to_string(), value)
}

fn snapshot(entries: &[(&str, u64)]) -> SourceEvent {
    SourceEvent::Snapshot(entries.iter().map(|(k, v)| (k.to_string(), *v)).collect())
}

#[test]
fn works() {
    // The fetch is delayed until after the subscription has emitted, so the
    // snapshot arrives last; its entry for Paris must not overwrite the
    // fresher subscription value.
    let mut cache = StreamCache::new();
    cache.apply_events(vec![
        update("London", 27),
        update("Paris", 32),
        SourceEvent::UpdateFailed,
        snapshot(&[("Berlin", 29), ("Paris", 31)]),
    ]);

    assert_eq!(cache.get("Berlin"), Some(29));
    assert_eq!(cache.get("London"), Some(27));
    assert_eq!(cache.get("Paris"), Some(32));
}

#[test]
fn test_subscription_error_handling() {
    // The fetch fails entirely; the cache degrades to subscription-only data
    // and the failed subscription item changes nothing.
    let mut cache = StreamCache::new();
    cache.apply_events(vec![
        SourceEvent::FetchFailed,
        update("London", 27),
        update("Paris", 32),
        SourceEvent::UpdateFailed,
    ]);

    assert_eq!(cache.get("London"), Some(27));
    assert_eq!(cache.get("Paris"), Some(32));

    assert_eq!(cache.get("London"), Some(27));
}

#[test]
fn test_missing_keys() {
    let cache = StreamCache::new();
    assert_eq!(cache.get("NotExist"), None);
}

#[test]
fn test_initial_state() {
    let cache = StreamCache::new();
    assert_eq!(cache.get("Berlin"), None);
    assert_eq!(cache.get("London"), None);
    assert_eq!(cache.get("Paris"), None);
}

#[test]
fn unproduced_key_stays_absent() {
    let mut cache = StreamCache::new();
    cache.apply_events(vec![
        update("London", 27),
        snapshot(&[("Berlin", 29)]),
        SourceEvent::UpdateFailed,
    ]);
    assert_eq!(cache.get("NotExist"), None);
    assert_eq!(cache.get("Lond"), None);
}

#[test]
fn insert_if_absent_keeps_existing_entry() {
    let mut cache = StreamCache::new();
    cache.apply("Oslo".to_string(), 5, ApplyMode::Overwrite);
    cache.apply("Oslo".to_string(), 9, ApplyMode::InsertIfAbsent);
    assert_eq!(cache.get("Oslo"), Some(5));
}

#[test]
fn insert_if_absent_fills_missing_entry() {
    let mut cache = StreamCache::new();
    cache.apply("Oslo".to_string(), 9, ApplyMode::InsertIfAbsent);
    assert_eq!(cache.get("Oslo"), Some(9));
}

#[test]
fn overwrite_replaces_existing_entry() {
    let mut cache = StreamCache::new();
    cache.apply("Oslo".to_string(), 5, ApplyMode::Overwrite);
    cache.apply("Oslo".to_string(), 9, ApplyMode::Overwrite);
    assert_eq!(cache.get("Oslo"), Some(9));
}

#[test]
fn subscription_wins_when_snapshot_arrives_first() {
    let mut cache = StreamCache::new();
    cache.apply_events(vec![snapshot(&[("Paris", 31)]), update("Paris", 32)]);
    assert_eq!(cache.get("Paris"), Some(32));
}

#[test]
fn subscription_wins_when_snapshot_arrives_last() {
    let mut cache = StreamCache::new();
    cache.apply_events(vec![update("Paris", 32), snapshot(&[("Paris", 31)])]);
    assert_eq!(cache.get("Paris"), Some(32));
}

#[test]
fn last_subscription_update_wins() {
    let mut cache = StreamCache::new();
    cache.apply_events(vec![update("Paris", 30), update("Paris", 32)]);
    assert_eq!(cache.get("Paris"), Some(32));
}

#[test]
fn failed_item_does_not_drop_later_items() {
    let mut cache = StreamCache::new();
    cache.apply_events(vec![
        update("London", 27),
        SourceEvent::UpdateFailed,
        update("Paris", 32),
    ]);
    assert_eq!(cache.get("London"), Some(27));
    assert_eq!(cache.get("Paris"), Some(32));
}

#[test]
fn fetch_failure_contributes_nothing() {
    let mut cache = StreamCache::new();
    cache.apply_event(SourceEvent::FetchFailed);
    assert_eq!(cache.get("Berlin"), None);
}

#[test]
fn empty_snapshot_changes_nothing() {
    let mut cache = StreamCache::new();
    cache.apply_events(vec![update("London", 27), snapshot(&[])]);
    assert_eq!(cache.get("London"), Some(27));
    assert_eq!(cache.get("Berlin"), None);
}

#[test]
fn snapshot_first_entry_wins_on_duplicate_key() {
    let mut cache = StreamCache::new();
    cache.apply_event(snapshot(&[("Berlin", 29), ("Berlin", 30)]));
    assert_eq!(cache.get("Berlin"), Some(29));
}

#[test]
fn snapshot_fills_only_missing_keys() {
    let mut cache = StreamCache::new();
    cache.apply_events(vec![
        update("Paris", 32),
        snapshot(&[("Berlin", 29), ("Paris", 31), ("Madrid", 24)]),
    ]);
    assert_eq!(cache.get("Berlin"), Some(29));
    assert_eq!(cache.get("Madrid"), Some(24));
    assert_eq!(cache.get("Paris"), Some(32));
}
