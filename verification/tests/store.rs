use leptos_use::storage::{
    ChangeEvent, MemoryStore, StorageArea, StorageScope, StoreError, Subscription,
};

fn area(scope: StorageScope) -> StorageArea {
    StorageArea { scope, context: 1 }
}

fn durable(quota: usize) -> MemoryStore {
    MemoryStore::new(area(StorageScope::Durable), quota)
}

fn text(s: &str) -> String {
    String::from(s)
}

#[test]
fn a_new_store_holds_nothing() {
    let store = durable(100);
    assert_eq!(store.get("k"), None);
    assert_eq!(store.len(), 0);
    assert_eq!(store.used(), 0);
    assert_eq!(store.quota(), 100);
    assert!(store.is_available());
    assert_eq!(store.area(), area(StorageScope::Durable));
}

#[test]
fn a_written_value_is_read_back() {
    let mut store = durable(100);
    assert_eq!(store.set("k", text("v")), Ok(()));
    assert_eq!(store.get("k"), Some(text("v")));
    assert_eq!(store.get("other"), None);
    assert_eq!(store.set("k", text("longer")), Ok(()));
    assert_eq!(store.get("k"), Some(text("longer")));
    assert_eq!(store.len(), 1);
}

#[test]
fn a_write_leaves_the_other_keys_alone() {
    let mut store = durable(100);
    store.set("a", text("1")).unwrap();
    store.set("b", text("2")).unwrap();
    store.set("a", text("3")).unwrap();
    assert_eq!(store.get("a"), Some(text("3")));
    assert_eq!(store.get("b"), Some(text("2")));
    assert_eq!(store.len(), 2);
}

#[test]
fn the_store_counts_the_characters_of_keys_and_values() {
    let mut store = durable(100);
    store.set("key", text("value")).unwrap();
    assert_eq!(store.used(), 8);
    store.set("key", text("v")).unwrap();
    assert_eq!(store.used(), 4);
    store.set("é", text("🎉🎉")).unwrap();
    assert_eq!(store.used(), 7);
    store.remove("key");
    assert_eq!(store.used(), 3);
    store.clear();
    assert_eq!(store.used(), 0);
}

#[test]
fn a_write_beyond_the_quota_is_rejected_and_changes_nothing() {
    let mut store = durable(6);
    assert_eq!(store.set("k", text("12345")), Ok(()));
    assert_eq!(store.set("k", text("123456")), Err(StoreError::QuotaExceeded));
    assert_eq!(store.get("k"), Some(text("12345")));
    assert_eq!(store.set("j", text("")), Err(StoreError::QuotaExceeded));
    assert_eq!(store.get("j"), None);
    assert_eq!(store.used(), 6);
    assert_eq!(store.set("k", text("1")), Ok(()));
    assert_eq!(store.set("j", text("123")), Ok(()));
    assert_eq!(store.used(), 6);
}

#[test]
fn a_store_without_room_rejects_every_write() {
    let mut store = durable(0);
    assert_eq!(store.set("k", text("")), Err(StoreError::QuotaExceeded));
    assert_eq!(store.len(), 0);
}

#[test]
fn a_huge_quota_does_not_overflow() {
    let mut store = durable(usize::MAX);
    assert_eq!(store.set("k", text("v")), Ok(()));
    assert_eq!(store.used(), 2);
}

#[test]
fn an_unavailable_store_fails_gracefully() {
    let mut store = durable(100);
    store.set("k", text("v")).unwrap();
    store.set_available(false);
    assert!(!store.is_available());
    assert_eq!(store.get("k"), None);
    assert_eq!(store.set("k", text("w")), Err(StoreError::Unavailable));
    assert_eq!(store.set("big", "x".repeat(1000)), Err(StoreError::Unavailable));
    store.remove("k");
    store.clear();
    store.set_available(true);
    assert_eq!(store.get("k"), Some(text("v")));
}

#[test]
fn removing_is_idempotent() {
    let mut store = durable(100);
    store.set("k", text("v")).unwrap();
    store.remove("k");
    assert_eq!(store.get("k"), None);
    let feed = store.subscribe();
    store.remove("k");
    store.remove("never there");
    assert_eq!(store.get("k"), None);
    assert_eq!(store.len(), 0);
    assert_eq!(store.subscribe(), feed);
}

#[test]
fn removing_keeps_the_order_of_the_other_keys() {
    let mut store = durable(100);
    store.set("a", text("1")).unwrap();
    store.set("b", text("2")).unwrap();
    store.set("c", text("3")).unwrap();
    store.remove("b");
    let mut feed = store.subscribe();
    store.clear();
    let first = store.next_event(&mut feed).unwrap();
    let second = store.next_event(&mut feed).unwrap();
    assert_eq!(first.key, "a");
    assert_eq!(second.key, "c");
    assert_eq!(store.next_event(&mut feed), None);
}

#[test]
fn clearing_removes_every_key_and_tells_of_each() {
    let mut store = durable(100);
    store.set("a", text("1")).unwrap();
    store.set("b", text("2")).unwrap();
    let mut feed = store.subscribe();
    store.clear();
    assert_eq!(store.get("a"), None);
    assert_eq!(store.get("b"), None);
    assert_eq!(store.len(), 0);
    assert_eq!(
        store.next_event(&mut feed),
        Some(ChangeEvent {
            key: text("a"),
            old_value: Some(text("1")),
            new_value: None,
            storage_area: area(StorageScope::Durable),
        })
    );
    assert_eq!(
        store.next_event(&mut feed),
        Some(ChangeEvent {
            key: text("b"),
            old_value: Some(text("2")),
            new_value: None,
            storage_area: area(StorageScope::Durable),
        })
    );
    assert_eq!(store.next_event(&mut feed), None);
}

#[test]
fn the_feed_tells_of_writes_and_removals() {
    let mut store = durable(100);
    let mut feed = store.subscribe();
    assert_eq!(store.next_event(&mut feed), None);
    store.set("k", text("1")).unwrap();
    store.set("k", text("2")).unwrap();
    store.remove("k");
    assert_eq!(
        store.next_event(&mut feed),
        Some(ChangeEvent {
            key: text("k"),
            old_value: None,
            new_value: Some(text("1")),
            storage_area: area(StorageScope::Durable),
        })
    );
    assert_eq!(
        store.next_event(&mut feed),
        Some(ChangeEvent {
            key: text("k"),
            old_value: Some(text("1")),
            new_value: Some(text("2")),
            storage_area: area(StorageScope::Durable),
        })
    );
    assert_eq!(
        store.next_event(&mut feed),
        Some(ChangeEvent {
            key: text("k"),
            old_value: Some(text("2")),
            new_value: None,
            storage_area: area(StorageScope::Durable),
        })
    );
    assert_eq!(store.next_event(&mut feed), None);
}

#[test]
fn a_rejected_write_tells_nothing() {
    let mut store = durable(1);
    let mut feed = store.subscribe();
    assert_eq!(store.set("k", text("too long")), Err(StoreError::QuotaExceeded));
    store.set_available(false);
    assert_eq!(store.set("k", text("")), Err(StoreError::Unavailable));
    assert_eq!(store.next_event(&mut feed), None);
}

#[test]
fn several_listeners_each_receive_every_change() {
    let mut store = durable(100);
    let mut early = store.subscribe();
    store.set("a", text("1")).unwrap();
    let mut late = store.subscribe();
    store.set("b", text("2")).unwrap();
    assert_eq!(store.next_event(&mut early).unwrap().key, "a");
    assert_eq!(store.next_event(&mut early).unwrap().key, "b");
    assert_eq!(store.next_event(&mut early), None);
    assert_eq!(store.next_event(&mut late).unwrap().key, "b");
    assert_eq!(store.next_event(&mut late), None);
}

#[test]
fn unsubscribing_is_idempotent_and_needs_no_store() {
    let mut store = durable(100);
    let mut feed = store.subscribe();
    store.set("a", text("1")).unwrap();
    feed.unsubscribe();
    assert_eq!(store.next_event(&mut feed), None);
    let once = feed;
    feed.unsubscribe();
    assert_eq!(feed, once);
    assert!(!feed.active);
    drop(store);
    feed.unsubscribe();
    assert_eq!(feed, once);
    let mut never = Subscription { position: 7, active: true };
    never.unsubscribe();
    assert_eq!(never, Subscription { position: 7, active: false });
}

#[test]
fn a_subscription_beyond_the_feed_receives_nothing() {
    let store = durable(100);
    let mut stray = Subscription { position: 5, active: true };
    assert_eq!(store.next_event(&mut stray), None);
    assert_eq!(stray, Subscription { position: 5, active: true });
}

#[test]
fn the_end_of_the_session_empties_a_session_store_only() {
    let mut session = MemoryStore::new(area(StorageScope::Session), 100);
    let mut kept = durable(100);
    session.set("k", text("v")).unwrap();
    kept.set("k", text("v")).unwrap();
    session.end_session();
    kept.end_session();
    assert_eq!(session.get("k"), None);
    assert_eq!(session.used(), 0);
    assert_eq!(kept.get("k"), Some(text("v")));
    assert_eq!(kept.used(), 2);
}

#[test]
fn the_empty_key_and_the_empty_value_are_stored_like_any_other() {
    let mut store = durable(10);
    assert_eq!(store.set("", text("")), Ok(()));
    assert_eq!(store.get(""), Some(text("")));
    assert_eq!(store.len(), 1);
    assert_eq!(store.used(), 0);
}

#[test]
fn an_exception_is_told_apart_by_its_name() {
    assert_eq!(StoreError::of_exception("QuotaExceededError"), StoreError::QuotaExceeded);
    assert_eq!(StoreError::of_exception("SecurityError"), StoreError::Unavailable);
    assert_eq!(StoreError::of_exception("quotaexceedederror"), StoreError::Unavailable);
    assert_eq!(StoreError::of_exception(""), StoreError::Unavailable);
}
