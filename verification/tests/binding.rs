use leptos_use::storage::{
    BoundCell, Codec, CodecError, MemoryStore, StorageArea, StorageError, StorageOptions,
    StorageScope, StoreError, StringCodec, Text,
};

/// A codec for numbers that has no text for the negative ones.
struct Natural;

impl Codec<i32> for Natural {
    fn encoded(&self, _value: i32) -> Result<Text, CodecError> {
        Err(CodecError::Empty)
    }

    fn decoded(&self, _raw: Text) -> Result<i32, CodecError> {
        Err(CodecError::Empty)
    }

    fn lemma_round_trip(&self, _value: i32) {}

    fn encode(&self, value: &i32) -> Result<String, CodecError> {
        if *value < 0 {
            Err(CodecError::Custom(String::from("negative")))
        } else {
            StringCodec.encode(value)
        }
    }

    fn decode(&self, raw: String) -> Result<i32, CodecError> {
        StringCodec.decode(raw)
    }
}

fn medium(quota: usize) -> MemoryStore {
    MemoryStore::new(StorageArea { scope: StorageScope::Durable, context: 1 }, quota)
}

fn bind(
    store: &mut MemoryStore,
    default_value: i32,
    options: StorageOptions,
) -> (BoundCell<i32, StringCodec>, Option<StorageError>) {
    BoundCell::bind(store, String::from("k"), StringCodec, default_value, options)
}

#[test]
fn binding_to_an_empty_medium_yields_the_default_and_persists_it() {
    let mut store = medium(100);
    let (cell, error) = bind(&mut store, 0, StorageOptions::default());
    assert_eq!(*cell.get(), 0);
    assert_eq!(error, None);
    assert_eq!(store.get("k"), Some(String::from("0")));
    assert_eq!(cell.key(), "k");
}

#[test]
fn binding_to_an_empty_medium_writes_nothing_when_told_so() {
    let mut store = medium(100);
    let options = StorageOptions::default().write_default_if_missing(false);
    let (cell, error) = bind(&mut store, 0, options);
    assert_eq!(*cell.get(), 0);
    assert_eq!(error, None);
    assert_eq!(store.get("k"), None);
    assert_eq!(store.len(), 0);
}

#[test]
fn binding_takes_up_what_the_medium_holds() {
    let mut store = medium(100);
    store.set("k", String::from("-12")).unwrap();
    let (cell, error) = bind(&mut store, 0, StorageOptions::default());
    assert_eq!(*cell.get(), -12);
    assert_eq!(error, None);
    assert_eq!(store.get("k"), Some(String::from("-12")));
}

#[test]
fn setting_is_seen_at_once_and_persisted() {
    let mut store = medium(100);
    let (mut cell, _) = bind(&mut store, 0, StorageOptions::default());
    assert_eq!(cell.set(&mut store, 42), None);
    assert_eq!(*cell.get(), 42);
    assert_eq!(store.get("k"), Some(String::from("42")));
}

#[test]
fn corrupt_data_yields_the_default_and_one_error() {
    let mut store = medium(100);
    store.set("k", String::from("not-a-number")).unwrap();
    let (cell, error) = bind(&mut store, 0, StorageOptions::default());
    assert_eq!(*cell.get(), 0);
    assert_eq!(error, Some(StorageError::Codec(CodecError::InvalidDigit)));
    assert_eq!(store.get("k"), Some(String::from("not-a-number")));
}

#[test]
fn removing_resets_the_value_and_empties_the_key() {
    let mut store = medium(100);
    let (mut cell, _) = bind(&mut store, 7, StorageOptions::default());
    cell.set(&mut store, 42);
    cell.remove(&mut store);
    assert_eq!(*cell.get(), 7);
    assert_eq!(store.get("k"), None);
    cell.remove(&mut store);
    assert_eq!(*cell.get(), 7);
    assert_eq!(store.get("k"), None);
}

#[test]
fn a_write_over_the_quota_keeps_the_value_and_reports_the_quota() {
    let mut store = medium(3);
    let (mut cell, error) = bind(&mut store, 0, StorageOptions::default());
    assert_eq!(error, None);
    let error = cell.set(&mut store, 123456);
    assert_eq!(error, Some(StorageError::Store(StoreError::QuotaExceeded)));
    assert_eq!(*cell.get(), 123456);
    assert_eq!(store.get("k"), Some(String::from("0")));
}

#[test]
fn a_default_over_the_quota_is_reported_on_binding() {
    let mut store = medium(1);
    let (cell, error) = bind(&mut store, 0, StorageOptions::default());
    assert_eq!(error, Some(StorageError::Store(StoreError::QuotaExceeded)));
    assert_eq!(*cell.get(), 0);
    assert_eq!(store.get("k"), None);
}

#[test]
fn an_unavailable_medium_leaves_a_cell_that_works_in_memory() {
    let mut store = medium(100);
    store.set("k", String::from("5")).unwrap();
    store.set_available(false);
    let (mut cell, error) = bind(&mut store, 1, StorageOptions::default());
    assert_eq!(*cell.get(), 1);
    assert_eq!(error, Some(StorageError::Store(StoreError::Unavailable)));
    let error = cell.set(&mut store, 2);
    assert_eq!(error, Some(StorageError::Store(StoreError::Unavailable)));
    assert_eq!(*cell.get(), 2);
    cell.remove(&mut store);
    assert_eq!(*cell.get(), 1);
    store.set_available(true);
    assert_eq!(store.get("k"), Some(String::from("5")));
}

#[test]
fn an_unavailable_medium_is_not_reported_where_nothing_is_written() {
    let mut store = medium(100);
    store.set_available(false);
    let options = StorageOptions::default().write_default_if_missing(false);
    let (cell, error) = bind(&mut store, 1, options);
    assert_eq!(*cell.get(), 1);
    assert_eq!(error, None);
}

#[test]
fn a_value_without_text_is_kept_and_not_persisted() {
    let mut store = medium(100);
    let (mut cell, error) = BoundCell::bind(
        &mut store,
        String::from("k"),
        Natural,
        0,
        StorageOptions::default(),
    );
    assert_eq!(error, None);
    let error = cell.set(&mut store, -3);
    assert_eq!(error, Some(StorageError::Codec(CodecError::Custom(String::from("negative")))));
    assert_eq!(*cell.get(), -3);
    assert_eq!(store.get("k"), Some(String::from("0")));
}

#[test]
fn two_cells_of_one_key_follow_each_other() {
    let mut store = medium(100);
    let (mut first, _) = bind(&mut store, 0, StorageOptions::default());
    let (mut second, _) = bind(&mut store, 0, StorageOptions::default());
    assert!(first.is_listening());
    first.set(&mut store, 99);
    assert_eq!(*second.get(), 0);
    let outcome = second.poll(&store).unwrap();
    assert!(outcome.changed);
    assert_eq!(outcome.error, None);
    assert_eq!(*second.get(), 99);
    assert_eq!(second.poll(&store), None);
    second.remove(&mut store);
    assert!(first.poll(&store).unwrap().changed);
    assert!(first.poll(&store).unwrap().changed);
    assert_eq!(*first.get(), 0);
    assert_eq!(first.poll(&store), None);
}

#[test]
fn a_cell_does_not_see_the_write_of_its_own_default() {
    let mut store = medium(100);
    let (mut cell, _) = bind(&mut store, 0, StorageOptions::default());
    assert_eq!(store.get("k"), Some(String::from("0")));
    assert_eq!(cell.poll(&store), None);
}

#[test]
fn a_cell_that_does_not_listen_takes_up_no_change() {
    let mut store = medium(100);
    let options = StorageOptions::default().listen_to_storage_changes(false);
    let (mut deaf, _) = bind(&mut store, 0, options);
    assert!(!deaf.is_listening());
    store.set("k", String::from("99")).unwrap();
    assert_eq!(deaf.poll(&store), None);
    assert_eq!(*deaf.get(), 0);
}

#[test]
fn a_filtering_cell_passes_over_the_echo_of_its_own_write() {
    let mut store = medium(100);
    let options = StorageOptions::default().filter_self_events(true);
    let (mut cell, _) = bind(&mut store, 0, options);
    cell.set(&mut store, 5);
    let outcome = cell.poll(&store).unwrap();
    assert!(!outcome.changed);
    assert_eq!(*cell.get(), 5);
}

#[test]
fn a_change_to_another_key_reaches_the_cell_and_changes_nothing() {
    let mut store = medium(100);
    let (mut cell, _) = bind(&mut store, 4, StorageOptions::default());
    store.set("other", String::from("99")).unwrap();
    let outcome = cell.poll(&store).unwrap();
    assert!(!outcome.changed);
    assert_eq!(outcome.error, None);
    assert_eq!(*cell.get(), 4);
}

#[test]
fn a_corrupt_change_in_the_feed_is_reported_and_changes_nothing() {
    let mut store = medium(100);
    let (mut cell, _) = bind(&mut store, 4, StorageOptions::default());
    store.set("k", String::from("four")).unwrap();
    let outcome = cell.poll(&store).unwrap();
    assert!(!outcome.changed);
    assert_eq!(outcome.error, Some(StorageError::Codec(CodecError::InvalidDigit)));
    assert_eq!(*cell.get(), 4);
}

#[test]
fn clearing_the_medium_resets_a_listening_cell() {
    let mut store = medium(100);
    let (mut cell, _) = bind(&mut store, 4, StorageOptions::default());
    cell.set(&mut store, 9);
    store.clear();
    while cell.poll(&store).is_some() {}
    assert_eq!(*cell.get(), 4);
}

#[test]
fn a_cell_that_has_unsubscribed_takes_up_no_change() {
    let mut store = medium(100);
    let (mut cell, _) = bind(&mut store, 0, StorageOptions::default());
    cell.unsubscribe();
    cell.unsubscribe();
    assert!(!cell.is_listening());
    store.set("k", String::from("99")).unwrap();
    assert_eq!(cell.poll(&store), None);
    assert_eq!(*cell.get(), 0);
    drop(store);
    cell.unsubscribe();
    assert_eq!(*cell.get(), 0);
}
