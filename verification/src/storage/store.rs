//! The persistent medium: a store of text under text keys, with a quota and a
//! feed of the changes made to it.

use vstd::prelude::*;
use crate::storage::codec::Text;

verus! {

/// Why the medium rejected an operation.
#[derive(Clone, Copy, Debug, PartialEq, Eq, Structural)]
pub enum StoreError {
    /// The medium has no room for the write.
    QuotaExceeded,
    /// The medium cannot be reached.
    Unavailable,
}

impl StoreError {
    /// The rejection that the exception named `name` stands for, raised by a
    /// medium on a write: its quota where the name says so, and otherwise a
    /// medium that cannot be reached.
    pub fn of_exception(name: &str) -> (error: StoreError)
        ensures
            error == (if name@ == "QuotaExceededError"@ {
                StoreError::QuotaExceeded
            } else {
                StoreError::Unavailable
            }),
    {
        if name.to_owned() == "QuotaExceededError".to_owned() {
            StoreError::QuotaExceeded
        } else {
            StoreError::Unavailable
        }
    }
}

/// How long a medium keeps what it holds.
#[derive(Clone, Copy, Debug, PartialEq, Eq, Structural)]
pub enum StorageScope {
    /// Emptied when the session ends.
    Session,
    /// Kept across sessions.
    Durable,
}

/// The identity of a storage area: a medium as one context holds it. Every
/// change event names the area through which the change was made.
#[derive(Clone, Copy, Debug, PartialEq, Eq, Structural)]
pub struct StorageArea {
    pub scope: StorageScope,
    pub context: u64,
}

/// A notice that the text under one key was written or removed.
#[derive(Debug, PartialEq, Eq)]
pub struct ChangeEvent {
    pub key: String,
    pub old_value: Option<String>,
    pub new_value: Option<String>,
    pub storage_area: StorageArea,
}

/// What a change event says, over sequences of characters.
pub struct ChangeEventView {
    pub key: Text,
    pub old_value: Option<Text>,
    pub new_value: Option<Text>,
    pub storage_area: StorageArea,
}

/// The characters of an optional text.
pub open spec fn text_view(text: Option<String>) -> Option<Text> {
    match text {
        Some(s) => Some(s@),
        None => None,
    }
}

/// Copies an optional text.
fn clone_text(text: &Option<String>) -> (copy: Option<String>)
    ensures
        text_view(copy) == text_view(*text),
{
    match text {
        Some(s) => Some(s.clone()),
        None => None,
    }
}

impl View for ChangeEvent {
    type V = ChangeEventView;

    open spec fn view(&self) -> ChangeEventView {
        ChangeEventView {
            key: self.key@,
            old_value: text_view(self.old_value),
            new_value: text_view(self.new_value),
            storage_area: self.storage_area,
        }
    }
}

impl Clone for ChangeEvent {
    fn clone(&self) -> (copy: Self)
        ensures
            copy@ == self@,
    {
        ChangeEvent {
            key: self.key.clone(),
            old_value: clone_text(&self.old_value),
            new_value: clone_text(&self.new_value),
            storage_area: self.storage_area,
        }
    }
}

/// Where `key` stands in `keys`.
pub open spec fn position(keys: Seq<Text>, key: Text) -> int {
    choose|i: int| 0 <= i < keys.len() && keys[i] == key
}

/// Whether no key stands twice in `keys`.
pub open spec fn distinct(keys: Seq<Text>) -> bool {
    forall|i: int, j: int| 0 <= i < j < keys.len() ==> keys[i] != keys[j]
}

/// The characters that the first `n` entries take: those of their keys and of
/// their values.
pub open spec fn stored_size(keys: Seq<Text>, values: Seq<Text>, n: int) -> nat
    decreases n,
{
    if n <= 0 {
        0
    } else {
        stored_size(keys, values, n - 1) + keys[n - 1].len() + values[n - 1].len()
    }
}

/// What a medium holds at one moment: its entries in the order in which their
/// keys were first written, and every change made so far.
pub struct StoreState {
    pub area: StorageArea,
    pub available: bool,
    pub quota: nat,
    pub keys: Seq<Text>,
    pub values: Seq<Text>,
    pub events: Seq<ChangeEventView>,
}

impl StoreState {
    /// A reachable state: one value for each key, no key twice, and no more
    /// stored than the quota allows.
    pub open spec fn valid(self) -> bool {
        &&& self.keys.len() == self.values.len()
        &&& distinct(self.keys)
        &&& self.used() <= self.quota
    }

    /// An available medium that holds nothing.
    pub open spec fn empty(area: StorageArea, quota: nat) -> StoreState {
        StoreState {
            area,
            available: true,
            quota,
            keys: Seq::empty(),
            values: Seq::empty(),
            events: Seq::empty(),
        }
    }

    /// Whether an entry stands under `key`.
    pub open spec fn contains(self, key: Text) -> bool {
        exists|i: int| 0 <= i < self.keys.len() && self.keys[i] == key
    }

    /// The text stored under `key`, whether or not the medium can be reached.
    pub open spec fn stored(self, key: Text) -> Option<Text> {
        if self.contains(key) {
            Some(self.values[position(self.keys, key)])
        } else {
            None
        }
    }

    /// What a read of `key` returns: the stored text, or nothing where there
    /// is none or the medium cannot be reached.
    pub open spec fn get(self, key: Text) -> Option<Text> {
        if self.available {
            self.stored(key)
        } else {
            None
        }
    }

    /// The characters that all entries take.
    pub open spec fn used(self) -> nat {
        stored_size(self.keys, self.values, self.keys.len() as int)
    }

    /// The characters that the entry under `key` takes.
    pub open spec fn entry_size(self, key: Text) -> nat {
        match self.stored(key) {
            Some(value) => key.len() + value.len(),
            None => 0,
        }
    }

    /// The characters that all entries take once `value` stands under `key`.
    pub open spec fn used_with(self, key: Text, value: Text) -> int {
        self.used() - self.entry_size(key) + key.len() + value.len()
    }

    /// Whether the medium accepts `value` under `key`.
    pub open spec fn set_result(self, key: Text, value: Text) -> Result<(), StoreError> {
        if !self.available {
            Err(StoreError::Unavailable)
        } else if self.used_with(key, value) > self.quota {
            Err(StoreError::QuotaExceeded)
        } else {
            Ok(())
        }
    }

    /// The state after an accepted write of `value` under `key`.
    pub open spec fn after_set(self, key: Text, value: Text) -> StoreState {
        let event = ChangeEventView {
            key,
            old_value: self.stored(key),
            new_value: Some(value),
            storage_area: self.area,
        };
        if self.contains(key) {
            StoreState {
                values: self.values.update(position(self.keys, key), value),
                events: self.events.push(event),
                ..self
            }
        } else {
            StoreState {
                keys: self.keys.push(key),
                values: self.values.push(value),
                events: self.events.push(event),
                ..self
            }
        }
    }

    /// The state after a write of `value` under `key`, accepted or not.
    pub open spec fn try_set(self, key: Text, value: Text) -> StoreState {
        match self.set_result(key, value) {
            Ok(_) => self.after_set(key, value),
            Err(_) => self,
        }
    }

    /// The state after removing `key`: unchanged where the medium cannot be
    /// reached or holds nothing under `key`.
    pub open spec fn after_remove(self, key: Text) -> StoreState {
        if self.available && self.contains(key) {
            let at = position(self.keys, key);
            StoreState {
                keys: self.keys.remove(at),
                values: self.values.remove(at),
                events: self.events.push(
                    ChangeEventView {
                        key,
                        old_value: Some(self.values[at]),
                        new_value: None,
                        storage_area: self.area,
                    },
                ),
                ..self
            }
        } else {
            self
        }
    }

    /// The notice that the entry at `at` was removed.
    pub open spec fn removal(self, at: int) -> ChangeEventView {
        ChangeEventView {
            key: self.keys[at],
            old_value: Some(self.values[at]),
            new_value: None,
            storage_area: self.area,
        }
    }

    /// The state after removing every entry, each with its notice, in the
    /// order of the keys: unchanged where the medium cannot be reached.
    pub open spec fn after_clear(self) -> StoreState {
        if self.available {
            StoreState {
                keys: Seq::empty(),
                values: Seq::empty(),
                events: self.events + Seq::new(self.keys.len(), |at: int| self.removal(at)),
                ..self
            }
        } else {
            self
        }
    }

    /// The state after the session has ended: a session medium holds nothing
    /// any more, a durable one what it held.
    pub open spec fn after_session(self) -> StoreState {
        match self.area.scope {
            StorageScope::Session => StoreState {
                keys: Seq::empty(),
                values: Seq::empty(),
                ..self
            },
            StorageScope::Durable => self,
        }
    }
}

/// In a list of distinct keys, a key stands where it is found.
pub proof fn lemma_position(keys: Seq<Text>, at: int)
    requires
        distinct(keys),
        0 <= at < keys.len(),
    ensures
        position(keys, keys[at]) == at,
{
    let found = position(keys, keys[at]);
    assert(0 <= found < keys.len() && keys[found] == keys[at]);
    if found < at {
        assert(keys[found] != keys[at]);
    } else if at < found {
        assert(keys[at] != keys[found]);
    }
}

/// The size of the first `n` entries depends on those entries alone.
proof fn lemma_size_agrees(
    keys: Seq<Text>,
    values: Seq<Text>,
    other_keys: Seq<Text>,
    other_values: Seq<Text>,
    n: int,
)
    requires
        forall|i: int| 0 <= i < n ==> keys[i] == other_keys[i] && values[i] == other_values[i],
    ensures
        stored_size(keys, values, n) == stored_size(other_keys, other_values, n),
    decreases n,
{
    if n > 0 {
        lemma_size_agrees(keys, values, other_keys, other_values, n - 1);
    }
}

/// A new value at `at` changes the size by the difference of the two values.
proof fn lemma_size_update(
    keys: Seq<Text>,
    values: Seq<Text>,
    at: int,
    value: Text,
    n: int,
)
    requires
        0 <= at < values.len(),
        0 <= n <= values.len(),
    ensures
        stored_size(keys, values.update(at, value), n) == stored_size(keys, values, n) + (if at
            < n {
            value.len() - values[at].len()
        } else {
            0int
        }),
    decreases n,
{
    if n > 0 {
        lemma_size_update(keys, values, at, value, n - 1);
    }
}

/// Without the entry at `at`, the size is smaller by that entry.
proof fn lemma_size_remove(keys: Seq<Text>, values: Seq<Text>, at: int, n: int)
    requires
        keys.len() == values.len(),
        0 <= at < keys.len(),
        0 <= n < keys.len(),
    ensures
        stored_size(keys.remove(at), values.remove(at), n) == (if n <= at {
            stored_size(keys, values, n) as int
        } else {
            stored_size(keys, values, n + 1) - keys[at].len() - values[at].len()
        }),
    decreases n,
{
    if n > 0 {
        lemma_size_remove(keys, values, at, n - 1);
        if n - 1 < at {
            assert(keys.remove(at)[n - 1] == keys[n - 1]);
            assert(values.remove(at)[n - 1] == values[n - 1]);
        } else {
            assert(keys.remove(at)[n - 1] == keys[n]);
            assert(values.remove(at)[n - 1] == values[n]);
            assert(stored_size(keys, values, n + 1) == stored_size(keys, values, n)
                + keys[n].len() + values[n].len());
            if n - 1 == at {
                assert(stored_size(keys, values, n) == stored_size(keys, values, n - 1)
                    + keys[at].len() + values[at].len());
            }
        }
    }
}

/// One entry takes no more than all the entries together.
proof fn lemma_size_holds_entry(keys: Seq<Text>, values: Seq<Text>, at: int, n: int)
    requires
        0 <= at < n,
    ensures
        keys[at].len() + values[at].len() <= stored_size(keys, values, n),
    decreases n,
{
    if at < n - 1 {
        lemma_size_holds_entry(keys, values, at, n - 1);
    }
}

/// After an accepted write the medium holds the value under the key, and
/// under every other key what it held before.
pub proof fn lemma_set_then_stored(state: StoreState, key: Text, value: Text)
    requires
        state.valid(),
    ensures
        state.after_set(key, value).used() == state.used_with(key, value),
        state.set_result(key, value) is Ok ==> state.after_set(key, value).valid(),
        state.after_set(key, value).stored(key) == Some(value),
        forall|other: Text|
            other != key ==> #[trigger] state.after_set(key, value).stored(other) == state.stored(
                other,
            ),
{
    let after = state.after_set(key, value);
    let n = state.keys.len() as int;
    if state.contains(key) {
        let at = position(state.keys, key);
        lemma_size_update(state.keys, state.values, at, value, n);
        assert(after.keys[at] == key);
        assert forall|other: Text| other != key implies #[trigger] after.stored(other)
            == state.stored(other) by {
            if state.contains(other) {
                assert(after.contains(other));
            }
        }
    } else {
        lemma_size_agrees(state.keys, state.values, after.keys, after.values, n);
        assert(after.keys[n] == key);
        lemma_position(after.keys, n);
        assert forall|other: Text| other != key implies #[trigger] after.stored(other)
            == state.stored(other) by {
            if state.contains(other) {
                let at = position(state.keys, other);
                assert(after.keys[at] == other);
                lemma_position(after.keys, at);
            } else if after.contains(other) {
                let at = position(after.keys, other);
                assert(state.keys[at] == other);
            }
        }
    }
}

/// After a removal the medium holds nothing under the key, and under every
/// other key what it held before.
pub proof fn lemma_remove_then_stored(state: StoreState, key: Text)
    requires
        state.valid(),
    ensures
        state.after_remove(key).valid(),
        state.after_remove(key).used() == state.used() - (if state.available {
            state.entry_size(key)
        } else {
            0
        }),
        state.after_remove(key).get(key) is None,
        forall|other: Text|
            other != key ==> #[trigger] state.after_remove(key).stored(other) == state.stored(
                other,
            ),
{
    let after = state.after_remove(key);
    if state.available && state.contains(key) {
        let at = position(state.keys, key);
        let n = state.keys.len() as int;
        lemma_size_remove(state.keys, state.values, at, n - 1);
        lemma_size_holds_entry(state.keys, state.values, at, n);
        assert forall|i: int, j: int| 0 <= i < j < after.keys.len() implies after.keys[i]
            != after.keys[j] by {
            let from_i = if i < at {
                i
            } else {
                i + 1
            };
            let from_j = if j < at {
                j
            } else {
                j + 1
            };
            assert(after.keys[i] == state.keys[from_i]);
            assert(after.keys[j] == state.keys[from_j]);
        }
        assert(!after.contains(key)) by {
            if after.contains(key) {
                let i = position(after.keys, key);
                let from = if i < at {
                    i
                } else {
                    i + 1
                };
                assert(state.keys[from] == key);
                lemma_position(state.keys, from);
            }
        }
        assert forall|other: Text| other != key implies #[trigger] after.stored(other)
            == state.stored(other) by {
            if state.contains(other) {
                let from = position(state.keys, other);
                let to = if from < at {
                    from
                } else {
                    from - 1
                };
                assert(after.keys[to] == other);
                lemma_position(after.keys, to);
            } else if after.contains(other) {
                let i = position(after.keys, other);
                let from = if i < at {
                    i
                } else {
                    i + 1
                };
                assert(state.keys[from] == other);
            }
        }
    }
}

/// Removing a key a second time changes nothing.
pub proof fn lemma_remove_twice(state: StoreState, key: Text)
    requires
        state.valid(),
    ensures
        state.after_remove(key).after_remove(key) == state.after_remove(key),
{
    lemma_remove_then_stored(state, key);
}

/// After a clearing the medium holds nothing under any key.
pub proof fn lemma_clear_then_stored(state: StoreState, key: Text)
    requires
        state.valid(),
    ensures
        state.after_clear().valid(),
        state.after_clear().get(key) is None,
{
}

/// A medium held in memory.
pub struct MemoryStore {
    area: StorageArea,
    available: bool,
    quota: usize,
    used: usize,
    keys: Vec<String>,
    values: Vec<String>,
    log: Vec<ChangeEvent>,
}

impl View for MemoryStore {
    type V = StoreState;

    closed spec fn view(&self) -> StoreState {
        StoreState {
            area: self.area,
            available: self.available,
            quota: self.quota as nat,
            keys: Seq::new(self.keys@.len(), |i: int| self.keys@[i]@),
            values: Seq::new(self.values@.len(), |i: int| self.values@[i]@),
            events: Seq::new(self.log@.len(), |i: int| self.log@[i]@),
        }
    }
}

impl MemoryStore {
    /// Whether the store keeps the right count of what it holds.
    pub closed spec fn counted(&self) -> bool {
        self.used == self@.used()
    }

    /// Whether the store is in a reachable state and counts what it holds.
    pub open spec fn well_formed(&self) -> bool {
        &&& self@.valid()
        &&& self.counted()
    }

    /// An available medium that holds nothing and takes `quota` characters.
    pub fn new(area: StorageArea, quota: usize) -> (store: MemoryStore)
        ensures
            store.well_formed(),
            store@ == StoreState::empty(area, quota as nat),
    {
        let store = MemoryStore {
            area,
            available: true,
            quota,
            used: 0,
            keys: Vec::new(),
            values: Vec::new(),
            log: Vec::new(),
        };
        assert(store@.keys =~= Seq::empty());
        assert(store@.values =~= Seq::empty());
        assert(store@.events =~= Seq::empty());
        store
    }

    /// Where the entry under `key` stands among the entries.
    fn find(&self, key: &String) -> (found: Option<usize>)
        requires
            self.well_formed(),
        ensures
            match found {
                Some(at) => self@.contains(key@) && at == position(self@.keys, key@) && at
                    < self.keys@.len(),
                None => !self@.contains(key@),
            },
    {
        let mut at: usize = 0;
        while at < self.keys.len()
            invariant
                at <= self.keys@.len(),
                self.well_formed(),
                forall|i: int| 0 <= i < at ==> self@.keys[i] != key@,
            decreases self.keys@.len() - at,
        {
            if self.keys[at] == *key {
                proof {
                    assert(self@.keys[at as int] == key@);
                    lemma_position(self@.keys, at as int);
                }
                return Some(at);
            }
            at += 1;
        }
        None
    }

    /// Reads the text under `key`.
    pub fn get(&self, key: &str) -> (value: Option<String>)
        requires
            self.well_formed(),
        ensures
            text_view(value) == self@.get(key@),
    {
        if !self.available {
            return None;
        }
        let owned = key.to_owned();
        match self.find(&owned) {
            Some(at) => Some(self.values[at].clone()),
            None => None,
        }
    }

    /// Stores `value` under `key` and tells the feed, unless the medium cannot
    /// be reached or has no room.
    pub fn set(&mut self, key: &str, value: String) -> (result: Result<(), StoreError>)
        requires
            old(self).well_formed(),
        ensures
            final(self).well_formed(),
            result == old(self)@.set_result(key@, value@),
            final(self)@ == old(self)@.try_set(key@, value@),
            result is Ok ==> final(self)@.used() == old(self)@.used_with(key@, value@),
    {
        if !self.available {
            return Err(StoreError::Unavailable);
        }
        let ghost before = self@;
        let owned = key.to_owned();
        let found = self.find(&owned);
        let key_size = owned.as_str().unicode_len();
        let value_size = value.as_str().unicode_len();
        let freed: usize = match found {
            Some(at) => {
                proof {
                    lemma_size_holds_entry(
                        before.keys,
                        before.values,
                        at as int,
                        before.keys.len() as int,
                    );
                }
                self.keys[at].as_str().unicode_len() + self.values[at].as_str().unicode_len()
            },
            None => 0,
        };
        let room = self.quota - (self.used - freed);
        if key_size > room || value_size > room - key_size {
            return Err(StoreError::QuotaExceeded);
        }
        let old_value = match found {
            Some(at) => Some(self.values[at].clone()),
            None => None,
        };
        let event = ChangeEvent {
            key: owned.clone(),
            old_value,
            new_value: Some(value.clone()),
            storage_area: self.area,
        };
        match found {
            Some(at) => {
                self.values.set(at, value);
                proof {
                    lemma_size_update(
                        before.keys,
                        before.values,
                        at as int,
                        value@,
                        before.keys.len() as int,
                    );
                }
            },
            None => {
                self.keys.push(owned);
                self.values.push(value);
                proof {
                    lemma_size_agrees(
                        before.keys,
                        before.values,
                        before.keys.push(key@),
                        before.values.push(value@),
                        before.keys.len() as int,
                    );
                }
            },
        }
        self.used = self.used - freed + key_size + value_size;
        self.log.push(event);
        proof {
            let after = before.after_set(key@, value@);
            assert(self@.keys =~= after.keys);
            assert(self@.values =~= after.values);
            assert(self@.events =~= after.events);
        }
        Ok(())
    }

    /// Removes the entry under `key`, if the medium holds one, and tells the
    /// feed.
    pub fn remove(&mut self, key: &str)
        requires
            old(self).well_formed(),
        ensures
            final(self).well_formed(),
            final(self)@ == old(self)@.after_remove(key@),
            final(self)@.used() == old(self)@.used() - (if old(self)@.available {
                old(self)@.entry_size(key@)
            } else {
                0
            }),
    {
        proof {
            lemma_remove_then_stored(self@, key@);
        }
        if !self.available {
            return ;
        }
        let ghost before = self@;
        let owned = key.to_owned();
        match self.find(&owned) {
            Some(at) => {
                proof {
                    lemma_size_holds_entry(
                        before.keys,
                        before.values,
                        at as int,
                        before.keys.len() as int,
                    );
                    lemma_size_remove(
                        before.keys,
                        before.values,
                        at as int,
                        before.keys.len() - 1,
                    );
                }
                let removed_key = self.keys.remove(at);
                let removed_value = self.values.remove(at);
                self.used = self.used - removed_key.as_str().unicode_len()
                    - removed_value.as_str().unicode_len();
                self.log.push(
                    ChangeEvent {
                        key: removed_key,
                        old_value: Some(removed_value),
                        new_value: None,
                        storage_area: self.area,
                    },
                );
                proof {
                    let after = before.after_remove(key@);
                    assert(self@.keys =~= after.keys);
                    assert(self@.values =~= after.values);
                    assert(self@.events =~= after.events);
                }
            },
            None => {},
        }
    }

    /// Removes every entry and tells the feed of each.
    pub fn clear(&mut self)
        requires
            old(self).well_formed(),
        ensures
            final(self).well_formed(),
            final(self)@ == old(self)@.after_clear(),
    {
        if !self.available {
            return ;
        }
        let ghost before = self@;
        let mut at: usize = 0;
        while at < self.keys.len()
            invariant
                at <= self.keys@.len(),
                self.well_formed(),
                self@.area == before.area,
                self@.available == before.available,
                self@.quota == before.quota,
                self@.keys == before.keys,
                self@.values == before.values,
                self.keys@.len() == self.values@.len(),
                self@.events =~= before.events + Seq::new(at as nat, |i: int| before.removal(i)),
            decreases self.keys@.len() - at,
        {
            let event = ChangeEvent {
                key: self.keys[at].clone(),
                old_value: Some(self.values[at].clone()),
                new_value: None,
                storage_area: self.area,
            };
            assert(self@.keys[at as int] == before.keys[at as int]);
            assert(self@.values[at as int] == before.values[at as int]);
            assert(event@ == before.removal(at as int));
            let ghost told = self@.events;
            self.log.push(event);
            assert(self@.events =~= told.push(before.removal(at as int)));
            assert(Seq::new((at + 1) as nat, |i: int| before.removal(i)) =~= Seq::new(
                at as nat,
                |i: int| before.removal(i),
            ).push(before.removal(at as int)));
            at += 1;
        }
        self.keys = Vec::new();
        self.values = Vec::new();
        self.used = 0;
        proof {
            let after = before.after_clear();
            assert(self@.keys =~= after.keys);
            assert(self@.values =~= after.values);
            assert(self@.events =~= after.events);
        }
    }

    /// Ends the session: a session medium forgets what it holds.
    pub fn end_session(&mut self)
        requires
            old(self).well_formed(),
        ensures
            final(self).well_formed(),
            final(self)@ == old(self)@.after_session(),
    {
        match self.area.scope {
            StorageScope::Session => {
                let ghost before = self@;
                self.keys = Vec::new();
                self.values = Vec::new();
                self.used = 0;
                proof {
                    let after = before.after_session();
                    assert(self@.keys =~= after.keys);
                    assert(self@.values =~= after.values);
                    assert(self@.events =~= after.events);
                }
            },
            StorageScope::Durable => {},
        }
    }

    /// Makes the medium reachable or unreachable; what it holds stays.
    pub fn set_available(&mut self, available: bool)
        requires
            old(self).well_formed(),
        ensures
            final(self).well_formed(),
            final(self)@ == (StoreState { available, ..old(self)@ }),
    {
        self.available = available;
    }

    /// Whether the medium can be reached.
    pub fn is_available(&self) -> (available: bool)
        ensures
            available == self@.available,
    {
        self.available
    }

    /// The number of characters that the medium takes.
    pub fn quota(&self) -> (quota: usize)
        ensures
            quota == self@.quota,
    {
        self.quota
    }

    /// The number of characters that the keys and values of the medium take.
    pub fn used(&self) -> (used: usize)
        requires
            self.well_formed(),
        ensures
            used == self@.used(),
    {
        self.used
    }

    /// The number of entries that the medium holds.
    pub fn len(&self) -> (len: usize)
        ensures
            len == self@.keys.len(),
    {
        self.keys.len()
    }

    /// The storage area that this store is.
    pub fn area(&self) -> (area: StorageArea)
        ensures
            area == self@.area,
    {
        self.area
    }

    /// Begins to follow the feed: the subscription receives every change
    /// made from now on.
    pub fn subscribe(&self) -> (subscription: Subscription)
        ensures
            subscription.active,
            subscription.position == self@.events.len(),
    {
        Subscription { position: self.log.len(), active: true }
    }

    /// Hands out the next change that `subscription` has not seen yet, if
    /// there is one and the subscription is still active.
    pub fn next_event(&self, subscription: &mut Subscription) -> (event: Option<ChangeEvent>)
        ensures
            final(subscription).active == old(subscription).active,
            match event {
                Some(change) => {
                    &&& old(subscription).pending(self@.events)
                    &&& change@ == self@.events[old(subscription).position as int]
                    &&& final(subscription).position == old(subscription).position + 1
                },
                None => {
                    &&& !old(subscription).pending(self@.events)
                    &&& final(subscription).position == old(subscription).position
                },
            },
    {
        if subscription.active && subscription.position < self.log.len() {
            let change = self.log[subscription.position].clone();
            subscription.position = subscription.position + 1;
            Some(change)
        } else {
            None
        }
    }
}

/// A place in the feed of a medium: the capability to receive its changes,
/// and to stop receiving them.
#[derive(Clone, Copy, Debug, PartialEq, Eq, Structural)]
pub struct Subscription {
    /// How many changes of the feed lie behind this subscription.
    pub position: usize,
    /// Whether the subscription still receives changes.
    pub active: bool,
}

impl Subscription {
    /// Whether a change of `events` waits for this subscription.
    pub open spec fn pending(self, events: Seq<ChangeEventView>) -> bool {
        self.active && self.position < events.len()
    }

    /// Stops receiving changes. Doing so again changes nothing, and no medium
    /// is needed for it.
    pub fn unsubscribe(&mut self)
        ensures
            *final(self) == (Subscription { active: false, ..*old(self) }),
    {
        self.active = false;
    }
}

} // verus!
