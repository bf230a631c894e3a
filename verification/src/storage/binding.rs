//! A storage cell bound to a medium held in memory: the cell's steps, each
//! carried out on the medium at once.

use vstd::prelude::*;
use crate::storage::cell::{CellState, Outcome, StorageCell, StorageError, StoreCommand};
use crate::storage::codec::{Codec, CodecError, Text};
use crate::storage::options::StorageOptions;
use crate::storage::store::{
    lemma_remove_then_stored, lemma_set_then_stored, MemoryStore, StoreState, Subscription,
};

verus! {

/// The error that a write of `text` under `key` leaves to report.
pub open spec fn rejection(state: StoreState, key: Text, text: Text) -> Option<
    StorageError,
> {
    match state.set_result(key, text) {
        Ok(_) => None,
        Err(error) => Some(StorageError::Store(error)),
    }
}

/// Whether carrying out on the medium what `value` asks for, from the state
/// `before`, leaves the medium at `after` and `error` to report: the write,
/// where `value` can be encoded, with what the medium answers; else nothing
/// but the codec's error.
pub open spec fn persists<T: View, C: Codec<T>>(
    cell: CellState<T, C>,
    value: T::V,
    before: StoreState,
    after: StoreState,
    error: Option<StorageError>,
) -> bool {
    match cell.codec.encoded(value) {
        Ok(text) => {
            &&& after == before.try_set(cell.key, text)
            &&& error == rejection(before, cell.key, text)
            &&& before.set_result(cell.key, text) is Ok ==> after.get(cell.key) == Some(text)
        },
        Err(failure) => {
            &&& after == before
            &&& error == Some(StorageError::Codec(failure))
        },
    }
}

/// What one cell has written without error, another cell of the same key and
/// codec finds: the medium then holds a text under the key, and the codec
/// decodes that text to the value written.
pub proof fn lemma_written_value_is_found<T: View, C: Codec<T>>(
    cell: CellState<T, C>,
    value: T::V,
    before: StoreState,
    after: StoreState,
)
    requires
        persists(cell, value, before, after, None),
    ensures
        after.get(cell.key) matches Some(text) && cell.codec.decoded(text) == Ok::<
            T::V,
            CodecError,
        >(value),
{
    cell.codec.lemma_round_trip(value);
}

/// A cell together with its place in the feed of the medium it is bound to.
pub struct BoundCell<T, C> {
    cell: StorageCell<T, C>,
    subscription: Option<Subscription>,
}

impl<T: View, C: Codec<T>> View for BoundCell<T, C> {
    type V = CellState<T, C>;

    closed spec fn view(&self) -> CellState<T, C> {
        self.cell@
    }
}

/// Carries out on `store` what `outcome` asks for, and says what is left to
/// report: the error of the outcome, or the rejection of its write.
fn carry_out(store: &mut MemoryStore, outcome: Outcome) -> (error: Option<StorageError>)
    requires
        old(store).well_formed(),
    ensures
        final(store).well_formed(),
        match outcome.command {
            Some(StoreCommand::Write { key, value }) => {
                &&& final(store)@ == old(store)@.try_set(key@, value@)
                &&& error == rejection(old(store)@, key@, value@)
            },
            Some(StoreCommand::Remove { key }) => {
                &&& final(store)@ == old(store)@.after_remove(key@)
                &&& error == outcome.error
            },
            None => {
                &&& final(store)@ == old(store)@
                &&& error == outcome.error
            },
        },
{
    match outcome.command {
        Some(StoreCommand::Write { key, value }) => StorageError::of_write(
            store.set(key.as_str(), value),
        ),
        Some(StoreCommand::Remove { key }) => {
            store.remove(key.as_str());
            outcome.error
        },
        None => outcome.error,
    }
}

impl<T: View, C: Codec<T>> BoundCell<T, C> {
    /// The place of the cell in the feed, while it follows the feed.
    pub closed spec fn subscription(&self) -> Option<Subscription> {
        self.subscription
    }

    /// Binds a cell to the key `key` of `store`.
    ///
    /// The cell takes up the text that the medium holds under the key. Where
    /// that text does not decode, the cell stands at `default_value`, the
    /// text stays, and the error is returned. Where the medium holds nothing
    /// or cannot be reached, the cell stands at `default_value` and, if the
    /// options say so, writes it; what goes wrong with that is returned. A cell
    /// that listens follows the feed from after its own first write.
    pub fn bind(
        store: &mut MemoryStore,
        key: String,
        codec: C,
        default_value: T,
        options: StorageOptions,
    ) -> (bound: (Self, Option<StorageError>))
        requires
            old(store).well_formed(),
            key@.len() > 0,
        ensures
            final(store).well_formed(),
            bound.0@.key == key@,
            bound.0@.codec == codec,
            bound.0@.default_value == default_value,
            bound.0@.options == options,
            bound.0@.area == old(store)@.area,
            match old(store)@.get(key@) {
                Some(text) => match codec.decoded(text) {
                    Ok(value) => {
                        &&& bound.0@.value@ == value
                        &&& final(store)@ == old(store)@
                        &&& bound.1 is None
                    },
                    Err(failure) => {
                        &&& bound.0@.value == default_value
                        &&& final(store)@ == old(store)@
                        &&& bound.1 == Some(StorageError::Codec(failure))
                    },
                },
                None => {
                    &&& bound.0@.value == default_value
                    &&& if options.write_default_if_missing {
                        persists(bound.0@, default_value@, old(store)@, final(store)@, bound.1)
                    } else {
                        &&& final(store)@ == old(store)@
                        &&& bound.1 is None
                    }
                },
            },
            bound.0.subscription() == (if options.listen_to_storage_changes {
                Some(Subscription { position: final(store)@.events.len() as usize, active: true })
            } else {
                None
            }),
    {
        let raw = store.get(key.as_str());
        let mut cell = StorageCell::new(key, codec, default_value, options, store.area());
        let ghost before = store@;
        let outcome = cell.load(raw);
        proof {
            match cell@.codec.encoded(cell@.default_value@) {
                Ok(text) => {
                    lemma_set_then_stored(before, cell@.key, text);
                },
                Err(_) => {},
            }
        }
        let error = carry_out(store, outcome);
        let subscription = if options.listen_to_storage_changes {
            Some(store.subscribe())
        } else {
            None
        };
        (BoundCell { cell, subscription }, error)
    }

    /// The value of the cell.
    pub fn get(&self) -> (value: &T)
        ensures
            *value == self@.value,
    {
        self.cell.get()
    }

    /// The key of the cell, which is never empty.
    pub fn key(&self) -> (key: &String)
        ensures
            key@ == self@.key,
            key@.len() > 0,
    {
        self.cell.key()
    }

    /// Whether the cell still follows the feed of its medium.
    pub fn is_listening(&self) -> (listening: bool)
        ensures
            listening == (self.subscription() matches Some(place) && place.active),
    {
        match self.subscription {
            Some(place) => place.active,
            None => false,
        }
    }

    /// Sets the value to `value` at once and writes it to the medium. The
    /// value stays as set whatever becomes of the write; what goes wrong with
    /// it is returned.
    pub fn set(&mut self, store: &mut MemoryStore, value: T) -> (error: Option<StorageError>)
        requires
            old(store).well_formed(),
        ensures
            final(store).well_formed(),
            final(self)@ == (CellState { value, ..old(self)@ }),
            final(self).subscription() == old(self).subscription(),
            persists(old(self)@, value@, old(store)@, final(store)@, error),
    {
        let ghost before = store@;
        proof {
            match self@.codec.encoded(value@) {
                Ok(text) => {
                    lemma_set_then_stored(before, self@.key, text);
                },
                Err(_) => {},
            }
        }
        let outcome = self.cell.write(value);
        carry_out(store, outcome)
    }

    /// Sets the value back to the default and removes the key from the
    /// medium: a read of the key then finds nothing.
    pub fn remove(&mut self, store: &mut MemoryStore)
        requires
            old(store).well_formed(),
        ensures
            final(store).well_formed(),
            final(self)@ == (CellState { value: old(self)@.default_value, ..old(self)@ }),
            final(self).subscription() == old(self).subscription(),
            final(store)@ == old(store)@.after_remove(old(self)@.key),
            final(store)@.get(old(self)@.key) is None,
    {
        proof {
            lemma_remove_then_stored(store@, self@.key);
        }
        let outcome = self.cell.remove();
        let _ = carry_out(store, outcome);
    }

    /// Takes up the next change of the feed that the cell has not seen, if
    /// it follows the feed and there is one; `None` otherwise.
    pub fn poll(&mut self, store: &MemoryStore) -> (outcome: Option<Outcome>)
        ensures
            match old(self).subscription() {
                Some(place) if place.pending(store@.events) => {
                    &&& outcome matches Some(taken)
                    &&& old(self)@.takes(store@.events[place.position as int], final(self)@, taken)
                    &&& final(self).subscription() == Some(
                        Subscription { position: (place.position + 1) as usize, ..place },
                    )
                },
                _ => {
                    &&& outcome is None
                    &&& final(self)@ == old(self)@
                    &&& final(self).subscription() == old(self).subscription()
                },
            },
    {
        let mut place = match self.subscription {
            Some(place) => place,
            None => {
                return None;
            },
        };
        match store.next_event(&mut place) {
            Some(event) => {
                self.subscription = Some(place);
                Some(self.cell.on_change(&event))
            },
            None => None,
        }
    }

    /// Stops following the feed. Doing so again changes nothing.
    pub fn unsubscribe(&mut self)
        ensures
            final(self)@ == old(self)@,
            final(self).subscription() == (match old(self).subscription() {
                Some(place) => Some(Subscription { active: false, ..place }),
                None => None,
            }),
    {
        match self.subscription {
            Some(place) => {
                let mut stopped = place;
                stopped.unsubscribe();
                self.subscription = Some(stopped);
            },
            None => {},
        }
    }
}

} // verus!
