//! The storage cell: one typed value bound to one key of a medium.
//!
//! The cell itself touches no medium. Each of its steps takes what came from
//! the medium, changes the value, and answers with what the medium is to be
//! asked next and with the error, if any, that its owner is to be told.

use vstd::prelude::*;
use crate::storage::codec::{Codec, CodecError, Text};
use crate::storage::options::StorageOptions;
use crate::storage::store::{text_view, ChangeEvent, ChangeEventView, StorageArea, StoreError};

verus! {

/// A failure that a cell reports to its owner. None of them stops the cell.
#[derive(Debug, PartialEq, Eq)]
pub enum StorageError {
    /// A value could not be encoded, or a stored text not decoded.
    Codec(CodecError),
    /// The medium rejected a write.
    Store(StoreError),
}

impl Clone for StorageError {
    fn clone(&self) -> (copy: Self)
        ensures
            copy == *self,
    {
        match self {
            StorageError::Codec(error) => StorageError::Codec(error.clone()),
            StorageError::Store(error) => StorageError::Store(*error),
        }
    }
}

impl StorageError {
    /// The error to report for what the medium answered to a write: none
    /// where it accepted, its own where it rejected.
    pub fn of_write(answer: Result<(), StoreError>) -> (error: Option<StorageError>)
        ensures
            error == (match answer {
                Ok(_) => None,
                Err(rejection) => Some(StorageError::Store(rejection)),
            }),
    {
        match answer {
            Ok(_) => None,
            Err(rejection) => Some(StorageError::Store(rejection)),
        }
    }
}

/// What a cell asks of the medium.
#[derive(Debug, PartialEq, Eq)]
pub enum StoreCommand {
    /// Store `value` under `key`.
    Write { key: String, value: String },
    /// Remove what stands under `key`.
    Remove { key: String },
}

/// What a command says, over sequences of characters.
pub enum StoreCommandView {
    Write { key: Text, value: Text },
    Remove { key: Text },
}

impl View for StoreCommand {
    type V = StoreCommandView;

    open spec fn view(&self) -> StoreCommandView {
        match self {
            StoreCommand::Write { key, value } => StoreCommandView::Write { key: key@, value: value@ },
            StoreCommand::Remove { key } => StoreCommandView::Remove { key: key@ },
        }
    }
}

/// What one step of a cell leaves to its owner.
#[derive(Debug, PartialEq, Eq)]
pub struct Outcome {
    /// What to ask of the medium, if anything.
    pub command: Option<StoreCommand>,
    /// The failure to report, if any.
    pub error: Option<StorageError>,
    /// Whether the value was set anew, so that its observers are to be told.
    pub changed: bool,
}

impl Outcome {
    /// The command of this outcome, over sequences of characters.
    pub open spec fn asked(self) -> Option<StoreCommandView> {
        match self.command {
            Some(command) => Some(command@),
            None => None,
        }
    }
}

/// What a cell is at one moment.
pub struct CellState<T, C> {
    pub key: Text,
    pub codec: C,
    pub default_value: T,
    pub value: T,
    pub options: StorageOptions,
    pub area: StorageArea,
}

impl<T: View, C: Codec<T>> CellState<T, C> {
    /// Whether the cell acts on `event`: it listens, the event is about its
    /// key, and the event is not one of its own that it passes over.
    pub open spec fn heeds(self, event: ChangeEventView) -> bool {
        &&& self.options.listen_to_storage_changes
        &&& event.key == self.key
        &&& !(self.options.filter_self_events && event.storage_area == self.area)
    }

    /// The write of `value` to ask of the medium, where `value` can be
    /// encoded.
    pub open spec fn write_of(self, value: T::V) -> Option<StoreCommandView> {
        match self.codec.encoded(value) {
            Ok(text) => Some(StoreCommandView::Write { key: self.key, value: text }),
            Err(_) => None,
        }
    }

    /// The error to report where `value` cannot be encoded.
    pub open spec fn write_error(self, value: T::V) -> Option<StorageError> {
        match self.codec.encoded(value) {
            Ok(_) => None,
            Err(error) => Some(StorageError::Codec(error)),
        }
    }

    /// Whether `after` is this cell with, at most, another value.
    pub open spec fn same_binding(self, after: Self) -> bool {
        &&& after.key == self.key
        &&& after.codec == self.codec
        &&& after.default_value == self.default_value
        &&& after.options == self.options
        &&& after.area == self.area
    }

    /// Whether taking up `raw`, what the medium held when the cell was bound,
    /// leads from this cell to `after` with `outcome`.
    ///
    /// A text that decodes becomes the value. Otherwise the cell stands at its
    /// default: a text that does not decode is reported and left where it is;
    /// where nothing was found, the default is written if the options say so.
    pub open spec fn loads(self, raw: Option<Text>, after: Self, outcome: Outcome) -> bool {
        &&& self.same_binding(after)
        &&& outcome.changed
        &&& match raw {
            Some(text) => match self.codec.decoded(text) {
                Ok(value) => {
                    &&& after.value@ == value
                    &&& outcome.command is None
                    &&& outcome.error is None
                },
                Err(error) => {
                    &&& after.value == self.default_value
                    &&& outcome.command is None
                    &&& outcome.error == Some(StorageError::Codec(error))
                },
            },
            None => {
                &&& after.value == self.default_value
                &&& if self.options.write_default_if_missing {
                    &&& outcome.asked() == self.write_of(self.default_value@)
                    &&& outcome.error == self.write_error(self.default_value@)
                } else {
                    &&& outcome.command is None
                    &&& outcome.error is None
                }
            },
        }
    }

    /// Whether taking up the change `event` leads from this cell to `after`
    /// with `outcome`.
    ///
    /// An event that the cell does not heed changes nothing. One that it
    /// heeds sets the value: to the default where the key was removed, to the
    /// decoded text where it was written. A text that does not decode is
    /// reported, and the value stays.
    pub open spec fn takes(self, event: ChangeEventView, after: Self, outcome: Outcome) -> bool {
        &&& self.same_binding(after)
        &&& outcome.command is None
        &&& if !self.heeds(event) {
            &&& after.value == self.value
            &&& outcome.error is None
            &&& !outcome.changed
        } else {
            match event.new_value {
                None => {
                    &&& after.value == self.default_value
                    &&& outcome.error is None
                    &&& outcome.changed
                },
                Some(text) => match self.codec.decoded(text) {
                    Ok(value) => {
                        &&& after.value@ == value
                        &&& outcome.error is None
                        &&& outcome.changed
                    },
                    Err(error) => {
                        &&& after.value == self.value
                        &&& outcome.error == Some(StorageError::Codec(error))
                        &&& !outcome.changed
                    },
                },
            }
        }
    }
}

/// A typed value bound to the key `key` of a medium.
pub struct StorageCell<T, C> {
    key: String,
    codec: C,
    default_value: T,
    value: Option<T>,
    options: StorageOptions,
    area: StorageArea,
}

impl<T: View, C: Codec<T>> View for StorageCell<T, C> {
    type V = CellState<T, C>;

    closed spec fn view(&self) -> CellState<T, C> {
        CellState {
            key: self.key@,
            codec: self.codec,
            default_value: self.default_value,
            value: match self.value {
                Some(value) => value,
                None => self.default_value,
            },
            options: self.options,
            area: self.area,
        }
    }
}

impl<T, C> StorageCell<T, C> {
    /// The key of a cell is never empty.
    #[verifier::type_invariant]
    spec fn keyed(self) -> bool {
        self.key@.len() > 0
    }
}

impl<T: View, C: Codec<T>> StorageCell<T, C> {
    /// A cell for `key` that stands at `default_value`. `area` is the storage
    /// area through which the cell's own writes are made.
    pub fn new(
        key: String,
        codec: C,
        default_value: T,
        options: StorageOptions,
        area: StorageArea,
    ) -> (cell: Self)
        requires
            key@.len() > 0,
        ensures
            cell@ == (CellState {
                key: key@,
                codec,
                default_value,
                value: default_value,
                options,
                area,
            }),
    {
        StorageCell { key, codec, default_value, value: None, options, area }
    }

    /// The value of the cell.
    pub fn get(&self) -> (value: &T)
        ensures
            *value == self@.value,
    {
        match &self.value {
            Some(value) => value,
            None => &self.default_value,
        }
    }

    /// The key of the cell, which is never empty.
    pub fn key(&self) -> (key: &String)
        ensures
            key@ == self@.key,
            key@.len() > 0,
    {
        proof {
            use_type_invariant(self);
        }
        &self.key
    }

    /// The options of the cell.
    pub fn options(&self) -> (options: StorageOptions)
        ensures
            options == self@.options,
    {
        self.options
    }

    /// What to ask of the medium, and what to report, to have `value`
    /// stored under the cell's key.
    fn persist(&self, value: &T) -> (outcome: Outcome)
        ensures
            outcome.asked() == self@.write_of(value@),
            outcome.error == self@.write_error(value@),
            !outcome.changed,
    {
        match self.codec.encode(value) {
            Ok(text) => Outcome {
                command: Some(StoreCommand::Write { key: self.key.clone(), value: text }),
                error: None,
                changed: false,
            },
            Err(error) => Outcome {
                command: None,
                error: Some(StorageError::Codec(error)),
                changed: false,
            },
        }
    }

    /// Takes up what the medium held under the cell's key when the cell is
    /// bound: `raw`, the text read, or `None` where nothing was found.
    pub fn load(&mut self, raw: Option<String>) -> (outcome: Outcome)
        ensures
            old(self)@.loads(text_view(raw), final(self)@, outcome),
    {
        proof {
            use_type_invariant(&*self);
        }
        match raw {
            Some(text) => match self.codec.decode(text) {
                Ok(value) => {
                    self.value = Some(value);
                    Outcome { command: None, error: None, changed: true }
                },
                Err(error) => {
                    self.value = None;
                    Outcome {
                        command: None,
                        error: Some(StorageError::Codec(error)),
                        changed: true,
                    }
                },
            },
            None => {
                self.value = None;
                if self.options.write_default_if_missing {
                    let asked = self.persist(&self.default_value);
                    Outcome { command: asked.command, error: asked.error, changed: true }
                } else {
                    Outcome { command: None, error: None, changed: true }
                }
            },
        }
    }

    /// Sets the value to `value` at once, and asks for it to be stored. Where
    /// `value` cannot be encoded, that is reported and nothing is asked of the
    /// medium; the value stays as set.
    pub fn write(&mut self, value: T) -> (outcome: Outcome)
        ensures
            final(self)@ == (CellState { value, ..old(self)@ }),
            outcome.asked() == old(self)@.write_of(value@),
            outcome.error == old(self)@.write_error(value@),
            outcome.changed,
    {
        proof {
            use_type_invariant(&*self);
        }
        let asked = self.persist(&value);
        self.value = Some(value);
        Outcome { command: asked.command, error: asked.error, changed: true }
    }

    /// Sets the value back to the default and asks for the key to be removed
    /// from the medium.
    pub fn remove(&mut self) -> (outcome: Outcome)
        ensures
            final(self)@ == (CellState { value: old(self)@.default_value, ..old(self)@ }),
            outcome.asked() == Some(StoreCommandView::Remove { key: old(self)@.key }),
            outcome.error is None,
            outcome.changed,
    {
        proof {
            use_type_invariant(&*self);
        }
        self.value = None;
        Outcome {
            command: Some(StoreCommand::Remove { key: self.key.clone() }),
            error: None,
            changed: true,
        }
    }

    /// Takes up a change that someone made to the medium.
    pub fn on_change(&mut self, event: &ChangeEvent) -> (outcome: Outcome)
        ensures
            old(self)@.takes(event@, final(self)@, outcome),
    {
        proof {
            use_type_invariant(&*self);
        }
        let heeded = self.options.listen_to_storage_changes && event.key == self.key && !(
        self.options.filter_self_events && event.storage_area == self.area);
        if !heeded {
            return Outcome { command: None, error: None, changed: false };
        }
        match &event.new_value {
            None => {
                self.value = None;
                Outcome { command: None, error: None, changed: true }
            },
            Some(text) => match self.codec.decode(text.clone()) {
                Ok(value) => {
                    self.value = Some(value);
                    Outcome { command: None, error: None, changed: true }
                },
                Err(error) => Outcome {
                    command: None,
                    error: Some(StorageError::Codec(error)),
                    changed: false,
                },
            },
        }
    }
}

} // verus!
