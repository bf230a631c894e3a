//! What a caller may choose about a storage cell.

use vstd::prelude::*;

verus! {

/// The choices that govern a storage cell.
#[derive(Clone, Copy, Debug, PartialEq, Eq, Structural)]
pub struct StorageOptions {
    /// Whether the cell follows changes that others make to its key.
    pub listen_to_storage_changes: bool,
    /// Whether the cell writes its default to the medium when it finds
    /// nothing under its key.
    pub write_default_if_missing: bool,
    /// Whether the cell passes over change events that come from its own
    /// storage area.
    pub filter_self_events: bool,
}

impl Default for StorageOptions {
    /// Listening and writing the default are on; events from the cell's own
    /// area are not filtered.
    fn default() -> (options: StorageOptions)
        ensures
            options == (StorageOptions {
                listen_to_storage_changes: true,
                write_default_if_missing: true,
                filter_self_events: false,
            }),
    {
        StorageOptions {
            listen_to_storage_changes: true,
            write_default_if_missing: true,
            filter_self_events: false,
        }
    }
}

impl StorageOptions {
    /// These options, following outside changes or not.
    pub fn listen_to_storage_changes(self, listen: bool) -> (options: StorageOptions)
        ensures
            options == (StorageOptions { listen_to_storage_changes: listen, ..self }),
    {
        StorageOptions { listen_to_storage_changes: listen, ..self }
    }

    /// These options, writing a missing default or not.
    pub fn write_default_if_missing(self, write: bool) -> (options: StorageOptions)
        ensures
            options == (StorageOptions { write_default_if_missing: write, ..self }),
    {
        StorageOptions { write_default_if_missing: write, ..self }
    }

    /// These options, passing over the cell's own events or not.
    pub fn filter_self_events(self, filter: bool) -> (options: StorageOptions)
        ensures
            options == (StorageOptions { filter_self_events: filter, ..self }),
    {
        StorageOptions { filter_self_events: filter, ..self }
    }
}

} // verus!
