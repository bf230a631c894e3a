//! Reactive key/value storage cells.
//!
//! A cell binds one typed value to one key of a persistent medium that holds
//! text. A codec turns the value into text and back; the cell keeps the value
//! in step with the medium: it takes up what the medium holds when it is
//! bound, writes what it is set to, and follows the changes that others make
//! to its key. No failure of a codec or of the medium stops a cell: the value
//! in memory goes on, and the failure is handed to the cell's owner.

pub mod storage;
