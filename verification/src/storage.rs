//! Codecs, the persistent medium, and the cells that bind a typed value to a
//! key of the medium.
//!
//! - [`Codec`] is the interface between values and text; [`StringCodec`]
//!   implements it for every [`Textual`] type.
//! - [`StorageCell`] is the cell by itself: each of its steps takes what came
//!   from the medium and answers with an [`Outcome`], what to ask of the
//!   medium next and what to report. It fits any medium whose owner carries
//!   out what the outcomes ask for.
//! - [`MemoryStore`] is a medium held in memory, with a quota and a feed of
//!   its changes, and [`BoundCell`] is a cell bound to such a store.

pub mod binding;
pub mod cell;
pub mod codec;
pub mod codec_string;
pub mod decimal;
pub mod options;
pub mod store;
pub mod textual;

pub use binding::BoundCell;
pub use cell::{CellState, Outcome, StorageCell, StorageError, StoreCommand, StoreCommandView};
pub use codec::{Codec, CodecError, Text};
pub use codec_string::StringCodec;
pub use options::StorageOptions;
pub use store::{
    ChangeEvent, ChangeEventView, MemoryStore, StorageArea, StorageScope, StoreError, StoreState,
    Subscription,
};
pub use textual::Textual;
pub use vstd::view::View;
