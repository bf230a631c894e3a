//! The string codec: values stored as the text they are written as.

use vstd::prelude::*;
use crate::storage::codec::{Codec, CodecError, Text};
use crate::storage::textual::Textual;

verus! {

/// A codec for every type with a canonical text: it encodes a value as that
/// text and decodes by reading it, handing on the type's own reading error.
#[derive(Clone, Copy, Debug, Default, PartialEq, Eq)]
pub struct StringCodec;

impl<T: Textual> Codec<T> for StringCodec {
    open spec fn encoded(&self, value: T::V) -> Result<Text, CodecError> {
        Ok(T::text_of(value))
    }

    open spec fn decoded(&self, raw: Text) -> Result<T::V, CodecError> {
        T::value_of(raw)
    }

    proof fn lemma_round_trip(&self, value: T::V) {
        T::lemma_value_of_text(value);
    }

    fn encode(&self, value: &T) -> (result: Result<String, CodecError>) {
        Ok(value.to_text())
    }

    fn decode(&self, raw: String) -> (result: Result<T, CodecError>) {
        T::from_text(raw.as_str())
    }
}

} // verus!
