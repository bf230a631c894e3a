//! The codec interface: how a typed value is turned into the text that the
//! medium holds, and back.

use vstd::prelude::*;

verus! {

/// Why a codec could not encode a value or decode a text.
#[derive(Debug, PartialEq, Eq)]
pub enum CodecError {
    /// The text is empty where the type needs at least one character.
    Empty,
    /// A character stands where the type's notation has no place for it.
    InvalidDigit,
    /// The number lies above the largest value of the type.
    PosOverflow,
    /// The number lies below the smallest value of the type.
    NegOverflow,
    /// The text is neither `true` nor `false`.
    InvalidBool,
    /// A failure that a codec reports in its own words.
    Custom(String),
}

impl Clone for CodecError {
    fn clone(&self) -> (copy: Self)
        ensures
            copy == *self,
    {
        match self {
            CodecError::Empty => CodecError::Empty,
            CodecError::InvalidDigit => CodecError::InvalidDigit,
            CodecError::PosOverflow => CodecError::PosOverflow,
            CodecError::NegOverflow => CodecError::NegOverflow,
            CodecError::InvalidBool => CodecError::InvalidBool,
            CodecError::Custom(message) => CodecError::Custom(message.clone()),
        }
    }
}

/// Text as contracts speak of it: the characters of a `String`, one by one.
pub type Text = Seq<char>;

/// A stateless pair of functions between values of `T` and their stored text.
///
/// `encoded` and `decoded` say what the two functions compute, over the view
/// of `T`. An implementation owes the round-trip law: whatever it encodes, it
/// decodes to the same value.
///
/// The first three members are for contracts alone. A codec that is not
/// verified writes them as ordinary functions, which nothing ever calls; what
/// is proved of a cell then holds of that codec only as far as its `encode`
/// and `decode` are functions of the value and of the text alone.
pub trait Codec<T: View> {
    /// The text that stands for `value`, or why it has none.
    spec fn encoded(&self, value: T::V) -> Result<Text, CodecError>;

    /// The value that `raw` stands for, or why it stands for none.
    spec fn decoded(&self, raw: Text) -> Result<T::V, CodecError>;

    /// Decoding the text of an encoded value gives the value back.
    proof fn lemma_round_trip(&self, value: T::V)
        requires
            self.encoded(value) is Ok,
        ensures
            self.decoded(self.encoded(value)->Ok_0) == Ok::<T::V, CodecError>(value),
    ;

    /// Encodes `value` as text.
    fn encode(&self, value: &T) -> (result: Result<String, CodecError>)
        ensures
            match result {
                Ok(text) => self.encoded(value@) == Ok::<Text, CodecError>(text@),
                Err(error) => self.encoded(value@) == Err::<Text, CodecError>(error),
            },
    ;

    /// Decodes `raw` into a value.
    fn decode(&self, raw: String) -> (result: Result<T, CodecError>)
        ensures
            match result {
                Ok(value) => self.decoded(raw@) == Ok::<T::V, CodecError>(value@),
                Err(error) => self.decoded(raw@) == Err::<T::V, CodecError>(error),
            },
    ;
}

} // verus!
