//! Types whose values have a canonical text: strings, booleans and integers.

use vstd::prelude::*;
use crate::storage::codec::{CodecError, Text};
use crate::storage::decimal::{
    decimal, lemma_parse_decimal_of_decimal, parse_decimal, parse_int, render_int,
};

verus! {

/// A type whose values are written as text and read back from it.
///
/// `text_of` is the one text that a value is written as; `value_of` reads a
/// text, which may be one of several for the same value, or none.
pub trait Textual: View + Sized {
    /// The text that `value` is written as.
    spec fn text_of(value: Self::V) -> Text;

    /// The value that `text` is read as, or why it cannot be read.
    spec fn value_of(text: Text) -> Result<Self::V, CodecError>;

    /// Reading what was written gives the value back.
    proof fn lemma_value_of_text(value: Self::V)
        ensures
            Self::value_of(Self::text_of(value)) == Ok::<Self::V, CodecError>(value),
    ;

    /// Writes the value as text.
    fn to_text(&self) -> (text: String)
        ensures
            text@ == Self::text_of(self@),
    ;

    /// Reads a value from `text`.
    fn from_text(text: &str) -> (result: Result<Self, CodecError>)
        ensures
            match result {
                Ok(value) => Self::value_of(text@) == Ok::<Self::V, CodecError>(value@),
                Err(error) => Self::value_of(text@) == Err::<Self::V, CodecError>(error),
            },
    ;
}

impl Textual for String {
    open spec fn text_of(value: Text) -> Text {
        value
    }

    open spec fn value_of(text: Text) -> Result<Text, CodecError> {
        Ok(text)
    }

    proof fn lemma_value_of_text(value: Text) {
    }

    fn to_text(&self) -> (text: String) {
        self.clone()
    }

    fn from_text(text: &str) -> (result: Result<String, CodecError>) {
        Ok(text.to_owned())
    }
}

impl Textual for bool {
    open spec fn text_of(value: bool) -> Text {
        if value {
            "true"@
        } else {
            "false"@
        }
    }

    open spec fn value_of(text: Text) -> Result<bool, CodecError> {
        if text == "true"@ {
            Ok(true)
        } else if text == "false"@ {
            Ok(false)
        } else {
            Err(CodecError::InvalidBool)
        }
    }

    proof fn lemma_value_of_text(value: bool) {
        reveal_strlit("true");
        reveal_strlit("false");
        assert("true"@.len() == 4 && "false"@.len() == 5);
    }

    fn to_text(&self) -> (text: String) {
        if *self {
            "true".to_owned()
        } else {
            "false".to_owned()
        }
    }

    fn from_text(text: &str) -> (result: Result<bool, CodecError>) {
        let given = text.to_owned();
        if given == "true".to_owned() {
            Ok(true)
        } else if given == "false".to_owned() {
            Ok(false)
        } else {
            Err(CodecError::InvalidBool)
        }
    }
}

impl Textual for i8 {
    open spec fn text_of(value: i8) -> Text {
        decimal(value as int)
    }

    open spec fn value_of(text: Text) -> Result<i8, CodecError> {
        match parse_decimal(text, i8::MIN as int, i8::MAX as int) {
            Ok(n) => Ok(n as i8),
            Err(error) => Err(error),
        }
    }

    proof fn lemma_value_of_text(value: i8) {
        lemma_parse_decimal_of_decimal(value as int, i8::MIN as int, i8::MAX as int);
    }

    fn to_text(&self) -> (text: String) {
        render_int(*self as i128)
    }

    fn from_text(text: &str) -> (result: Result<i8, CodecError>) {
        match parse_int(text, i8::MIN as i128, i8::MAX as i128) {
            Ok(n) => Ok(n as i8),
            Err(error) => Err(error),
        }
    }
}

impl Textual for i16 {
    open spec fn text_of(value: i16) -> Text {
        decimal(value as int)
    }

    open spec fn value_of(text: Text) -> Result<i16, CodecError> {
        match parse_decimal(text, i16::MIN as int, i16::MAX as int) {
            Ok(n) => Ok(n as i16),
            Err(error) => Err(error),
        }
    }

    proof fn lemma_value_of_text(value: i16) {
        lemma_parse_decimal_of_decimal(value as int, i16::MIN as int, i16::MAX as int);
    }

    fn to_text(&self) -> (text: String) {
        render_int(*self as i128)
    }

    fn from_text(text: &str) -> (result: Result<i16, CodecError>) {
        match parse_int(text, i16::MIN as i128, i16::MAX as i128) {
            Ok(n) => Ok(n as i16),
            Err(error) => Err(error),
        }
    }
}

impl Textual for i32 {
    open spec fn text_of(value: i32) -> Text {
        decimal(value as int)
    }

    open spec fn value_of(text: Text) -> Result<i32, CodecError> {
        match parse_decimal(text, i32::MIN as int, i32::MAX as int) {
            Ok(n) => Ok(n as i32),
            Err(error) => Err(error),
        }
    }

    proof fn lemma_value_of_text(value: i32) {
        lemma_parse_decimal_of_decimal(value as int, i32::MIN as int, i32::MAX as int);
    }

    fn to_text(&self) -> (text: String) {
        render_int(*self as i128)
    }

    fn from_text(text: &str) -> (result: Result<i32, CodecError>) {
        match parse_int(text, i32::MIN as i128, i32::MAX as i128) {
            Ok(n) => Ok(n as i32),
            Err(error) => Err(error),
        }
    }
}

impl Textual for i64 {
    open spec fn text_of(value: i64) -> Text {
        decimal(value as int)
    }

    open spec fn value_of(text: Text) -> Result<i64, CodecError> {
        match parse_decimal(text, i64::MIN as int, i64::MAX as int) {
            Ok(n) => Ok(n as i64),
            Err(error) => Err(error),
        }
    }

    proof fn lemma_value_of_text(value: i64) {
        lemma_parse_decimal_of_decimal(value as int, i64::MIN as int, i64::MAX as int);
    }

    fn to_text(&self) -> (text: String) {
        render_int(*self as i128)
    }

    fn from_text(text: &str) -> (result: Result<i64, CodecError>) {
        match parse_int(text, i64::MIN as i128, i64::MAX as i128) {
            Ok(n) => Ok(n as i64),
            Err(error) => Err(error),
        }
    }
}

impl Textual for isize {
    open spec fn text_of(value: isize) -> Text {
        decimal(value as int)
    }

    open spec fn value_of(text: Text) -> Result<isize, CodecError> {
        match parse_decimal(text, isize::MIN as int, isize::MAX as int) {
            Ok(n) => Ok(n as isize),
            Err(error) => Err(error),
        }
    }

    proof fn lemma_value_of_text(value: isize) {
        lemma_parse_decimal_of_decimal(value as int, isize::MIN as int, isize::MAX as int);
    }

    fn to_text(&self) -> (text: String) {
        render_int(*self as i128)
    }

    fn from_text(text: &str) -> (result: Result<isize, CodecError>) {
        match parse_int(text, isize::MIN as i128, isize::MAX as i128) {
            Ok(n) => Ok(n as isize),
            Err(error) => Err(error),
        }
    }
}

impl Textual for u8 {
    open spec fn text_of(value: u8) -> Text {
        decimal(value as int)
    }

    open spec fn value_of(text: Text) -> Result<u8, CodecError> {
        match parse_decimal(text, u8::MIN as int, u8::MAX as int) {
            Ok(n) => Ok(n as u8),
            Err(error) => Err(error),
        }
    }

    proof fn lemma_value_of_text(value: u8) {
        lemma_parse_decimal_of_decimal(value as int, u8::MIN as int, u8::MAX as int);
    }

    fn to_text(&self) -> (text: String) {
        render_int(*self as i128)
    }

    fn from_text(text: &str) -> (result: Result<u8, CodecError>) {
        match parse_int(text, u8::MIN as i128, u8::MAX as i128) {
            Ok(n) => Ok(n as u8),
            Err(error) => Err(error),
        }
    }
}

impl Textual for u16 {
    open spec fn text_of(value: u16) -> Text {
        decimal(value as int)
    }

    open spec fn value_of(text: Text) -> Result<u16, CodecError> {
        match parse_decimal(text, u16::MIN as int, u16::MAX as int) {
            Ok(n) => Ok(n as u16),
            Err(error) => Err(error),
        }
    }

    proof fn lemma_value_of_text(value: u16) {
        lemma_parse_decimal_of_decimal(value as int, u16::MIN as int, u16::MAX as int);
    }

    fn to_text(&self) -> (text: String) {
        render_int(*self as i128)
    }

    fn from_text(text: &str) -> (result: Result<u16, CodecError>) {
        match parse_int(text, u16::MIN as i128, u16::MAX as i128) {
            Ok(n) => Ok(n as u16),
            Err(error) => Err(error),
        }
    }
}

impl Textual for u32 {
    open spec fn text_of(value: u32) -> Text {
        decimal(value as int)
    }

    open spec fn value_of(text: Text) -> Result<u32, CodecError> {
        match parse_decimal(text, u32::MIN as int, u32::MAX as int) {
            Ok(n) => Ok(n as u32),
            Err(error) => Err(error),
        }
    }

    proof fn lemma_value_of_text(value: u32) {
        lemma_parse_decimal_of_decimal(value as int, u32::MIN as int, u32::MAX as int);
    }

    fn to_text(&self) -> (text: String) {
        render_int(*self as i128)
    }

    fn from_text(text: &str) -> (result: Result<u32, CodecError>) {
        match parse_int(text, u32::MIN as i128, u32::MAX as i128) {
            Ok(n) => Ok(n as u32),
            Err(error) => Err(error),
        }
    }
}

impl Textual for u64 {
    open spec fn text_of(value: u64) -> Text {
        decimal(value as int)
    }

    open spec fn value_of(text: Text) -> Result<u64, CodecError> {
        match parse_decimal(text, u64::MIN as int, u64::MAX as int) {
            Ok(n) => Ok(n as u64),
            Err(error) => Err(error),
        }
    }

    proof fn lemma_value_of_text(value: u64) {
        lemma_parse_decimal_of_decimal(value as int, u64::MIN as int, u64::MAX as int);
    }

    fn to_text(&self) -> (text: String) {
        render_int(*self as i128)
    }

    fn from_text(text: &str) -> (result: Result<u64, CodecError>) {
        match parse_int(text, u64::MIN as i128, u64::MAX as i128) {
            Ok(n) => Ok(n as u64),
            Err(error) => Err(error),
        }
    }
}

impl Textual for usize {
    open spec fn text_of(value: usize) -> Text {
        decimal(value as int)
    }

    open spec fn value_of(text: Text) -> Result<usize, CodecError> {
        match parse_decimal(text, usize::MIN as int, usize::MAX as int) {
            Ok(n) => Ok(n as usize),
            Err(error) => Err(error),
        }
    }

    proof fn lemma_value_of_text(value: usize) {
        lemma_parse_decimal_of_decimal(value as int, usize::MIN as int, usize::MAX as int);
    }

    fn to_text(&self) -> (text: String) {
        render_int(*self as i128)
    }

    fn from_text(text: &str) -> (result: Result<usize, CodecError>) {
        match parse_int(text, usize::MIN as i128, usize::MAX as i128) {
            Ok(n) => Ok(n as usize),
            Err(error) => Err(error),
        }
    }
}

} // verus!
