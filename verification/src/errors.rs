//! Error types for the conversion and decoding methods.
//!
//! Every fallible operation in this crate reports *why* its input was
//! rejected, not just that it was: callers deciding on a recovery strategy
//! need to tell a truncated sequence from a corrupted one.

use vstd::prelude::*;
use core::ops::RangeInclusive;

verus! {

/// Reasons why a `u32` is not a valid Unicode scalar value.
#[derive(Clone, Copy, Debug, PartialEq, Eq, Structural)]
pub enum CodepointError {
    /// It's reserved for UTF-16 surrogate pairs.
    Utf16Reserved,
    /// It's higher than the highest codepoint, which is 0x10ffff.
    TooHigh,
}

impl CodepointError {
    /// The text returned by [`description`](Self::description).
    pub open spec fn description_spec(self) -> Seq<char> {
        match self {
            CodepointError::Utf16Reserved => "is reserved for UTF-16 surrogate pairs"@,
            CodepointError::TooHigh => "is higher than the highest codepoint"@,
        }
    }

    /// Get the range of values for which this error would be given.
    pub fn error_range(self) -> (r: RangeInclusive<u32>)
        ensures
            self is Utf16Reserved ==> r@.start == 0xd800u32 && r@.end == 0xdfffu32,
            self is TooHigh ==> r@.start == 0x11_0000u32 && r@.end == 0xffff_ffffu32,
            !r@.exhausted,
    {
        match self {
            CodepointError::Utf16Reserved => RangeInclusive::new(0xd800, 0xdfff),
            CodepointError::TooHigh => RangeInclusive::new(0x11_0000, 0xffff_ffff),
        }
    }

    /// A short explanation of the error.
    pub fn description(self) -> (r: &'static str)
        ensures
            r@ == self.description_spec(),
    {
        match self {
            CodepointError::Utf16Reserved => "is reserved for UTF-16 surrogate pairs",
            CodepointError::TooHigh => "is higher than the highest codepoint",
        }
    }
}

/// Reasons why a byte cannot begin a UTF-8 encoded codepoint.
#[derive(Clone, Copy, Debug, PartialEq, Eq, Structural)]
pub enum InvalidUtf8FirstByte {
    /// Sequences cannot be longer than 4 bytes; the byte is `0b11111xxx`.
    TooLongSeqence,
    /// This byte belongs to a previous sequence; it is `0b10xxxxxx`.
    ContinuationByte,
}

impl InvalidUtf8FirstByte {
    /// The text returned by [`description`](Self::description).
    pub open spec fn description_spec(self) -> Seq<char> {
        match self {
            InvalidUtf8FirstByte::TooLongSeqence => {
                "the first byte declares a sequence longer than four bytes"@
            },
            InvalidUtf8FirstByte::ContinuationByte => {
                "the first byte is a continuation of a previous sequence"@
            },
        }
    }

    /// A short explanation of the error.
    pub fn description(self) -> (r: &'static str)
        ensures
            r@ == self.description_spec(),
    {
        match self {
            InvalidUtf8FirstByte::TooLongSeqence => {
                "the first byte declares a sequence longer than four bytes"
            },
            InvalidUtf8FirstByte::ContinuationByte => {
                "the first byte is a continuation of a previous sequence"
            },
        }
    }
}

/// Reasons why a byte sequence is not well-formed UTF-8.
#[derive(Clone, Copy, Debug, PartialEq, Eq, Structural)]
pub enum InvalidUtf8 {
    /// The first byte is not a valid start of a sequence.
    FirstByte(InvalidUtf8FirstByte),
    /// The byte at the stored 1-based position within the sequence should be
    /// a continuation byte `0b10xxxxxx`, but isn't.
    NotAContinuationByte(usize),
    /// The sequence uses more bytes than the encoded value needs.
    ///
    /// Decoding such a sequence would let input slip past validators that
    /// only inspect the shortest encoding of each character.
    OverLong,
}

impl InvalidUtf8 {
    /// The text returned by [`description`](Self::description).
    pub open spec fn description_spec(self) -> Seq<char> {
        match self {
            InvalidUtf8::FirstByte(e) => e.description_spec(),
            InvalidUtf8::NotAContinuationByte(_) => {
                "a byte inside the sequence is not a continuation byte"@
            },
            InvalidUtf8::OverLong => "the sequence is longer than the value needs"@,
        }
    }

    /// A short explanation of the error.
    pub fn description(self) -> (r: &'static str)
        ensures
            r@ == self.description_spec(),
    {
        match self {
            InvalidUtf8::FirstByte(e) => e.description(),
            InvalidUtf8::NotAContinuationByte(_) => {
                "a byte inside the sequence is not a continuation byte"
            },
            InvalidUtf8::OverLong => "the sequence is longer than the value needs",
        }
    }
}

/// Reasons why a byte slice does not start with valid UTF-8.
#[derive(Clone, Copy, Debug, PartialEq, Eq, Structural)]
pub enum InvalidUtf8Slice {
    /// The slice has fewer bytes than the sequence needs; the stored number
    /// is how many bytes the whole sequence requires.
    TooShort(usize),
    /// The bytes do not form a well-formed sequence.
    Utf8(InvalidUtf8),
    /// The bytes are well-formed but encode an invalid codepoint.
    Codepoint(CodepointError),
}

impl InvalidUtf8Slice {
    /// The text returned by [`description`](Self::description).
    pub open spec fn description_spec(self) -> Seq<char> {
        match self {
            InvalidUtf8Slice::TooShort(_) => "the slice is shorter than the sequence"@,
            InvalidUtf8Slice::Utf8(e) => e.description_spec(),
            InvalidUtf8Slice::Codepoint(e) => e.description_spec(),
        }
    }

    /// A short explanation of the error.
    pub fn description(self) -> (r: &'static str)
        ensures
            r@ == self.description_spec(),
    {
        match self {
            InvalidUtf8Slice::TooShort(_) => "the slice is shorter than the sequence",
            InvalidUtf8Slice::Utf8(e) => e.description(),
            InvalidUtf8Slice::Codepoint(e) => e.description(),
        }
    }
}

/// Reasons why a `[u8; 4]` does not start with valid UTF-8.
#[derive(Clone, Copy, Debug, PartialEq, Eq, Structural)]
pub enum InvalidUtf8Array {
    /// The bytes do not form a well-formed sequence.
    Utf8(InvalidUtf8),
    /// The bytes are well-formed but encode an invalid codepoint.
    Codepoint(CodepointError),
}

impl InvalidUtf8Array {
    /// The text returned by [`description`](Self::description).
    pub open spec fn description_spec(self) -> Seq<char> {
        match self {
            InvalidUtf8Array::Utf8(e) => e.description_spec(),
            InvalidUtf8Array::Codepoint(e) => e.description_spec(),
        }
    }

    /// A short explanation of the error.
    pub fn description(self) -> (r: &'static str)
        ensures
            r@ == self.description_spec(),
    {
        match self {
            InvalidUtf8Array::Utf8(e) => e.description(),
            InvalidUtf8Array::Codepoint(e) => e.description(),
        }
    }
}

/// Cannot tell whether a `u16` needs an extra unit,
/// because it's a trailing surrogate itself.
#[derive(Clone, Copy, Debug, PartialEq, Eq, Structural)]
pub struct InvalidUtf16FirstUnit;

impl InvalidUtf16FirstUnit {
    /// A short explanation of the error.
    pub fn description(self) -> (r: &'static str)
        ensures
            r@ == "is a trailing surrogate"@,
    {
        "is a trailing surrogate"
    }
}

/// Reasons why one or two `u16`s are not valid UTF-16.
#[derive(Clone, Copy, Debug, PartialEq, Eq, Structural)]
pub enum InvalidUtf16Tuple {
    /// The first unit is a trailing surrogate, which is never valid.
    FirstIsTrailingSurrogate,
    /// The provided second unit is not necessary.
    SuperfluousSecond,
    /// The first and only unit requires a second unit.
    MissingSecond,
    /// The second unit is needed and was provided,
    /// but is not a trailing surrogate.
    InvalidSecond,
}

impl InvalidUtf16Tuple {
    /// The text returned by [`description`](Self::description).
    pub open spec fn description_spec(self) -> Seq<char> {
        match self {
            InvalidUtf16Tuple::FirstIsTrailingSurrogate => {
                "the first unit is a trailing surrogate"@
            },
            InvalidUtf16Tuple::SuperfluousSecond => "the second unit is superfluous"@,
            InvalidUtf16Tuple::MissingSecond => "the first unit requires a second unit"@,
            InvalidUtf16Tuple::InvalidSecond => {
                "the required second unit is not a trailing surrogate"@
            },
        }
    }

    /// A short explanation of the error.
    pub fn description(self) -> (r: &'static str)
        ensures
            r@ == self.description_spec(),
    {
        match self {
            InvalidUtf16Tuple::FirstIsTrailingSurrogate => {
                "the first unit is a trailing surrogate"
            },
            InvalidUtf16Tuple::SuperfluousSecond => "the second unit is superfluous",
            InvalidUtf16Tuple::MissingSecond => "the first unit requires a second unit",
            InvalidUtf16Tuple::InvalidSecond => {
                "the required second unit is not a trailing surrogate"
            },
        }
    }
}

/// Reasons why a slice of `u16`s does not start with valid UTF-16.
#[derive(Clone, Copy, Debug, PartialEq, Eq, Structural)]
pub enum InvalidUtf16Slice {
    /// The slice is empty.
    EmptySlice,
    /// The first unit is a trailing surrogate.
    FirstLowSurrogate,
    /// The first and only unit requires a second one.
    MissingSecond,
    /// The first unit requires a second one, but it's not a trailing surrogate.
    SecondNotLowSurrogate,
}

impl InvalidUtf16Slice {
    /// The text returned by [`description`](Self::description).
    pub open spec fn description_spec(self) -> Seq<char> {
        match self {
            InvalidUtf16Slice::EmptySlice => "the slice is empty"@,
            InvalidUtf16Slice::FirstLowSurrogate => "the first unit is a trailing surrogate"@,
            InvalidUtf16Slice::MissingSecond => "the first and only unit requires a second one"@,
            InvalidUtf16Slice::SecondNotLowSurrogate => {
                "the required second unit is not a trailing surrogate"@
            },
        }
    }

    /// A short explanation of the error.
    pub fn description(self) -> (r: &'static str)
        ensures
            r@ == self.description_spec(),
    {
        match self {
            InvalidUtf16Slice::EmptySlice => "the slice is empty",
            InvalidUtf16Slice::FirstLowSurrogate => "the first unit is a trailing surrogate",
            InvalidUtf16Slice::MissingSecond => "the first and only unit requires a second one",
            InvalidUtf16Slice::SecondNotLowSurrogate => {
                "the required second unit is not a trailing surrogate"
            },
        }
    }
}

/// Reasons why `Utf8Char::from_str()` failed.
#[derive(Clone, Copy, Debug, PartialEq, Eq, Structural)]
pub enum FromStrError {
    /// `Utf8Char` and `Utf16Char` cannot store more than a single codepoint.
    MultipleCodepoints,
    /// `Utf8Char` and `Utf16Char` cannot be empty.
    Empty,
}

impl FromStrError {
    /// The text returned by [`description`](Self::description).
    pub open spec fn description_spec(self) -> Seq<char> {
        match self {
            FromStrError::MultipleCodepoints => "contains more than one codepoint"@,
            FromStrError::Empty => "is empty"@,
        }
    }

    /// A short explanation of the error.
    pub fn description(self) -> (r: &'static str)
        ensures
            r@ == self.description_spec(),
    {
        match self {
            FromStrError::MultipleCodepoints => "contains more than one codepoint",
            FromStrError::Empty => "is empty",
        }
    }
}

/// Error returned by `Utf8Char::from_ascii()` for bytes
/// that are not ASCII characters.
#[derive(Clone, Copy, Debug, PartialEq, Eq, Structural)]
pub struct NonAsciiError;

impl NonAsciiError {
    /// A short explanation of the error.
    pub fn description(self) -> (r: &'static str)
        ensures
            r@ == "not an ASCII character"@,
    {
        "not an ASCII character"
    }
}

/// Error returned by `Utf16Char::from_bmp()` for units
/// that are not a standalone codepoint.
#[derive(Clone, Copy, Debug, PartialEq, Eq, Structural)]
pub struct NonBmpError;

impl NonBmpError {
    /// A short explanation of the error.
    pub fn description(self) -> (r: &'static str)
        ensures
            r@ == "not a codepoint in the basic multilingual plane"@,
    {
        "not a codepoint in the basic multilingual plane"
    }
}

} // verus!
