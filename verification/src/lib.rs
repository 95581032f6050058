//! UTF-8 and UTF-16 types and methods for handling one codepoint at a time.
//!
//! A `char` cannot be borrowed as an encoded byte or unit slice without
//! allocating; the [`Utf8Char`] and [`Utf16Char`] types store the encoded
//! form of exactly one codepoint on the stack and expose it directly.
//! The conversions between scalar values and their encoded forms are fully
//! specified and verified: every decode function states exactly which error
//! it returns for which malformed input.
//!
//! The specifications the contracts are written against live in
//! [`utf8_model`] and [`utf16_model`], building on `vstd::utf8`.

use vstd::prelude::*;

mod errors;
mod traits;
pub mod error;
pub mod iterator;
pub mod utf8_model;
pub mod utf16_model;
mod utf16_char;
mod utf8_iterator;
mod utf16_iterator;
mod builders;
mod utf8_char;

pub use traits::{overlong, CharExt, StrExt, U16UtfExt, U8UtfExt};
pub use utf16_char::Utf16Char;
pub use utf8_iterator::Utf8Iterator;
pub use utf16_iterator::Utf16Iterator;
pub use builders::{Utf16CharBuilder, Utf8CharBuilder};
pub use utf8_iterator::{Utf8CharIndices, Utf8Chars, Utf8CharSplitter};
pub use utf16_iterator::{Utf16CharIndices, Utf16Chars, Utf16CharSplitter};
pub use utf8_char::Utf8Char;
pub use errors::{
    CodepointError, FromStrError, InvalidUtf16FirstUnit, InvalidUtf16Slice, InvalidUtf16Tuple,
    InvalidUtf8, InvalidUtf8Array, InvalidUtf8FirstByte, InvalidUtf8Slice, NonAsciiError,
    NonBmpError,
};

verus! {

/// ASCII upper-case mapping on scalar values: `a`..`z` map to `A`..`Z`,
/// everything else is unchanged.
pub open spec fn spec_ascii_to_upper(v: u32) -> u32 {
    if 0x61 <= v <= 0x7a {
        (v - 0x20) as u32
    } else {
        v
    }
}

/// ASCII lower-case mapping on scalar values: `A`..`Z` map to `a`..`z`,
/// everything else is unchanged.
pub open spec fn spec_ascii_to_lower(v: u32) -> u32 {
    if 0x41 <= v <= 0x5a {
        (v + 0x20) as u32
    } else {
        v
    }
}

/// Relies on `char::from_u32`: it returns `Some` exactly for the valid
/// scalar values (at most 0x10ffff and not a surrogate), and the returned
/// `char` has the given value.
pub assume_specification[ char::from_u32 ](v: u32) -> (r: Option<char>)
    ensures
        r is Some <==> vstd::utf8::is_scalar(v),
        r matches Some(c) ==> c as u32 == v,
;

#[verifier::external_type_specification]
#[verifier::external_body]
pub struct ExStrUtf8Error(core::str::Utf8Error);

/// Relies on `core::str::from_utf8`: it returns `Ok` exactly for valid
/// UTF-8, and the returned `&str` views the given bytes.
pub assume_specification[ core::str::from_utf8 ](v: &[u8]) -> (r: Result<
    &str,
    core::str::Utf8Error,
>)
    ensures
        r is Ok <==> vstd::utf8::valid_utf8(v@),
        r matches Ok(s) ==> vstd::utf8::encode_utf8(s@) == v@,
;

} // verus!
