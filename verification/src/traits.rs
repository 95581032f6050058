//! Extension traits: UTF-8 methods for `u8`, UTF-16 methods for `u16`,
//! and the conversions between `char` and its encoded forms.

use vstd::prelude::*;
use vstd::utf8::{decode_first_scalar, encode_scalar, is_scalar, length_of_first_scalar,
    valid_first_scalar};
use crate::errors::{
    CodepointError, InvalidUtf16FirstUnit, InvalidUtf16Slice, InvalidUtf16Tuple, InvalidUtf8Array,
    InvalidUtf8FirstByte, InvalidUtf8Slice,
};
use crate::utf8_model::{spec_extra_utf8_bytes, spec_from_utf8_array, spec_from_utf8_slice_start,
    spec_overlong, spec_to_utf8_array};
use crate::utf16_model::{
    bv_combine_ten_bits, lemma_combine_then_split, spec_combine_surrogates, spec_encode_utf16,
    spec_from_utf16_slice_start, spec_from_utf16_tuple, spec_is_leading_surrogate,
    spec_is_trailing_surrogate, spec_to_utf16_tuple, spec_utf16_needs_extra_unit,
};
use crate::utf8_char::Utf8Char;
use crate::utf16_char::Utf16Char;
use crate::utf8_iterator::{Utf8CharIndices, Utf8Chars, Utf8Iterator};
use crate::utf16_iterator::{Utf16CharIndices, Utf16Chars, Utf16Iterator};

verus! {

/// Methods for working with `u8`s as UTF-8 bytes.
pub trait U8UtfExt {
    /// The byte itself, for stating the contracts.
    spec fn byte_value(self) -> u8;

    /// How many more bytes will you need to complete this codepoint?
    ///
    /// Fails with `ContinuationByte` for bytes in `128..192` and with
    /// `TooLongSeqence` for bytes in `248..`. Bytes in `244..248` begin
    /// a too high codepoint but do not cause an error here.
    fn extra_utf8_bytes(self) -> (r: Result<usize, InvalidUtf8FirstByte>)
        ensures
            r == spec_extra_utf8_bytes(self.byte_value()),
    ;

    /// How many more bytes will you need to complete this codepoint?
    ///
    /// This function assumes that the byte is a valid start of a
    /// codepoint, and might return any count otherwise — but it is pure
    /// and safe to call with any value.
    fn extra_utf8_bytes_unchecked(self) -> (r: usize)
        ensures
            spec_extra_utf8_bytes(self.byte_value()) matches Ok(n) ==> r == n,
            r <= 3,
    ;
}

impl U8UtfExt for u8 {
    open spec fn byte_value(self) -> u8 {
        self
    }

    fn extra_utf8_bytes(self) -> (r: Result<usize, InvalidUtf8FirstByte>) {
        if self < 0x80 {
            Ok(0)
        } else if self < 0xc0 {
            Err(InvalidUtf8FirstByte::ContinuationByte)
        } else if self < 0xe0 {
            Ok(1)
        } else if self < 0xf0 {
            Ok(2)
        } else if self < 0xf8 {
            Ok(3)
        } else {
            Err(InvalidUtf8FirstByte::TooLongSeqence)
        }
    }

    fn extra_utf8_bytes_unchecked(self) -> (r: usize) {
        if self < 0x80 {
            0
        } else if self < 0xe0 {
            1
        } else if self < 0xf0 {
            2
        } else {
            3
        }
    }
}

/// Methods for working with `u16`s as UTF-16 units.
pub trait U16UtfExt {
    /// The unit itself, for stating the contracts.
    spec fn unit_value(self) -> u16;

    /// Will you need an extra unit to complete this codepoint?
    ///
    /// Returns `Err` for trailing surrogates, `Ok(true)` for leading
    /// surrogates, and `Ok(false)` for others.
    fn utf16_needs_extra_unit(self) -> (r: Result<bool, InvalidUtf16FirstUnit>)
        ensures
            r == spec_utf16_needs_extra_unit(self.unit_value()),
    ;

    /// Does this `u16` need another `u16` to complete a codepoint?
    /// Returns `(self & 0xfc00) == 0xd800`.
    ///
    /// Is basically an unchecked variant of `utf16_needs_extra_unit()`.
    fn is_utf16_leading_surrogate(self) -> (r: bool)
        ensures
            r == spec_is_leading_surrogate(self.unit_value()),
    ;
}

// A single mask distinguishes the leading surrogates.
proof fn bv_leading_surrogate_mask(u: u16)
    by (bit_vector)
    ensures
        ((u & 0xfc00) == 0xd800) == (0xd800 <= u <= 0xdbff),
{
}

impl U16UtfExt for u16 {
    open spec fn unit_value(self) -> u16 {
        self
    }

    fn utf16_needs_extra_unit(self) -> (r: Result<bool, InvalidUtf16FirstUnit>) {
        if self >= 0xdc00 && self <= 0xdfff {
            Err(InvalidUtf16FirstUnit)
        } else if self >= 0xd800 && self <= 0xdbff {
            Ok(true)
        } else {
            Ok(false)
        }
    }

    fn is_utf16_leading_surrogate(self) -> (r: bool) {
        proof {
            bv_leading_surrogate_mask(self);
        }
        (self & 0xfc00) == 0xd800
    }
}

/// Extension trait for `char` that adds methods for converting to and
/// from UTF-8 or UTF-16.
pub trait CharExt: Sized {
    /// The codepoint itself, for stating the contracts.
    spec fn char_value(self) -> char;

    /// Get the UTF-8 representation of this codepoint.
    ///
    /// `Utf8Char` is to `[u8; 4]` what `char` is to `u32`:
    /// a restricted type that cannot be mutated internally.
    fn to_utf8(self) -> (r: Utf8Char)
        ensures
            r == Utf8Char::spec_from_char(self.char_value()),
            r@ == self.char_value(),
    ;

    /// Get the UTF-16 representation of this codepoint.
    ///
    /// `Utf16Char` is to `[u16; 2]` what `char` is to `u32`:
    /// a restricted type that cannot be mutated internally.
    fn to_utf16(self) -> (r: Utf16Char)
        ensures
            r == Utf16Char::spec_from_char(self.char_value()),
            r@ == self.char_value(),
    ;

    /// Iterate over or read the one to four bytes in the UTF-8
    /// representation of this codepoint.
    fn iter_utf8_bytes(self) -> (r: Utf8Iterator)
        ensures
            r@ == encode_scalar(self.char_value() as u32),
    ;

    /// Iterate over the one or two units in the UTF-16 representation of
    /// this codepoint.
    fn iter_utf16_units(self) -> (r: Utf16Iterator)
        ensures
            r@ == spec_encode_utf16(self.char_value() as u32),
    ;

    /// Convert this char to a UTF-8 array and length: the encoded bytes
    /// left-aligned with unused bytes set to zero, and how many of them
    /// are used.
    fn to_utf8_array(self) -> (r: ([u8; 4], usize))
        ensures
            r.0@ == spec_to_utf8_array(self.char_value() as u32)@,
            r.1 == encode_scalar(self.char_value() as u32).len(),
    ;

    /// Convert this char to UTF-16.
    /// The second `u16` is `Some` if a surrogate pair is required.
    fn to_utf16_tuple(self) -> (r: (u16, Option<u16>))
        ensures
            r == spec_to_utf16_tuple(self.char_value() as u32),
    ;

    /// Create a `char` from the start of a UTF-8 slice,
    /// and also return how many bytes were used.
    fn from_utf8_slice_start(src: &[u8]) -> (r: Result<(Self, usize), InvalidUtf8Slice>)
        ensures
            r matches Ok((c, n)) ==> spec_from_utf8_slice_start(src@) == Ok::<
                (u32, usize),
                InvalidUtf8Slice,
            >((c.char_value() as u32, n)),
            r matches Err(e) ==> spec_from_utf8_slice_start(src@) == Err::<
                (u32, usize),
                InvalidUtf8Slice,
            >(e),
    ;

    /// Create a `char` from the start of a UTF-16 slice,
    /// and also return how many units were used.
    ///
    /// If you want to continue after an error, continue with the next
    /// `u16`.
    fn from_utf16_slice_start(src: &[u16]) -> (r: Result<(Self, usize), InvalidUtf16Slice>)
        ensures
            r matches Ok((c, n)) ==> spec_from_utf16_slice_start(src@) == Ok::<
                (u32, usize),
                InvalidUtf16Slice,
            >((c.char_value() as u32, n)),
            r matches Err(e) ==> spec_from_utf16_slice_start(src@) == Err::<
                (u32, usize),
                InvalidUtf16Slice,
            >(e),
    ;

    /// Convert a UTF-8 sequence as returned from `.to_utf8_array()` into
    /// a `char`.
    fn from_utf8_array(utf8: [u8; 4]) -> (r: Result<Self, InvalidUtf8Array>)
        ensures
            r matches Ok(c) ==> spec_from_utf8_array(utf8@) == Ok::<u32, InvalidUtf8Array>(
                c.char_value() as u32,
            ),
            r matches Err(e) ==> spec_from_utf8_array(utf8@) == Err::<u32, InvalidUtf8Array>(e),
    ;

    /// Convert a UTF-16 pair as returned from `.to_utf16_tuple()` into a
    /// `char`.
    fn from_utf16_tuple(utf16: (u16, Option<u16>)) -> (r: Result<Self, InvalidUtf16Tuple>)
        ensures
            r matches Ok(c) ==> spec_from_utf16_tuple(utf16.0, utf16.1) == Ok::<
                u32,
                InvalidUtf16Tuple,
            >(c.char_value() as u32),
            r matches Err(e) ==> spec_from_utf16_tuple(utf16.0, utf16.1) == Err::<
                u32,
                InvalidUtf16Tuple,
            >(e),
    ;

    /// Convert a UTF-8 sequence into a `char`, without runtime
    /// validation. The slice must hold exactly one well-formed codepoint
    /// encoding; the proof obligation replaces the original's
    /// `unsafe` contract.
    fn from_utf8_exact_slice_unchecked(src: &[u8]) -> (r: Self)
        requires
            valid_first_scalar(src@),
            length_of_first_scalar(src@) == src@.len(),
        ensures
            r.char_value() as u32 == decode_first_scalar(src@),
    ;

    /// Convert a valid UTF-16 tuple into a `char`, without runtime
    /// validation. The proof obligation replaces the original's
    /// `unsafe` contract.
    fn from_utf16_tuple_unchecked(utf16: (u16, Option<u16>)) -> (r: Self)
        requires
            spec_from_utf16_tuple(utf16.0, utf16.1) is Ok,
        ensures
            spec_from_utf16_tuple(utf16.0, utf16.1) == Ok::<u32, InvalidUtf16Tuple>(
                r.char_value() as u32,
            ),
    ;

    /// Perform some extra validations compared to `char::from_u32()`.
    ///
    /// Fails with `Utf16Reserved` for values between 0xd800 and 0xdfff
    /// inclusive, and with `TooHigh` for values greater than 0x10ffff;
    /// succeeds on exactly the valid scalar values.
    fn from_u32_detailed(c: u32) -> (r: Result<Self, CodepointError>)
        ensures
            r is Ok <==> is_scalar(c),
            r matches Ok(x) ==> x.char_value() as u32 == c,
            r matches Err(e) ==> ((e == CodepointError::Utf16Reserved) <==> (0xd800 <= c
                <= 0xdfff)) && ((e == CodepointError::TooHigh) <==> c > 0x10ffff),
    ;
}

impl CharExt for char {
    open spec fn char_value(self) -> char {
        self
    }

    fn to_utf8(self) -> (r: Utf8Char) {
        proof {
            Utf8Char::lemma_spec_from_char(self);
        }
        Utf8Char::from(self)
    }

    fn to_utf16(self) -> (r: Utf16Char) {
        proof {
            Utf16Char::lemma_spec_from_char(self);
        }
        Utf16Char::from(self)
    }

    fn iter_utf8_bytes(self) -> (r: Utf8Iterator) {
        proof {
            Utf8Char::lemma_spec_from_char(self);
            Utf8Iterator::lemma_fresh(Utf8Char::spec_from_char(self));
        }
        Utf8Iterator::from(self)
    }

    fn iter_utf16_units(self) -> (r: Utf16Iterator) {
        let uc = self.to_utf16();
        proof {
            use_type_invariant(&uc);
            Utf16Iterator::lemma_fresh(uc);
        }
        Utf16Iterator::from(uc)
    }

    fn to_utf8_array(self) -> (r: ([u8; 4], usize)) {
        let uc = self.to_utf8();
        proof {
            use_type_invariant(&uc);
            uc.lemma_stored_form();
        }
        uc.to_array()
    }

    fn to_utf16_tuple(self) -> (r: (u16, Option<u16>)) {
        self.to_utf16().to_tuple()
    }

    fn from_utf8_slice_start(src: &[u8]) -> (r: Result<(Self, usize), InvalidUtf8Slice>) {
        match Utf8Char::from_slice_start(src) {
            Ok((u, n)) => Ok((u.to_char(), n)),
            Err(e) => Err(e),
        }
    }

    fn from_utf16_slice_start(src: &[u16]) -> (r: Result<(Self, usize), InvalidUtf16Slice>) {
        match Utf16Char::from_slice(src) {
            Ok((u, n)) => Ok((u.to_char(), n)),
            Err(e) => Err(e),
        }
    }

    fn from_utf8_array(utf8: [u8; 4]) -> (r: Result<Self, InvalidUtf8Array>) {
        match Utf8Char::from_array(utf8) {
            Ok(u) => Ok(u.to_char()),
            Err(e) => Err(e),
        }
    }

    fn from_utf16_tuple(utf16: (u16, Option<u16>)) -> (r: Result<Self, InvalidUtf16Tuple>) {
        match Utf16Char::from_tuple(utf16) {
            Ok(u) => Ok(u.to_char()),
            Err(e) => Err(e),
        }
    }

    fn from_utf8_exact_slice_unchecked(src: &[u8]) -> (r: Self) {
        let (u, _) = Utf8Char::from_slice_start_unchecked(src);
        let c = u.to_char();
        proof {
            vstd::utf8::char_u32_cast(c, decode_first_scalar(src@));
        }
        c
    }

    fn from_utf16_tuple_unchecked(utf16: (u16, Option<u16>)) -> (r: Self) {
        match utf16.1 {
            Some(second) => combine_surrogates(utf16.0, second),
            None => {
                let c = char::from_u32(utf16.0 as u32).unwrap();
                proof {
                    vstd::utf8::char_u32_cast(c, utf16.0 as u32);
                }
                c
            },
        }
    }

    fn from_u32_detailed(c: u32) -> (r: Result<Self, CodepointError>) {
        if c >= 0xd800 && c <= 0xdfff {
            Err(CodepointError::Utf16Reserved)
        } else if c > 0x10ffff {
            Err(CodepointError::TooHigh)
        } else {
            let x = char::from_u32(c).unwrap();
            proof {
                vstd::utf8::char_u32_cast(x, c);
            }
            Ok(x)
        }
    }
}

/// Whether the first two bytes of a multi-byte UTF-8 sequence show that
/// the encoded value would have fit in fewer bytes.
pub fn overlong(first: u8, second: u8) -> (r: bool)
    ensures
        r == spec_overlong(first, second),
{
    if first < 0x80 {
        false
    } else if (first & 0xe0) == 0xc0 {
        (first & 0xfe) == 0xc0
    } else if (first & 0xf0) == 0xe0 {
        first == 0xe0 && (second & 0xe0) == 0x80
    } else {
        first == 0xf0 && (second & 0xf0) == 0x80
    }
}

// The ten data bits of a surrogate are its offset within the surrogate
// range.
proof fn bv_surrogate_data_bits(f: u16, s: u16)
    by (bit_vector)
    requires
        0xd800 <= f <= 0xdbff,
        0xdc00 <= s <= 0xdfff,
    ensures
        (f & 0x3ff) == f - 0xd800,
        (s & 0x3ff) == s - 0xdc00,
        (f & 0x3ff) <= 0x3ff,
        (s & 0x3ff) <= 0x3ff,
{
}

/// Create a `char` from a leading and a trailing surrogate.
fn combine_surrogates(first: u16, second: u16) -> (r: char)
    requires
        spec_is_leading_surrogate(first),
        spec_is_trailing_surrogate(second),
    ensures
        r as u32 == spec_combine_surrogates(first, second),
{
    proof {
        bv_surrogate_data_bits(first, second);
        bv_combine_ten_bits((first & 0x3ff) as u32, (second & 0x3ff) as u32);
        lemma_combine_then_split(first, second);
    }
    let high = (first & 0x3ff) as u32;
    let low = (second & 0x3ff) as u32;
    let c = ((high << 10) | low) + 0x10000;
    let r = char::from_u32(c).unwrap();
    proof {
        vstd::utf8::char_u32_cast(r, c);
    }
    r
}

/// Adds `.utf8chars()` and `.utf16chars()` iterator constructors to
/// `&str`.
pub trait StrExt {
    /// The codepoints of the string, for stating the contracts.
    spec fn spec_chars(&self) -> Seq<char>;

    /// Equivalent to `.chars()` but produces `Utf8Char`s.
    fn utf8chars<'a>(&'a self) -> (r: Utf8Chars<'a>)
        ensures
            r@ == self.spec_chars(),
    ;

    /// Equivalent to `.chars()` but produces `Utf16Char`s.
    fn utf16chars<'a>(&'a self) -> (r: Utf16Chars<'a>)
        ensures
            r@ == self.spec_chars(),
    ;

    /// Equivalent to `.char_indices()` but produces `Utf8Char`s.
    fn utf8char_indices<'a>(&'a self) -> (r: Utf8CharIndices<'a>)
        ensures
            r@ == self.spec_chars(),
            r.spec_offset() == 0,
    ;

    /// Equivalent to `.char_indices()` but produces `Utf16Char`s.
    fn utf16char_indices<'a>(&'a self) -> (r: Utf16CharIndices<'a>)
        ensures
            r@ == self.spec_chars(),
            r.spec_offset() == 0,
    ;
}

impl StrExt for str {
    open spec fn spec_chars(&self) -> Seq<char> {
        self@
    }

    fn utf8chars<'a>(&'a self) -> (r: Utf8Chars<'a>) {
        proof {
            Utf8Chars::lemma_fresh(self);
        }
        Utf8Chars::from(self)
    }

    fn utf16chars<'a>(&'a self) -> (r: Utf16Chars<'a>) {
        proof {
            Utf16Chars::lemma_fresh(self);
        }
        Utf16Chars::from(self)
    }

    fn utf8char_indices<'a>(&'a self) -> (r: Utf8CharIndices<'a>) {
        proof {
            Utf8CharIndices::lemma_fresh(self);
        }
        Utf8CharIndices::from(self)
    }

    fn utf16char_indices<'a>(&'a self) -> (r: Utf16CharIndices<'a>) {
        proof {
            Utf16CharIndices::lemma_fresh(self);
        }
        Utf16CharIndices::from(self)
    }
}

} // verus!
