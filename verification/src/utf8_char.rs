//! A codepoint stored as UTF-8: validating constructors, read-only views
//! of the encoded bytes, and conversions back to `char`.

use vstd::prelude::*;
use vstd::utf8::{
    decode_first_codepoint, decode_first_scalar, encode_scalar, is_scalar, length_of_first_scalar,
    valid_first_scalar,
};
use crate::errors::{
    CodepointError, InvalidUtf8, InvalidUtf8Array, InvalidUtf8FirstByte, InvalidUtf8Slice,
    NonAsciiError,
};
use crate::errors::FromStrError;
use crate::utf16_char::Utf16Char;
use crate::utf8_model::{
    bv_facts_width_1, bv_facts_width_2, bv_facts_width_3, bv_facts_width_4, lemma_canonical_bytes,
    lemma_canonical_order, lemma_encode_scalar_bytes, lemma_encode_utf8_single,
    lemma_first_scalar_unaffected_by_tail, lemma_from_utf8_array_characterization,
    lemma_from_utf8_slice_start_characterization, lemma_str_bytes_shape, lemma_to_utf8_array,
    spec_from_utf8_array, spec_from_utf8_slice_start, spec_lex_less, spec_to_utf8_array,
};

verus! {

/// A Unicode codepoint stored as UTF-8.
///
/// It stores the one to four encoded bytes left-aligned in a fixed
/// 4-byte buffer whose unused bytes are zero, has the same size as
/// `char`, and can expose the encoding without further validation.
#[derive(Clone, Copy, Debug, Hash, Eq, Ord)]
pub struct Utf8Char {
    bytes: [u8; 4],
}

impl View for Utf8Char {
    type V = char;

    /// The codepoint this value encodes.
    closed spec fn view(&self) -> char {
        decode_first_scalar(self.bytes@) as char
    }
}

impl Utf8Char {
    /// The whole 4-byte buffer: the encoding of the codepoint followed by
    /// zeros.
    pub closed spec fn spec_bytes(self) -> Seq<u8> {
        self.bytes@
    }

    /// How many bytes the encoding uses, between 1 and 4.
    pub open spec fn spec_len(self) -> int {
        encode_scalar(self@ as u32).len() as int
    }

    /// The type invariant: every value of this type satisfies it.
    /// Obtain it for a concrete value with `use_type_invariant`.
    #[verifier::type_invariant]
    pub closed spec fn well_formed(self) -> bool {
        &&& valid_first_scalar(self.bytes@)
        &&& forall|i: int| length_of_first_scalar(self.bytes@) <= i < 4 ==> self.bytes@[i] == 0
    }

    /// The length invariant: the buffer holds exactly the canonical
    /// encoding of the stored codepoint, left-aligned, and every byte
    /// past the reported length is zero.
    pub proof fn lemma_stored_form(self)
        requires
            self.well_formed(),
        ensures
            is_scalar(self@ as u32),
            self.spec_bytes().len() == 4,
            self.spec_bytes() == spec_to_utf8_array(self@ as u32)@,
            self.spec_bytes().subrange(0, self.spec_len()) == encode_scalar(self@ as u32),
            forall|i: int| self.spec_len() <= i < 4 ==> self.spec_bytes()[i] == 0,
            1 <= self.spec_len() <= 4,
            decode_first_scalar(self.spec_bytes()) == self@ as u32,
            valid_first_scalar(self.spec_bytes()),
            length_of_first_scalar(self.spec_bytes()) == self.spec_len(),
    {
        lemma_canonical_bytes(self.bytes@);
        let v = decode_first_scalar(self.bytes@);
        assert(self@ as u32 == v);
        lemma_to_utf8_array(v);
        lemma_encode_scalar_bytes(v);
        assert(self.spec_bytes().subrange(0, self.spec_len()) =~= encode_scalar(v));
    }

    /// Validate the array and store it.
    pub fn from_array(utf8: [u8; 4]) -> (r: Result<Self, InvalidUtf8Array>)
        ensures
            r matches Ok(u) ==> spec_from_utf8_array(utf8@) == Ok::<u32, InvalidUtf8Array>(
                u@ as u32,
            ),
            r matches Err(e) ==> spec_from_utf8_array(utf8@) == Err::<u32, InvalidUtf8Array>(e),
    {
        let b0 = utf8[0];
        if b0 < 0x80 {
            proof {
                bv_facts_width_1(b0);
            }
            let u = Utf8Char { bytes: [b0, 0, 0, 0] };
            proof {
                assert(u.bytes@ =~= seq![b0, 0u8, 0u8, 0u8]);
            }
            Ok(u)
        } else if b0 < 0xc0 {
            Err(InvalidUtf8Array::Utf8(InvalidUtf8::FirstByte(InvalidUtf8FirstByte::ContinuationByte)))
        } else if b0 < 0xf8 {
            let extra: usize = if b0 < 0xe0 {
                1
            } else if b0 < 0xf0 {
                2
            } else {
                3
            };
            let b1 = utf8[1];
            let b2 = utf8[2];
            let b3 = utf8[3];
            if b1 < 0x80 || b1 > 0xbf {
                return Err(InvalidUtf8Array::Utf8(InvalidUtf8::NotAContinuationByte(1)));
            }
            if extra >= 2 && (b2 < 0x80 || b2 > 0xbf) {
                return Err(InvalidUtf8Array::Utf8(InvalidUtf8::NotAContinuationByte(2)));
            }
            if extra >= 3 && (b3 < 0x80 || b3 > 0xbf) {
                return Err(InvalidUtf8Array::Utf8(InvalidUtf8::NotAContinuationByte(3)));
            }
            proof {
                if b0 < 0xe0 {
                    bv_facts_width_2(b0, b1);
                } else if b0 < 0xf0 {
                    bv_facts_width_3(b0, b1, b2);
                } else {
                    bv_facts_width_4(b0, b1, b2, b3);
                }
            }
            if b0 == 0xc0 || b0 == 0xc1 || (b0 == 0xe0 && b1 < 0xa0) || (b0 == 0xf0 && b1 < 0x90) {
                return Err(InvalidUtf8Array::Utf8(InvalidUtf8::OverLong));
            }
            let v: u32 = if extra == 1 {
                (((b0 & 0x1F) as u32) << 6) | ((b1 & 0x3F) as u32)
            } else if extra == 2 {
                (((b0 & 0x0F) as u32) << 12) | (((b1 & 0x3F) as u32) << 6) | ((b2 & 0x3F) as u32)
            } else {
                (((b0 & 0x07) as u32) << 18) | (((b1 & 0x3F) as u32) << 12) | (((b2 & 0x3F) as u32)
                    << 6) | ((b3 & 0x3F) as u32)
            };
            proof {
                assert(decode_first_codepoint(utf8@) == v);
            }
            if v >= 0xd800 && v <= 0xdfff {
                return Err(InvalidUtf8Array::Codepoint(CodepointError::Utf16Reserved));
            }
            if v > 0x10ffff {
                return Err(InvalidUtf8Array::Codepoint(CodepointError::TooHigh));
            }
            let stored: [u8; 4] = if extra == 1 {
                [b0, b1, 0, 0]
            } else if extra == 2 {
                [b0, b1, b2, 0]
            } else {
                [b0, b1, b2, b3]
            };
            let u = Utf8Char { bytes: stored };
            proof {
                assert(decode_first_codepoint(stored@) == v);
                assert(length_of_first_scalar(stored@) == extra + 1);
            }
            Ok(u)
        } else {
            Err(InvalidUtf8Array::Utf8(InvalidUtf8::FirstByte(InvalidUtf8FirstByte::TooLongSeqence)))
        }
    }

    /// Store the array without validating it.
    ///
    /// The caller must show that the array starts with one well-formed
    /// codepoint encoding and that the unused bytes are zero.
    pub fn from_array_unchecked(utf8: [u8; 4]) -> (r: Self)
        requires
            spec_from_utf8_array(utf8@) is Ok,
            forall|i: int| length_of_first_scalar(utf8@) <= i < 4 ==> utf8@[i] == 0,
        ensures
            spec_from_utf8_array(utf8@) == Ok::<u32, InvalidUtf8Array>(r@ as u32),
            r.spec_bytes() == utf8@,
    {
        proof {
            lemma_from_utf8_array_characterization(utf8@);
        }
        Utf8Char { bytes: utf8 }
    }

    /// The number of bytes the codepoint needs, between 1 and 4; the same
    /// as `.as_str().len()` or `.to_char().len_utf8()`.
    /// There is no `.is_empty()` because this type is never empty.
    pub fn len(self) -> (r: usize)
        ensures
            r == self.spec_len(),
    {
        proof {
            use_type_invariant(&self);
            self.lemma_stored_form();
            lemma_encode_scalar_bytes(self@ as u32);
        }
        let b0 = self.bytes[0];
        if b0 < 0x80 {
            1
        } else if b0 < 0xe0 {
            2
        } else if b0 < 0xf0 {
            3
        } else {
            4
        }
    }

    /// Checks that the codepoint is an ASCII character.
    pub fn is_ascii(&self) -> (r: bool)
        ensures
            r == ((self@ as u32) < 128),
    {
        proof {
            use_type_invariant(&self);
            self.lemma_stored_form();
            lemma_encode_scalar_bytes(self@ as u32);
        }
        self.bytes[0] <= 127
    }

    /// Convert from UTF-8 to UTF-32.
    pub fn to_char(self) -> (r: char)
        ensures
            r == self@,
    {
        proof {
            use_type_invariant(&self);
            self.lemma_stored_form();
            lemma_encode_scalar_bytes(self@ as u32);
        }
        let b = self.bytes;
        let b0 = b[0];
        let v: u32 = if b0 < 0x80 {
            proof {
                bv_facts_width_1(b0);
            }
            b0 as u32
        } else if b0 < 0xe0 {
            (((b0 & 0x1F) as u32) << 6) | ((b[1] & 0x3F) as u32)
        } else if b0 < 0xf0 {
            (((b0 & 0x0F) as u32) << 12) | (((b[1] & 0x3F) as u32) << 6) | ((b[2] & 0x3F) as u32)
        } else {
            (((b0 & 0x07) as u32) << 18) | (((b[1] & 0x3F) as u32) << 12) | (((b[2] & 0x3F) as u32)
                << 6) | ((b[3] & 0x3F) as u32)
        };
        proof {
            assert(b@ == self.spec_bytes());
            assert(decode_first_codepoint(self.spec_bytes()) == v);
        }
        let c = char::from_u32(v).unwrap();
        proof {
            vstd::utf8::char_u32_cast(c, v);
        }
        c
    }

    /// Validate the start of a UTF-8 slice and store it.
    /// Also returns how many bytes were needed.
    pub fn from_slice_start(src: &[u8]) -> (r: Result<(Self, usize), InvalidUtf8Slice>)
        ensures
            r matches Ok((u, n)) ==> spec_from_utf8_slice_start(src@) == Ok::<
                (u32, usize),
                InvalidUtf8Slice,
            >((u@ as u32, n)),
            r matches Err(e) ==> spec_from_utf8_slice_start(src@) == Err::<
                (u32, usize),
                InvalidUtf8Slice,
            >(e),
    {
        if src.len() == 0 {
            return Err(InvalidUtf8Slice::TooShort(1));
        }
        let b0 = src[0];
        if b0 < 0x80 {
            proof {
                bv_facts_width_1(b0);
            }
            let u = Utf8Char { bytes: [b0, 0, 0, 0] };
            proof {
                assert(u.bytes@ =~= seq![b0, 0u8, 0u8, 0u8]);
            }
            Ok((u, 1))
        } else if b0 < 0xc0 {
            Err(InvalidUtf8Slice::Utf8(InvalidUtf8::FirstByte(InvalidUtf8FirstByte::ContinuationByte)))
        } else if b0 < 0xf8 {
            let extra: usize = if b0 < 0xe0 {
                1
            } else if b0 < 0xf0 {
                2
            } else {
                3
            };
            if src.len() < extra + 1 {
                return Err(InvalidUtf8Slice::TooShort(extra + 1));
            }
            let b1 = src[1];
            let b2 = if extra >= 2 {
                src[2]
            } else {
                0
            };
            let b3 = if extra >= 3 {
                src[3]
            } else {
                0
            };
            if b1 < 0x80 || b1 > 0xbf {
                return Err(InvalidUtf8Slice::Utf8(InvalidUtf8::NotAContinuationByte(1)));
            }
            if extra >= 2 && (b2 < 0x80 || b2 > 0xbf) {
                return Err(InvalidUtf8Slice::Utf8(InvalidUtf8::NotAContinuationByte(2)));
            }
            if extra >= 3 && (b3 < 0x80 || b3 > 0xbf) {
                return Err(InvalidUtf8Slice::Utf8(InvalidUtf8::NotAContinuationByte(3)));
            }
            proof {
                if b0 < 0xe0 {
                    bv_facts_width_2(b0, b1);
                } else if b0 < 0xf0 {
                    bv_facts_width_3(b0, b1, b2);
                } else {
                    bv_facts_width_4(b0, b1, b2, b3);
                }
            }
            if b0 == 0xc0 || b0 == 0xc1 || (b0 == 0xe0 && b1 < 0xa0) || (b0 == 0xf0 && b1 < 0x90) {
                return Err(InvalidUtf8Slice::Utf8(InvalidUtf8::OverLong));
            }
            let v: u32 = if extra == 1 {
                (((b0 & 0x1F) as u32) << 6) | ((b1 & 0x3F) as u32)
            } else if extra == 2 {
                (((b0 & 0x0F) as u32) << 12) | (((b1 & 0x3F) as u32) << 6) | ((b2 & 0x3F) as u32)
            } else {
                (((b0 & 0x07) as u32) << 18) | (((b1 & 0x3F) as u32) << 12) | (((b2 & 0x3F) as u32)
                    << 6) | ((b3 & 0x3F) as u32)
            };
            proof {
                assert(decode_first_codepoint(src@) == v);
            }
            if v >= 0xd800 && v <= 0xdfff {
                return Err(InvalidUtf8Slice::Codepoint(CodepointError::Utf16Reserved));
            }
            if v > 0x10ffff {
                return Err(InvalidUtf8Slice::Codepoint(CodepointError::TooHigh));
            }
            let stored: [u8; 4] = if extra == 1 {
                [b0, b1, 0, 0]
            } else if extra == 2 {
                [b0, b1, b2, 0]
            } else {
                [b0, b1, b2, b3]
            };
            let u = Utf8Char { bytes: stored };
            proof {
                assert(decode_first_codepoint(stored@) == v);
                assert(length_of_first_scalar(stored@) == extra + 1);
            }
            Ok((u, extra + 1))
        } else {
            Err(InvalidUtf8Slice::Utf8(InvalidUtf8::FirstByte(InvalidUtf8FirstByte::TooLongSeqence)))
        }
    }

    /// A `from_slice_start()` that skips the validation.
    ///
    /// The caller must show that the slice starts with one well-formed
    /// codepoint encoding.
    pub fn from_slice_start_unchecked(src: &[u8]) -> (r: (Self, usize))
        requires
            valid_first_scalar(src@),
        ensures
            r.0@ as u32 == decode_first_scalar(src@),
            r.1 == length_of_first_scalar(src@),
    {
        proof {
            lemma_from_utf8_slice_start_characterization(src@);
        }
        let b0 = src[0];
        let stored: [u8; 4] = if b0 < 0x80 {
            [b0, 0, 0, 0]
        } else if b0 < 0xe0 {
            [b0, src[1], 0, 0]
        } else if b0 < 0xf0 {
            [b0, src[1], src[2], 0]
        } else {
            [b0, src[1], src[2], src[3]]
        };
        let len: usize = if b0 < 0x80 {
            1
        } else if b0 < 0xe0 {
            2
        } else if b0 < 0xf0 {
            3
        } else {
            4
        };
        proof {
            if b0 < 0x80 {
                assert(stored@ =~= seq![b0, 0u8, 0u8, 0u8]);
                bv_facts_width_1(b0);
            }
            assert(decode_first_codepoint(stored@) == decode_first_codepoint(src@));
        }
        (Utf8Char { bytes: stored }, len)
    }

    /// Create a `Utf8Char` from an ASCII byte: the codepoints whose UTF-8
    /// encoding is the byte itself.
    pub fn from_ascii(ascii: u8) -> (r: Result<Self, NonAsciiError>)
        ensures
            ascii < 128 ==> (r matches Ok(u) && u@ as u32 == ascii),
            ascii >= 128 ==> r == Err::<Self, NonAsciiError>(NonAsciiError),
    {
        if ascii > 127 {
            Err(NonAsciiError)
        } else {
            proof {
                bv_facts_width_1(ascii);
            }
            let u = Utf8Char { bytes: [ascii, 0, 0, 0] };
            proof {
                assert(u.bytes@ =~= seq![ascii, 0u8, 0u8, 0u8]);
            }
            Ok(u)
        }
    }

    /// Write the encoding to the start of a byte slice, and return the
    /// number of bytes written, or `None`, leaving the slice unchanged,
    /// when it is shorter than the encoding.
    pub fn to_slice(self, dst: &mut [u8]) -> (r: Option<usize>)
        ensures
            final(dst)@.len() == old(dst)@.len(),
            self.spec_len() <= old(dst)@.len() ==> r == Some(self.spec_len() as usize)
                && final(dst)@.subrange(0, self.spec_len()) == encode_scalar(self@ as u32) && (
            forall|i: int| self.spec_len() <= i < final(dst)@.len() ==> final(dst)@[i] == old(
                dst,
            )@[i]),
            self.spec_len() > old(dst)@.len() ==> r is None && final(dst)@ == old(dst)@,
    {
        proof {
            use_type_invariant(&self);
            self.lemma_stored_form();
        }
        let len = self.len();
        if len > dst.len() {
            None
        } else {
            let mut i: usize = 0;
            while i < len
                invariant
                    i <= len,
                    len == self.spec_len(),
                    1 <= len <= 4,
                    len <= dst@.len(),
                    dst@.len() == old(dst)@.len(),
                    self.spec_bytes().len() == 4,
                    forall|j: int| 0 <= j < i ==> dst@[j] == self.spec_bytes()[j],
                    forall|j: int| i <= j < dst@.len() ==> dst@[j] == old(dst)@[j],
                decreases len - i,
            {
                let b = self.bytes[i];
                dst[i] = b;
                i += 1;
            }
            proof {
                assert(final(dst)@.subrange(0, self.spec_len()) =~= self.spec_bytes().subrange(
                    0,
                    self.spec_len(),
                ));
            }
            Some(len)
        }
    }

    /// Return a `str` view of the stored encoding;
    /// an unambiguous version of `.as_ref()`.
    pub fn as_str(&self) -> (r: &str)
        ensures
            r@ == seq![self@],
    {
        proof {
            use_type_invariant(&*self);
            self.lemma_stored_form();
            lemma_encode_utf8_single(self@);
        }
        let len = self.len();
        let prefix = vstd::slice::slice_subrange(self.bytes.as_slice(), 0, len);
        proof {
            assert(prefix@ =~= encode_scalar(self@ as u32));
        }
        match core::str::from_utf8(prefix) {
            Ok(s) => {
                proof {
                    vstd::utf8::encode_utf8_decode_utf8(s@);
                    assert(s@ == seq![self@]);
                }
                s
            },
            Err(_) => {
                proof {
                    assert(false);
                }
                ""
            },
        }
    }

    /// Expose the internal array and the number of used bytes.
    pub fn to_array(self) -> (r: ([u8; 4], usize))
        ensures
            r.0@ == self.spec_bytes(),
            r.1 == self.spec_len(),
    {
        (self.bytes, self.len())
    }
}

impl Utf8Char {
    /// The value that converting the given `char` produces: the canonical
    /// stored form of its encoding.
    pub closed spec fn spec_from_char(c: char) -> Utf8Char {
        Utf8Char { bytes: spec_to_utf8_array(c as u32) }
    }

    /// What conversion from `char` produces: a value storing that
    /// codepoint, in canonical form.
    pub proof fn lemma_spec_from_char(c: char)
        ensures
            Utf8Char::spec_from_char(c)@ == c,
            Utf8Char::spec_from_char(c).spec_bytes() == spec_to_utf8_array(c as u32)@,
    {
        vstd::utf8::char_is_scalar(c);
        lemma_to_utf8_array(c as u32);
        assert((c as u32) as char == c);
    }

    /// Checks that two characters are an ASCII case-insensitive match.
    ///
    /// Is equivalent to `a.to_ascii_lowercase() == b.to_ascii_lowercase()`.
    pub fn eq_ignore_ascii_case(&self, other: &Self) -> (r: bool)
        ensures
            r == (crate::spec_ascii_to_lower(self@ as u32) == crate::spec_ascii_to_lower(
                other@ as u32,
            )),
    {
        proof {
            use_type_invariant(&*self);
            use_type_invariant(&*other);
            self.lemma_stored_form();
            other.lemma_stored_form();
            lemma_encode_scalar_bytes(self@ as u32);
            lemma_encode_scalar_bytes(other@ as u32);
            vstd::utf8::char_u32_cast(self@, self@ as u32);
            vstd::utf8::char_u32_cast(other@, other@ as u32);
        }
        if self.is_ascii() {
            let a = self.bytes[0];
            let b = other.bytes[0];
            let af = if a >= 0x61 && a <= 0x7a {
                a - 0x20
            } else {
                a
            };
            let bf = if b >= 0x61 && b <= 0x7a {
                b - 0x20
            } else {
                b
            };
            af == bf
        } else {
            self == other
        }
    }

    /// Converts the character to its ASCII upper case equivalent.
    ///
    /// ASCII letters `a` to `z` are mapped to `A` to `Z`,
    /// but non-ASCII letters are unchanged.
    pub fn to_ascii_uppercase(&self) -> (r: Self)
        ensures
            r@ as u32 == crate::spec_ascii_to_upper(self@ as u32),
    {
        let mut uc = *self;
        uc.make_ascii_uppercase();
        uc
    }

    /// Converts the character to its ASCII lower case equivalent.
    ///
    /// ASCII letters `A` to `Z` are mapped to `a` to `z`,
    /// but non-ASCII letters are unchanged.
    pub fn to_ascii_lowercase(&self) -> (r: Self)
        ensures
            r@ as u32 == crate::spec_ascii_to_lower(self@ as u32),
    {
        let mut uc = *self;
        uc.make_ascii_lowercase();
        uc
    }

    /// Converts the character to its ASCII upper case equivalent in-place.
    ///
    /// ASCII letters `a` to `z` are mapped to `A` to `Z`,
    /// but non-ASCII letters are unchanged.
    pub fn make_ascii_uppercase(&mut self)
        ensures
            final(self)@ as u32 == crate::spec_ascii_to_upper(old(self)@ as u32),
    {
        proof {
            use_type_invariant(&*self);
            self.lemma_stored_form();
            lemma_encode_scalar_bytes(self@ as u32);
        }
        let b0 = self.bytes[0];
        if b0 >= 0x61 && b0 <= 0x7a {
            proof {
                bv_facts_width_1((b0 - 0x20) as u8);
                assert(self.bytes@.update(0, (b0 - 0x20) as u8) =~= seq![
                    (b0 - 0x20) as u8,
                    0u8,
                    0u8,
                    0u8,
                ]);
            }
            self.bytes[0] = b0 - 0x20;
        }
    }

    /// Converts the character to its ASCII lower case equivalent in-place.
    ///
    /// ASCII letters `A` to `Z` are mapped to `a` to `z`,
    /// but non-ASCII letters are unchanged.
    pub fn make_ascii_lowercase(&mut self)
        ensures
            final(self)@ as u32 == crate::spec_ascii_to_lower(old(self)@ as u32),
    {
        proof {
            use_type_invariant(&*self);
            self.lemma_stored_form();
            lemma_encode_scalar_bytes(self@ as u32);
        }
        let b0 = self.bytes[0];
        if b0 >= 0x41 && b0 <= 0x5a {
            proof {
                bv_facts_width_1((b0 + 0x20) as u8);
                assert(self.bytes@.update(0, (b0 + 0x20) as u8) =~= seq![
                    (b0 + 0x20) as u8,
                    0u8,
                    0u8,
                    0u8,
                ]);
            }
            self.bytes[0] = b0 + 0x20;
        }
    }

    /// Equality and order on stored values follow the codepoint, not the
    /// raw buffer — and comparing the raw buffers bytewise happens to
    /// agree, because shorter encodings start with smaller leading bytes.
    pub proof fn lemma_cmp_agrees_with_scalar(a: Utf8Char, b: Utf8Char)
        requires
            a.well_formed(),
            b.well_formed(),
        ensures
            (a.spec_bytes() == b.spec_bytes()) <==> a@ == b@,
            spec_lex_less(a.spec_bytes(), b.spec_bytes()) <==> ((a@ as u32) < (b@ as u32)),
    {
        a.lemma_stored_form();
        b.lemma_stored_form();
        lemma_canonical_order(a@ as u32, b@ as u32);
        vstd::utf8::char_u32_cast(a@, a@ as u32);
        vstd::utf8::char_u32_cast(b@, b@ as u32);
    }
}

impl Default for Utf8Char {
    /// The codepoint zero, like `char::default()`.
    fn default() -> (r: Self)
        ensures
            r@ == '\0',
    {
        proof {
            bv_facts_width_1(0);
        }
        let u = Utf8Char { bytes: [0, 0, 0, 0] };
        proof {
            assert(u.bytes@ =~= seq![0u8, 0u8, 0u8, 0u8]);
        }
        u
    }
}

impl PartialEq for Utf8Char {
    /// Bytewise comparison of the buffers; agrees with comparing the
    /// codepoints because the stored form is canonical.
    fn eq(&self, other: &Self) -> (r: bool) {
        proof {
            use_type_invariant(&*self);
            use_type_invariant(&*other);
            self.lemma_stored_form();
            other.lemma_stored_form();
            lemma_canonical_order(self@ as u32, other@ as u32);
            vstd::utf8::char_u32_cast(self@, self@ as u32);
            vstd::utf8::char_u32_cast(other@, other@ as u32);
        }
        let r = self.bytes[0] == other.bytes[0] && self.bytes[1] == other.bytes[1] && self.bytes[2]
            == other.bytes[2] && self.bytes[3] == other.bytes[3];
        proof {
            if r {
                assert(self.spec_bytes() =~= other.spec_bytes());
            }
        }
        r
    }
}

impl vstd::std_specs::cmp::PartialEqSpecImpl for Utf8Char {
    open spec fn obeys_eq_spec() -> bool {
        true
    }

    open spec fn eq_spec(&self, other: &Self) -> bool {
        self@ == other@
    }
}

impl PartialOrd for Utf8Char {
    /// Lexicographic comparison of the buffers; agrees with comparing the
    /// codepoints because shorter encodings start with smaller bytes.
    fn partial_cmp(&self, other: &Self) -> (r: Option<core::cmp::Ordering>) {
        proof {
            use_type_invariant(&*self);
            use_type_invariant(&*other);
            self.lemma_stored_form();
            other.lemma_stored_form();
            lemma_canonical_order(self@ as u32, other@ as u32);
            lemma_canonical_order(other@ as u32, self@ as u32);
            vstd::utf8::char_u32_cast(self@, self@ as u32);
            vstd::utf8::char_u32_cast(other@, other@ as u32);
        }
        let a = &self.bytes;
        let b = &other.bytes;
        let r = if a[0] < b[0] {
            Some(core::cmp::Ordering::Less)
        } else if a[0] > b[0] {
            Some(core::cmp::Ordering::Greater)
        } else if a[1] < b[1] {
            Some(core::cmp::Ordering::Less)
        } else if a[1] > b[1] {
            Some(core::cmp::Ordering::Greater)
        } else if a[2] < b[2] {
            Some(core::cmp::Ordering::Less)
        } else if a[2] > b[2] {
            Some(core::cmp::Ordering::Greater)
        } else if a[3] < b[3] {
            Some(core::cmp::Ordering::Less)
        } else if a[3] > b[3] {
            Some(core::cmp::Ordering::Greater)
        } else {
            Some(core::cmp::Ordering::Equal)
        };
        proof {
            if a[0] == b[0] && a[1] == b[1] && a[2] == b[2] && a[3] == b[3] {
                assert(self.spec_bytes() =~= other.spec_bytes());
            }
        }
        r
    }
}

impl vstd::std_specs::cmp::PartialOrdSpecImpl for Utf8Char {
    open spec fn obeys_partial_cmp_spec() -> bool {
        true
    }

    open spec fn partial_cmp_spec(&self, other: &Self) -> Option<core::cmp::Ordering> {
        if (self@ as u32) < (other@ as u32) {
            Some(core::cmp::Ordering::Less)
        } else if self@ == other@ {
            Some(core::cmp::Ordering::Equal)
        } else {
            Some(core::cmp::Ordering::Greater)
        }
    }
}

impl From<char> for Utf8Char {
    /// Encode the codepoint as UTF-8.
    fn from(c: char) -> (r: Self) {
        let v = c as u32;
        proof {
            vstd::utf8::char_is_scalar(c);
            lemma_encode_scalar_bytes(v);
            lemma_to_utf8_array(v);
            Utf8Char::lemma_spec_from_char(c);
        }
        let bytes: [u8; 4] = if v < 0x80 {
            [(v & 0x7F) as u8, 0, 0, 0]
        } else if v < 0x800 {
            [0xC0 | (((v >> 6) & 0x1F) as u8), 0x80 | ((v & 0x3F) as u8), 0, 0]
        } else if v < 0x10000 {
            [
                0xE0 | (((v >> 12) & 0x0F) as u8),
                0x80 | (((v >> 6) & 0x3F) as u8),
                0x80 | ((v & 0x3F) as u8),
                0,
            ]
        } else {
            [
                0xF0 | (((v >> 18) & 0x07) as u8),
                0x80 | (((v >> 12) & 0x3F) as u8),
                0x80 | (((v >> 6) & 0x3F) as u8),
                0x80 | ((v & 0x3F) as u8),
            ]
        };
        proof {
            assert(bytes@ =~= spec_to_utf8_array(v)@);
            vstd::array::axiom_array_ext_equal(bytes, spec_to_utf8_array(v));
        }
        Utf8Char { bytes }
    }
}

impl vstd::std_specs::convert::FromSpecImpl<char> for Utf8Char {
    open spec fn obeys_from_spec() -> bool {
        true
    }

    open spec fn from_spec(c: char) -> Utf8Char {
        Utf8Char::spec_from_char(c)
    }
}

impl From<Utf8Char> for char {
    /// Decode the stored codepoint.
    fn from(uc: Utf8Char) -> (r: char) {
        uc.to_char()
    }
}

impl vstd::std_specs::convert::FromSpecImpl<Utf8Char> for char {
    open spec fn obeys_from_spec() -> bool {
        true
    }

    open spec fn from_spec(uc: Utf8Char) -> char {
        uc@
    }
}

impl core::str::FromStr for Utf8Char {
    type Err = FromStrError;

    /// The string must contain exactly one codepoint.
    fn from_str(s: &str) -> (r: Result<Self, FromStrError>)
        ensures
            s@.len() == 0 ==> r == Err::<Utf8Char, FromStrError>(FromStrError::Empty),
            s@.len() > 1 ==> r == Err::<Utf8Char, FromStrError>(FromStrError::MultipleCodepoints),
            s@.len() == 1 ==> (r matches Ok(u) && u@ == s@[0]),
    {
        proof {
            lemma_str_bytes_shape(s@);
        }
        let b = s.as_bytes();
        if b.len() == 0 {
            return Err(FromStrError::Empty);
        }
        let b0 = b[0];
        let extra: usize = if b0 < 0x80 {
            0
        } else if b0 < 0xe0 {
            1
        } else if b0 < 0xf0 {
            2
        } else {
            3
        };
        if b.len() != 1 + extra {
            return Err(FromStrError::MultipleCodepoints);
        }
        let stored: [u8; 4] = if extra == 0 {
            [b0, 0, 0, 0]
        } else if extra == 1 {
            [b0, b[1], 0, 0]
        } else if extra == 2 {
            [b0, b[1], b[2], 0]
        } else {
            [b0, b[1], b[2], b[3]]
        };
        let u = Utf8Char { bytes: stored };
        proof {
            let c0 = s@[0];
            let e = encode_scalar(c0 as u32);
            if extra == 0 {
                assert(stored@ =~= seq![b0, 0u8, 0u8, 0u8]);
            }
            assert(stored@.subrange(0, e.len() as int) =~= e);
            lemma_first_scalar_unaffected_by_tail(
                e,
                stored@.subrange(e.len() as int, 4),
            );
            assert(stored@ =~= e + stored@.subrange(e.len() as int, 4));
            vstd::utf8::char_u32_cast(c0, c0 as u32);
        }
        Ok(u)
    }
}

// Bit-level agreement between reading the data bits out of a single
// UTF-16 unit and reading them out of the scalar value, two-byte shape.
proof fn bv_transcode_width_2(u: u16)
    by (bit_vector)
    requires
        0x80 <= u <= 0x7ff,
    ensures
        (0xc0u8 | (((u & 0x07c0) >> 6) as u8)) == (0xC0u8 | ((((u as u32) >> 6) & 0x1F) as u8)),
        (0x80u8 | ((u & 0x3f) as u8)) == (0x80u8 | (((u as u32) & 0x3F) as u8)),
{
}

// Bit-level agreement between reading the data bits out of a single
// UTF-16 unit and reading them out of the scalar value, three-byte shape.
proof fn bv_transcode_width_3(u: u16)
    by (bit_vector)
    requires
        0x800 <= u,
    ensures
        (0xe0u8 | (((u & 0xf000) >> 12) as u8)) == (0xE0u8 | ((((u as u32) >> 12) & 0x0F) as u8)),
        (0x80u8 | (((u & 0x0fc0) >> 6) as u8)) == (0x80u8 | ((((u as u32) >> 6) & 0x3F) as u8)),
        (0x80u8 | ((u & 0x3f) as u8)) == (0x80u8 | (((u as u32) & 0x3F) as u8)),
{
}

// Bit-level agreement between reading the data bits out of a surrogate
// pair and reading them out of the combined scalar value. The leading
// surrogate is pre-biased by 0x40, which adds the 0x10000 offset at the
// right bit position.
proof fn bv_transcode_width_4(f0: u16, s: u16, v: u32)
    by (bit_vector)
    requires
        0xd800 <= f0 <= 0xdbff,
        0xdc00 <= s <= 0xdfff,
        v == ((f0 - 0xd800) as u32) * 0x400 + ((s - 0xdc00) as u32) + 0x10000,
    ensures
        (0xf0u8 | (((((f0 + 0x40) as u16) & 0x0700) >> 8) as u8)) == (0xF0u8 | (((v >> 18) & 0x07) as u8)),
        (0x80u8 | (((((f0 + 0x40) as u16) & 0x00fc) >> 2) as u8)) == (0x80u8 | (((v >> 12) & 0x3F) as u8)),
        ((0x80u8 | (((s & 0x03c0) >> 6) as u8)) | (((((f0 + 0x40) as u16) & 0x0003) << 4) as u8)) == (0x80u8
            | (((v >> 6) & 0x3F) as u8)),
        (0x80u8 | ((s & 0x3f) as u8)) == (0x80u8 | (((v as u32) & 0x3F) as u8)),
        f0 + 0x40 <= 0xdc3f,
{
}

impl From<Utf16Char> for Utf8Char {
    /// Re-encode a UTF-16 stored codepoint as UTF-8, reading the data
    /// bits straight out of the units without decoding to a scalar first.
    fn from(utf16: Utf16Char) -> (r: Self) {
        let ghost v: u32 = utf16@ as u32;
        proof {
            use_type_invariant(&utf16);
            utf16.lemma_stored_form();
            lemma_encode_scalar_bytes(v);
            lemma_to_utf8_array(v);
            Utf8Char::lemma_spec_from_char(utf16@);
        }
        let (u, second) = utf16.to_tuple();
        let bytes: [u8; 4] = match second {
            None => {
                if u <= 0x7f {
                    proof {
                        bv_facts_width_1(u as u8);
                    }
                    [u as u8, 0, 0, 0]
                } else if u <= 0x7ff {
                    proof {
                        bv_transcode_width_2(u);
                    }
                    let b = 0x80 | (u & 0x3f) as u8;
                    let a = 0xc0 | ((u & 0x07c0) >> 6) as u8;
                    [a, b, 0, 0]
                } else {
                    proof {
                        bv_transcode_width_3(u);
                    }
                    let c = 0x80 | (u & 0x3f) as u8;
                    let b = 0x80 | ((u & 0x0fc0) >> 6) as u8;
                    let a = 0xe0 | ((u & 0xf000) >> 12) as u8;
                    [a, b, c, 0]
                }
            },
            Some(s) => {
                proof {
                    crate::utf16_model::lemma_surrogate_split(v);
                    bv_transcode_width_4(u, s, v);
                }
                let f = u + 0x40;
                let d = 0x80 | (s & 0x3f) as u8;
                let c = (0x80 | ((s & 0x03c0) >> 6) as u8) | (((f & 0x0003) << 4) as u8);
                let b = 0x80 | ((f & 0x00fc) >> 2) as u8;
                let a = 0xf0 | ((f & 0x0700) >> 8) as u8;
                [a, b, c, d]
            },
        };
        proof {
            assert(bytes@ =~= spec_to_utf8_array(v)@);
            vstd::array::axiom_array_ext_equal(bytes, spec_to_utf8_array(v));
        }
        Utf8Char { bytes }
    }
}

impl vstd::std_specs::convert::FromSpecImpl<Utf16Char> for Utf8Char {
    open spec fn obeys_from_spec() -> bool {
        true
    }

    open spec fn from_spec(utf16: Utf16Char) -> Utf8Char {
        Utf8Char::spec_from_char(utf16@)
    }
}

} // verus!
