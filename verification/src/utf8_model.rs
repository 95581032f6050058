//! The specification of single-codepoint UTF-8 decoding, including which
//! error each malformed input produces.
//!
//! The well-formedness side (leading bytes, continuation bytes, overlong
//! encodings) builds on `vstd::utf8`; this module adds the exact
//! error-classification order that the decoding functions promise:
//! first-byte shape errors outrank continuation-byte errors, which outrank
//! overlong encodings, which outrank codepoint-range errors.

use vstd::prelude::*;
use vstd::utf8::{
    codepoint_width_2, codepoint_width_3, codepoint_width_4, decode_first_codepoint,
    decode_first_scalar, decode_utf8, decode_utf8_first_scalar, encode_scalar, encode_utf8,
    encode_utf8_decode_utf8, encode_utf8_first_scalar, encode_utf8_valid_utf8,
    is_continuation_byte, is_scalar, length_of_first_scalar, not_surrogate, pop_first_scalar,
    take_first_scalar, valid_first_scalar, valid_utf8,
};
use crate::errors::{
    CodepointError, InvalidUtf8, InvalidUtf8Array, InvalidUtf8FirstByte, InvalidUtf8Slice,
};

verus! {

/// How many continuation bytes the given leading byte announces,
/// or why it cannot begin a sequence.
pub open spec fn spec_extra_utf8_bytes(b: u8) -> Result<usize, InvalidUtf8FirstByte> {
    if b < 0x80 {
        Ok(0)
    } else if b < 0xc0 {
        Err(InvalidUtf8FirstByte::ContinuationByte)
    } else if b < 0xe0 {
        Ok(1)
    } else if b < 0xf0 {
        Ok(2)
    } else if b < 0xf8 {
        Ok(3)
    } else {
        Err(InvalidUtf8FirstByte::TooLongSeqence)
    }
}

/// Whether the first two bytes of a multi-byte sequence show that the
/// encoded value would have fit in fewer bytes.
pub open spec fn spec_overlong(first: u8, second: u8) -> bool {
    if first < 0x80 {
        false
    } else if (first & 0xe0) == 0xc0 {
        (first & 0xfe) == 0xc0
    } else if (first & 0xf0) == 0xe0 {
        first == 0xe0 && (second & 0xe0) == 0x80
    } else {
        first == 0xf0 && (second & 0xf0) == 0x80
    }
}

/// The smallest index in `1..end` holding a byte that is not a
/// continuation byte, if any. Sequences are at most 4 bytes, so `end <= 4`.
pub open spec fn first_non_continuation(bytes: Seq<u8>, end: int) -> Option<int>
    recommends
        end <= bytes.len(),
        end <= 4,
{
    if 1 < end && !is_continuation_byte(bytes[1]) {
        Some(1)
    } else if 2 < end && !is_continuation_byte(bytes[2]) {
        Some(2)
    } else if 3 < end && !is_continuation_byte(bytes[3]) {
        Some(3)
    } else {
        None
    }
}

/// Decodes a multi-byte sequence whose leading byte announces `extra`
/// continuation bytes, all of which are present, reporting errors in the
/// promised order: continuation-byte shape, then overlong, then range.
pub open spec fn spec_decode_multibyte(bytes: Seq<u8>, extra: usize) -> Result<
    u32,
    InvalidUtf8Array,
>
    recommends
        1 <= extra <= 3,
        extra < bytes.len(),
{
    match first_non_continuation(bytes, extra + 1) {
        Some(i) => Err(InvalidUtf8Array::Utf8(InvalidUtf8::NotAContinuationByte(i as usize))),
        None => {
            if spec_overlong(bytes[0], bytes[1]) {
                Err(InvalidUtf8Array::Utf8(InvalidUtf8::OverLong))
            } else {
                let v = decode_first_codepoint(bytes);
                if !not_surrogate(v) {
                    Err(InvalidUtf8Array::Codepoint(CodepointError::Utf16Reserved))
                } else if v > 0x10ffff {
                    Err(InvalidUtf8Array::Codepoint(CodepointError::TooHigh))
                } else {
                    Ok(v)
                }
            }
        },
    }
}

/// What decoding one codepoint from the start of a fixed 4-byte array
/// returns: the scalar value, or the first applicable error.
pub open spec fn spec_from_utf8_array(bytes: Seq<u8>) -> Result<u32, InvalidUtf8Array>
    recommends
        bytes.len() == 4,
{
    match spec_extra_utf8_bytes(bytes[0]) {
        Err(e) => Err(InvalidUtf8Array::Utf8(InvalidUtf8::FirstByte(e))),
        Ok(extra) => {
            if extra == 0 {
                Ok(bytes[0] as u32)
            } else {
                spec_decode_multibyte(bytes, extra)
            }
        },
    }
}

/// Renames an array-decoding error into the slice-decoding error space.
pub open spec fn slice_error_of(e: InvalidUtf8Array) -> InvalidUtf8Slice {
    match e {
        InvalidUtf8Array::Utf8(inner) => InvalidUtf8Slice::Utf8(inner),
        InvalidUtf8Array::Codepoint(inner) => InvalidUtf8Slice::Codepoint(inner),
    }
}

/// What decoding one codepoint from the start of a byte slice returns:
/// the scalar value and how many bytes it used, or the first applicable
/// error. Unlike the array form, a slice can be too short.
pub open spec fn spec_from_utf8_slice_start(src: Seq<u8>) -> Result<(u32, usize), InvalidUtf8Slice> {
    if src.len() == 0 {
        Err(InvalidUtf8Slice::TooShort(1))
    } else {
        match spec_extra_utf8_bytes(src[0]) {
            Err(e) => Err(InvalidUtf8Slice::Utf8(InvalidUtf8::FirstByte(e))),
            Ok(extra) => {
                if extra == 0 {
                    Ok((src[0] as u32, 1))
                } else if src.len() < extra + 1 {
                    Err(InvalidUtf8Slice::TooShort((extra + 1) as usize))
                } else {
                    match spec_decode_multibyte(src, extra) {
                        Ok(v) => Ok((v, (extra + 1) as usize)),
                        Err(e) => Err(slice_error_of(e)),
                    }
                }
            },
        }
    }
}

/// The canonical stored form of a scalar value: its UTF-8 encoding
/// left-aligned in a 4-byte array whose unused bytes are zero.
pub open spec fn spec_to_utf8_array(v: u32) -> [u8; 4]
    recommends
        is_scalar(v),
{
    let e = encode_scalar(v);
    if e.len() == 1 {
        [e[0], 0u8, 0u8, 0u8]
    } else if e.len() == 2 {
        [e[0], e[1], 0u8, 0u8]
    } else if e.len() == 3 {
        [e[0], e[1], e[2], 0u8]
    } else {
        [e[0], e[1], e[2], e[3]]
    }
}

// Ranges of the bytes that the encoding functions produce.
pub(crate) proof fn bv_encode_byte_ranges(v: u32)
    by (bit_vector)
    ensures
        v <= 0x7f ==> ((v & 0x7f) as u8) == v,
        0xc0 <= (0xC0u8 | (((v >> 6) & 0x1F) as u8)) <= 0xdf,
        0xe0 <= (0xE0u8 | (((v >> 12) & 0x0F) as u8)) <= 0xef,
        0xf0 <= (0xF0u8 | (((v >> 18) & 0x07) as u8)) <= 0xf7,
        0x80 <= (0x80u8 | ((v & 0x3F) as u8)) <= 0xbf,
        0x80 <= (0x80u8 | (((v >> 6) & 0x3F) as u8)) <= 0xbf,
        0x80 <= (0x80u8 | (((v >> 12) & 0x3F) as u8)) <= 0xbf,
{
}

/// The shape of a scalar's UTF-8 encoding: its length class is decided by
/// the value, its leading byte lies in the range announcing that length,
/// and the bytes after the leading byte are continuation bytes.
pub proof fn lemma_encode_scalar_bytes(v: u32)
    requires
        is_scalar(v),
    ensures
        1 <= encode_scalar(v).len() <= 4,
        (encode_scalar(v).len() == 1 <==> v < 0x80),
        (encode_scalar(v).len() == 2 <==> 0x80 <= v < 0x800),
        (encode_scalar(v).len() == 3 <==> 0x800 <= v < 0x10000),
        (encode_scalar(v).len() == 4 <==> 0x10000 <= v),
        encode_scalar(v).len() == 1 ==> encode_scalar(v)[0] == v,
        encode_scalar(v).len() == 2 ==> 0xc0 <= encode_scalar(v)[0] <= 0xdf,
        encode_scalar(v).len() == 3 ==> 0xe0 <= encode_scalar(v)[0] <= 0xef,
        encode_scalar(v).len() == 4 ==> 0xf0 <= encode_scalar(v)[0] <= 0xf7,
        forall|i: int|
            1 <= i < encode_scalar(v).len() ==> is_continuation_byte(#[trigger] encode_scalar(v)[i]),
{
    bv_encode_byte_ranges(v);
}

/// The canonical stored form holds the encoding followed by zeros, is a
/// well-formed first scalar, and decodes back to the value.
pub proof fn lemma_to_utf8_array(v: u32)
    requires
        is_scalar(v),
    ensures
        ({
            let a = spec_to_utf8_array(v)@;
            let e = encode_scalar(v);
            &&& a.len() == 4
            &&& a.subrange(0, e.len() as int) =~= e
            &&& forall|i: int| e.len() <= i < 4 ==> a[i] == 0
            &&& valid_first_scalar(a)
            &&& decode_first_scalar(a) == v
            &&& length_of_first_scalar(a) == e.len()
            &&& spec_from_utf8_array(a) == Ok::<u32, InvalidUtf8Array>(v)
        }),
{
    let a = spec_to_utf8_array(v)@;
    let e = encode_scalar(v);
    lemma_encode_scalar_bytes(v);
    let c = v as char;
    assert(c as u32 == v);
    let pad = Seq::new((4 - e.len()) as nat, |i: int| 0u8);
    assert(a =~= e + pad);
    lemma_utf8_array_round_trip(c, pad);
    lemma_from_utf8_array_characterization(a);
}

/// How many bytes the sequence begun by this byte takes in all: the
/// announced count, or 1 where the byte cannot begin a sequence, so that
/// such a byte is diagnosed on its own.
pub open spec fn spec_utf8_needed(b: u8) -> int {
    match spec_extra_utf8_bytes(b) {
        Ok(extra) => extra + 1,
        Err(_) => 1,
    }
}

/// A partial sequence extended with zeros to the fixed 4-byte form.
pub open spec fn spec_pad4(s: Seq<u8>) -> Seq<u8>
    recommends
        s.len() <= 4,
{
    s + Seq::new((4 - s.len()) as nat, |i: int| 0u8)
}

/// Decoding a complete sequence from its zero-padded 4-byte form gives
/// the same answer as decoding it from a slice holding exactly its
/// bytes: the padding is never inspected.
pub proof fn lemma_builder_pad_matches_slice(fed: Seq<u8>)
    requires
        1 <= fed.len() <= 4,
        fed.len() == spec_utf8_needed(fed[0]),
    ensures
        match (spec_from_utf8_array(spec_pad4(fed)), spec_from_utf8_slice_start(fed)) {
            (Ok(v), Ok((w, n))) => v == w && n == fed.len(),
            (Err(e), Err(f)) => f == slice_error_of(e),
            _ => false,
        },
{
    let pad = spec_pad4(fed);
    assert(forall|i: int| 0 <= i < fed.len() ==> pad[i] == fed[i]);
    assert(pad.len() == 4);
}

// Facts about two-byte sequences that depend on the bit layout.
pub(crate) proof fn bv_facts_width_2(b0: u8, b1: u8)
    by (bit_vector)
    requires
        0xc0 <= b0 < 0xe0,
        0x80 <= b1 <= 0xbf,
    ensures
        (b0 & 0xe0) == 0xc0,
        ((b0 & 0xfe) == 0xc0) == (b0 == 0xc0 || b0 == 0xc1),
        ((((b0 & 0x1f) as u32) << 6) | ((b1 & 0x3f) as u32)) <= 0x7ff,
        (((((b0 & 0x1f) as u32) << 6) | ((b1 & 0x3f) as u32)) >= 0x80) == (b0 >= 0xc2),
{
}

// Facts about three-byte sequences that depend on the bit layout.
pub(crate) proof fn bv_facts_width_3(b0: u8, b1: u8, b2: u8)
    by (bit_vector)
    requires
        0xe0 <= b0 < 0xf0,
        0x80 <= b1 <= 0xbf,
        0x80 <= b2 <= 0xbf,
    ensures
        (b0 & 0xe0) != 0xc0,
        (b0 & 0xf0) == 0xe0,
        ((b1 & 0xe0) == 0x80) == (b1 < 0xa0),
        ((((b0 & 0x0f) as u32) << 12) | (((b1 & 0x3f) as u32) << 6) | ((b2 & 0x3f) as u32))
            <= 0xffff,
        (((((b0 & 0x0f) as u32) << 12) | (((b1 & 0x3f) as u32) << 6) | ((b2 & 0x3f) as u32))
            >= 0x800) == !(b0 == 0xe0 && b1 < 0xa0),
{
}

// Facts about four-byte sequences that depend on the bit layout.
pub(crate) proof fn bv_facts_width_4(b0: u8, b1: u8, b2: u8, b3: u8)
    by (bit_vector)
    requires
        0xf0 <= b0 < 0xf8,
        0x80 <= b1 <= 0xbf,
        0x80 <= b2 <= 0xbf,
        0x80 <= b3 <= 0xbf,
    ensures
        (b0 & 0xe0) != 0xc0,
        (b0 & 0xf0) != 0xe0,
        ((b1 & 0xf0) == 0x80) == (b1 < 0x90),
        (((((b0 & 0x07) as u32) << 18) | (((b1 & 0x3f) as u32) << 12) | (((b2 & 0x3f) as u32)
            << 6) | ((b3 & 0x3f) as u32)) >= 0x10000) == !(b0 == 0xf0 && b1 < 0x90),
{
}

// A one-byte value is its own data bits.
pub(crate) proof fn bv_facts_width_1(b0: u8)
    by (bit_vector)
    requires
        b0 < 0x80,
    ensures
        (b0 & 0x7f) == b0,
{
}

/// Decoding from the start of a slice succeeds exactly on the inputs that
/// begin with a well-formed scalar encoding, and then returns that scalar
/// and the number of bytes of its encoding.
pub proof fn lemma_from_utf8_slice_start_characterization(src: Seq<u8>)
    ensures
        spec_from_utf8_slice_start(src) is Ok <==> valid_first_scalar(src),
        spec_from_utf8_slice_start(src) matches Ok((v, n)) ==> v == decode_first_scalar(src)
            && n == length_of_first_scalar(src) && is_scalar(v) && 1 <= n <= src.len(),
{
    if src.len() > 0 {
        let b0 = src[0];
        if b0 < 0x80 {
            bv_facts_width_1(b0);
        } else if b0 < 0xc0 {
            // a continuation byte cannot lead: no width matches
        } else if b0 < 0xe0 {
            if src.len() >= 2 && is_continuation_byte(src[1]) {
                bv_facts_width_2(b0, src[1]);
                assert(decode_first_codepoint(src) == codepoint_width_2(b0, src[1]));
            }
        } else if b0 < 0xf0 {
            if src.len() >= 3 && is_continuation_byte(src[1]) && is_continuation_byte(src[2]) {
                bv_facts_width_3(b0, src[1], src[2]);
                assert(decode_first_codepoint(src) == codepoint_width_3(b0, src[1], src[2]));
            }
        } else if b0 < 0xf8 {
            if src.len() >= 4 && is_continuation_byte(src[1]) && is_continuation_byte(src[2])
                && is_continuation_byte(src[3]) {
                bv_facts_width_4(b0, src[1], src[2], src[3]);
                assert(decode_first_codepoint(src) == codepoint_width_4(
                    b0,
                    src[1],
                    src[2],
                    src[3],
                ));
            }
        } else {
            // sequences cannot be longer than four bytes: no width matches
        }
    }
}

// A sequence of zero bytes is valid UTF-8 (a run of NUL characters).
proof fn lemma_zeros_valid_utf8(s: Seq<u8>)
    requires
        forall|i: int| 0 <= i < s.len() ==> s[i] == 0,
    ensures
        valid_utf8(s),
    decreases s.len(),
{
    if s.len() > 0 {
        assert((0u8 & 0x7f) == 0) by (bit_vector);
        assert(valid_first_scalar(s));
        assert(length_of_first_scalar(s) == 1);
        let rest = pop_first_scalar(s);
        assert(forall|i: int| 0 <= i < rest.len() ==> rest[i] == 0);
        lemma_zeros_valid_utf8(rest);
    }
}

/// A 4-byte buffer that starts with one well-formed scalar encoding and
/// is zero after it holds exactly the canonical stored form of the scalar
/// it decodes to.
pub proof fn lemma_canonical_bytes(bytes: Seq<u8>)
    requires
        bytes.len() == 4,
        valid_first_scalar(bytes),
        forall|i: int| length_of_first_scalar(bytes) <= i < 4 ==> bytes[i] == 0,
    ensures
        is_scalar(decode_first_scalar(bytes)),
        bytes == spec_to_utf8_array(decode_first_scalar(bytes))@,
        length_of_first_scalar(bytes) == encode_scalar(decode_first_scalar(bytes)).len(),
{
    let v = decode_first_scalar(bytes);
    let w = length_of_first_scalar(bytes);
    lemma_from_utf8_slice_start_characterization(bytes);
    let rest = pop_first_scalar(bytes);
    assert(forall|i: int| 0 <= i < rest.len() ==> rest[i] == 0);
    lemma_zeros_valid_utf8(rest);
    assert(valid_utf8(bytes));
    decode_utf8_first_scalar(bytes);
    assert((v as char) as u32 == v);
    let e = encode_scalar(v);
    assert(e =~= take_first_scalar(bytes));
    assert(e.len() == w);
    lemma_to_utf8_array(v);
    assert(bytes =~= spec_to_utf8_array(v)@);
}

/// Appending bytes after a complete scalar encoding changes neither its
/// validity nor what it decodes to.
pub proof fn lemma_first_scalar_unaffected_by_tail(a: Seq<u8>, b: Seq<u8>)
    requires
        valid_first_scalar(a),
        length_of_first_scalar(a) == a.len(),
    ensures
        valid_first_scalar(a + b),
        decode_first_scalar(a + b) == decode_first_scalar(a),
        length_of_first_scalar(a + b) == a.len(),
{
    assert((a + b)[0] == a[0]);
    if a.len() >= 2 {
        assert((a + b)[1] == a[1]);
    }
    if a.len() >= 3 {
        assert((a + b)[2] == a[2]);
    }
    if a.len() >= 4 {
        assert((a + b)[3] == a[3]);
    }
}

/// Round trip: the UTF-8 encoding of any `char` decodes back to that
/// same value, using exactly the bytes of the encoding, whatever follows
/// them.
pub proof fn lemma_utf8_round_trip(c: char, tail: Seq<u8>)
    ensures
        spec_from_utf8_slice_start(encode_scalar(c as u32) + tail) == Ok::<
            (u32, usize),
            InvalidUtf8Slice,
        >((c as u32, encode_scalar(c as u32).len() as usize)),
{
    let enc = encode_scalar(c as u32);
    encode_utf8_first_scalar(seq![c]);
    let rest = seq![c].drop_first();
    assert(rest.len() == 0);
    assert(encode_utf8(rest) =~= Seq::<u8>::empty());
    assert(encode_utf8(seq![c]) =~= enc);
    lemma_first_scalar_unaffected_by_tail(enc, tail);
    lemma_from_utf8_slice_start_characterization(enc + tail);
}

/// Round trip for the array form: a 4-byte array that starts with the
/// UTF-8 encoding of a `char` decodes back to that same value, whatever
/// the bytes after the encoding hold.
pub proof fn lemma_utf8_array_round_trip(c: char, tail: Seq<u8>)
    requires
        encode_scalar(c as u32).len() + tail.len() == 4,
    ensures
        spec_from_utf8_array(encode_scalar(c as u32) + tail) == Ok::<u32, InvalidUtf8Array>(
            c as u32,
        ),
{
    lemma_utf8_round_trip(c, tail);
    lemma_from_utf8_array_agrees_with_slice(encode_scalar(c as u32) + tail);
}

/// Overlong detection: each of the six two-byte prefixes that start an
/// overlong three- or four-byte shape, followed by any two continuation
/// bytes, is rejected as overlong by both the array and the slice decoder.
pub proof fn lemma_overlong_prefixes(b0: u8, b1: u8, b2: u8, b3: u8)
    requires
        (b0 == 0xc0 && b1 == 0xbf) || (b0 == 0xe0 && b1 == 0x9f) || (b0 == 0xf0 && b1 == 0x8f)
            || (b0 == 0xc0 && b1 == 0x9f) || (b0 == 0xe0 && b1 == 0x8f) || (b0 == 0xf0 && b1
            == 0x87),
        is_continuation_byte(b2),
        is_continuation_byte(b3),
    ensures
        spec_from_utf8_array(seq![b0, b1, b2, b3]) == Err::<u32, InvalidUtf8Array>(
            InvalidUtf8Array::Utf8(InvalidUtf8::OverLong),
        ),
        spec_from_utf8_slice_start(seq![b0, b1, b2, b3]) == Err::<(u32, usize), InvalidUtf8Slice>(
            InvalidUtf8Slice::Utf8(InvalidUtf8::OverLong),
        ),
{
    let s = seq![b0, b1, b2, b3];
    assert(s[0] == b0 && s[1] == b1 && s[2] == b2 && s[3] == b3);
    if b0 == 0xc0 {
        bv_facts_width_2(b0, b1);
    } else if b0 == 0xe0 {
        bv_facts_width_3(b0, b1, b2);
    } else {
        bv_facts_width_4(b0, b1, b2, b3);
    }
}

/// The UTF-8 encoding of a single character, as a sequence: it is valid
/// UTF-8 and decodes back to that character alone.
pub proof fn lemma_encode_utf8_single(c: char)
    ensures
        encode_utf8(seq![c]) == encode_scalar(c as u32),
        valid_utf8(encode_scalar(c as u32)),
        decode_utf8(encode_scalar(c as u32)) == seq![c],
{
    let rest = seq![c].drop_first();
    assert(rest.len() == 0);
    assert(encode_utf8(rest) =~= Seq::<u8>::empty());
    assert(encode_utf8(seq![c]) =~= encode_scalar(c as u32));
    encode_utf8_valid_utf8(seq![c]);
    encode_utf8_decode_utf8(seq![c]);
}

/// One step of decoding a valid UTF-8 sequence: the first scalar is
/// well-formed, becomes the first decoded character, and popping its
/// bytes leaves a valid sequence holding the remaining characters.
pub proof fn lemma_decode_step(bytes: Seq<u8>)
    requires
        valid_utf8(bytes),
        bytes.len() > 0,
    ensures
        valid_first_scalar(bytes),
        decode_utf8(bytes).len() > 0,
        decode_utf8(bytes)[0] == decode_first_scalar(bytes) as char,
        decode_utf8(bytes).drop_first() == decode_utf8(pop_first_scalar(bytes)),
        valid_utf8(pop_first_scalar(bytes)),
        1 <= length_of_first_scalar(bytes) <= bytes.len(),
        pop_first_scalar(bytes) == bytes.skip(length_of_first_scalar(bytes)),
        spec_from_utf8_slice_start(bytes) == Ok::<(u32, usize), InvalidUtf8Slice>((
            decode_first_scalar(bytes),
            length_of_first_scalar(bytes) as usize,
        )),
        decode_utf8(bytes).len() == 1 + decode_utf8(pop_first_scalar(bytes)).len(),
{
    lemma_from_utf8_slice_start_characterization(bytes);
    assert(decode_utf8(bytes) == seq![decode_first_scalar(bytes) as char] + decode_utf8(
        pop_first_scalar(bytes),
    ));
    assert(decode_utf8(bytes).drop_first() =~= decode_utf8(pop_first_scalar(bytes)));
    assert(pop_first_scalar(bytes) =~= bytes.skip(length_of_first_scalar(bytes)));
}

/// The shape of the UTF-8 encoding of a character sequence: it is empty
/// exactly for the empty sequence, starts with the first character's
/// encoding, and is exactly that encoding iff there is one character.
pub proof fn lemma_str_bytes_shape(chars: Seq<char>)
    ensures
        (encode_utf8(chars).len() == 0) <==> (chars.len() == 0),
        chars.len() > 0 ==> is_scalar(chars[0] as u32),
        chars.len() > 0 ==> encode_utf8(chars).len() >= encode_scalar(chars[0] as u32).len(),
        chars.len() > 0 ==> ((encode_utf8(chars).len() == encode_scalar(
            chars[0] as u32,
        ).len()) <==> chars.len() == 1),
        chars.len() > 0 ==> forall|i: int|
            0 <= i < encode_scalar(chars[0] as u32).len() ==> #[trigger] encode_utf8(chars)[i]
                == encode_scalar(chars[0] as u32)[i],
        chars.len() > 0 ==> valid_first_scalar(encode_scalar(chars[0] as u32)),
        chars.len() > 0 ==> length_of_first_scalar(encode_scalar(chars[0] as u32)) == encode_scalar(
            chars[0] as u32,
        ).len(),
        chars.len() > 0 ==> decode_first_scalar(encode_scalar(chars[0] as u32)) == chars[0] as u32,
{
    if chars.len() > 0 {
        let c0 = chars[0];
        vstd::utf8::char_is_scalar(c0);
        lemma_encode_scalar_bytes(c0 as u32);
        let e = encode_scalar(c0 as u32);
        let d = chars.drop_first();
        assert(encode_utf8(chars) =~= e + encode_utf8(d));
        if chars.len() > 1 {
            let c1 = d[0];
            vstd::utf8::char_is_scalar(c1);
            lemma_encode_scalar_bytes(c1 as u32);
            assert(encode_utf8(d) =~= encode_scalar(c1 as u32) + encode_utf8(d.drop_first()));
        } else {
            assert(encode_utf8(d) =~= Seq::<u8>::empty());
        }
        encode_utf8_first_scalar(seq![c0]);
        lemma_encode_utf8_single(c0);
    }
}

/// Lexicographic order on the 4-byte stored forms: the first differing
/// byte decides.
pub open spec fn spec_lex_less(a: Seq<u8>, b: Seq<u8>) -> bool
    recommends
        a.len() == 4,
        b.len() == 4,
{
    ||| a[0] < b[0]
    ||| (a[0] == b[0] && a[1] < b[1])
    ||| (a[0] == b[0] && a[1] == b[1] && a[2] < b[2])
    ||| (a[0] == b[0] && a[1] == b[1] && a[2] == b[2] && a[3] < b[3])
}

// Comparing two-byte encodings bytewise agrees with comparing the values.
proof fn bv_order_width_2(v: u32, w: u32)
    by (bit_vector)
    requires
        0x80 <= v < 0x800,
        0x80 <= w < 0x800,
    ensures
        ((0xC0u8 | (((v >> 6) & 0x1F) as u8)) < (0xC0u8 | (((w >> 6) & 0x1F) as u8))) == ((v >> 6)
            < (w >> 6)),
        ((0xC0u8 | (((v >> 6) & 0x1F) as u8)) == (0xC0u8 | (((w >> 6) & 0x1F) as u8))) == ((v >> 6)
            == (w >> 6)),
        ((0x80u8 | ((v & 0x3F) as u8)) < (0x80u8 | ((w & 0x3F) as u8))) == ((v & 0x3F) < (w
            & 0x3F)),
        ((0x80u8 | ((v & 0x3F) as u8)) == (0x80u8 | ((w & 0x3F) as u8))) == ((v & 0x3F) == (w
            & 0x3F)),
        (v >> 6) < (w >> 6) ==> v < w,
        (v >> 6) == (w >> 6) && (v & 0x3F) < (w & 0x3F) ==> v < w,
        (v >> 6) == (w >> 6) && (v & 0x3F) == (w & 0x3F) ==> v == w,
{
}

// Comparing three-byte encodings bytewise agrees with comparing the values.
proof fn bv_order_width_3(v: u32, w: u32)
    by (bit_vector)
    requires
        0x800 <= v < 0x10000,
        0x800 <= w < 0x10000,
    ensures
        ((0xE0u8 | (((v >> 12) & 0x0F) as u8)) < (0xE0u8 | (((w >> 12) & 0x0F) as u8))) == ((v
            >> 12) < (w >> 12)),
        ((0xE0u8 | (((v >> 12) & 0x0F) as u8)) == (0xE0u8 | (((w >> 12) & 0x0F) as u8))) == ((v
            >> 12) == (w >> 12)),
        ((0x80u8 | (((v >> 6) & 0x3F) as u8)) < (0x80u8 | (((w >> 6) & 0x3F) as u8))) == (((v >> 6)
            & 0x3F) < ((w >> 6) & 0x3F)),
        ((0x80u8 | (((v >> 6) & 0x3F) as u8)) == (0x80u8 | (((w >> 6) & 0x3F) as u8))) == (((v
            >> 6) & 0x3F) == ((w >> 6) & 0x3F)),
        ((0x80u8 | ((v & 0x3F) as u8)) < (0x80u8 | ((w & 0x3F) as u8))) == ((v & 0x3F) < (w
            & 0x3F)),
        ((0x80u8 | ((v & 0x3F) as u8)) == (0x80u8 | ((w & 0x3F) as u8))) == ((v & 0x3F) == (w
            & 0x3F)),
        (v >> 12) < (w >> 12) ==> v < w,
        (v >> 12) == (w >> 12) && ((v >> 6) & 0x3F) < ((w >> 6) & 0x3F) ==> v < w,
        (v >> 12) == (w >> 12) && ((v >> 6) & 0x3F) == ((w >> 6) & 0x3F) && (v & 0x3F) < (w & 0x3F)
            ==> v < w,
        (v >> 12) == (w >> 12) && ((v >> 6) & 0x3F) == ((w >> 6) & 0x3F) && (v & 0x3F) == (w & 0x3F)
            ==> v == w,
{
}

// Comparing four-byte encodings bytewise agrees with comparing the values.
proof fn bv_order_width_4(v: u32, w: u32)
    by (bit_vector)
    requires
        0x10000 <= v <= 0x10ffff,
        0x10000 <= w <= 0x10ffff,
    ensures
        ((0xF0u8 | (((v >> 18) & 0x07) as u8)) < (0xF0u8 | (((w >> 18) & 0x07) as u8))) == ((v
            >> 18) < (w >> 18)),
        ((0xF0u8 | (((v >> 18) & 0x07) as u8)) == (0xF0u8 | (((w >> 18) & 0x07) as u8))) == ((v
            >> 18) == (w >> 18)),
        ((0x80u8 | (((v >> 12) & 0x3F) as u8)) < (0x80u8 | (((w >> 12) & 0x3F) as u8))) == (((v
            >> 12) & 0x3F) < ((w >> 12) & 0x3F)),
        ((0x80u8 | (((v >> 12) & 0x3F) as u8)) == (0x80u8 | (((w >> 12) & 0x3F) as u8))) == (((v
            >> 12) & 0x3F) == ((w >> 12) & 0x3F)),
        ((0x80u8 | (((v >> 6) & 0x3F) as u8)) < (0x80u8 | (((w >> 6) & 0x3F) as u8))) == (((v >> 6)
            & 0x3F) < ((w >> 6) & 0x3F)),
        ((0x80u8 | (((v >> 6) & 0x3F) as u8)) == (0x80u8 | (((w >> 6) & 0x3F) as u8))) == (((v
            >> 6) & 0x3F) == ((w >> 6) & 0x3F)),
        ((0x80u8 | ((v & 0x3F) as u8)) < (0x80u8 | ((w & 0x3F) as u8))) == ((v & 0x3F) < (w
            & 0x3F)),
        ((0x80u8 | ((v & 0x3F) as u8)) == (0x80u8 | ((w & 0x3F) as u8))) == ((v & 0x3F) == (w
            & 0x3F)),
        (v >> 18) < (w >> 18) ==> v < w,
        (v >> 18) == (w >> 18) && ((v >> 12) & 0x3F) < ((w >> 12) & 0x3F) ==> v < w,
        (v >> 18) == (w >> 18) && ((v >> 12) & 0x3F) == ((w >> 12) & 0x3F) && ((v >> 6) & 0x3F)
            < ((w >> 6) & 0x3F) ==> v < w,
        (v >> 18) == (w >> 18) && ((v >> 12) & 0x3F) == ((w >> 12) & 0x3F) && ((v >> 6) & 0x3F)
            == ((w >> 6) & 0x3F) && (v & 0x3F) < (w & 0x3F) ==> v < w,
        (v >> 18) == (w >> 18) && ((v >> 12) & 0x3F) == ((w >> 12) & 0x3F) && ((v >> 6) & 0x3F)
            == ((w >> 6) & 0x3F) && (v & 0x3F) == (w & 0x3F) ==> v == w,
{
}

/// Comparing the canonical stored forms of two scalars byte by byte gives
/// the same order and the same equality as comparing the scalar values:
/// shorter encodings start with numerically smaller leading bytes, and
/// within a length class the data bits follow the value.
pub proof fn lemma_canonical_order(v: u32, w: u32)
    requires
        is_scalar(v),
        is_scalar(w),
    ensures
        spec_lex_less(spec_to_utf8_array(v)@, spec_to_utf8_array(w)@) <==> v < w,
        (spec_to_utf8_array(v)@ == spec_to_utf8_array(w)@) <==> v == w,
{
    let a = spec_to_utf8_array(v)@;
    let b = spec_to_utf8_array(w)@;
    lemma_to_utf8_array(v);
    lemma_to_utf8_array(w);
    lemma_encode_scalar_bytes(v);
    lemma_encode_scalar_bytes(w);
    let la = encode_scalar(v).len();
    let lb = encode_scalar(w).len();
    if la == lb {
        if la == 2 {
            bv_order_width_2(v, w);
            bv_order_width_2(w, v);
        } else if la == 3 {
            bv_order_width_3(v, w);
            bv_order_width_3(w, v);
        } else if la == 4 {
            bv_order_width_4(v, w);
            bv_order_width_4(w, v);
        }
        if a == b {
            assert(decode_first_scalar(a) == decode_first_scalar(b));
        }
    } else {
        // different length classes: the leading bytes lie in disjoint,
        // increasing ranges, and so do the value ranges
        if v == w {
            assert(false);
        }
    }
    if a == b {
        assert(decode_first_scalar(a) == decode_first_scalar(b));
    }
}

/// Decoding from a 4-byte array agrees with decoding from the start of a
/// slice holding the same bytes; only the error type is renamed, since an
/// array is never too short.
pub proof fn lemma_from_utf8_array_agrees_with_slice(bytes: Seq<u8>)
    requires
        bytes.len() == 4,
    ensures
        match (spec_from_utf8_array(bytes), spec_from_utf8_slice_start(bytes)) {
            (Ok(v), Ok((w, n))) => v == w && n == length_of_first_scalar(bytes),
            (Err(e), Err(f)) => f == slice_error_of(e),
            _ => false,
        },
{
    lemma_from_utf8_slice_start_characterization(bytes);
}

/// Decoding from a 4-byte array succeeds exactly on the inputs that begin
/// with a well-formed scalar encoding, and then returns that scalar.
pub proof fn lemma_from_utf8_array_characterization(bytes: Seq<u8>)
    requires
        bytes.len() == 4,
    ensures
        spec_from_utf8_array(bytes) is Ok <==> valid_first_scalar(bytes),
        spec_from_utf8_array(bytes) matches Ok(v) ==> v == decode_first_scalar(bytes) && is_scalar(
            v,
        ),
{
    lemma_from_utf8_slice_start_characterization(bytes);
    lemma_from_utf8_array_agrees_with_slice(bytes);
}

} // verus!
