//! The specification of single-codepoint UTF-16 encoding and decoding,
//! including which error each malformed input produces.
//!
//! A scalar value at most 0xffff is stored as one unit; anything above is
//! split into a leading surrogate in `[0xd800, 0xdbff]` carrying the high
//! ten bits and a trailing surrogate in `[0xdc00, 0xdfff]` carrying the
//! low ten bits, of the value minus 0x10000.

use vstd::prelude::*;
use vstd::arithmetic::div_mod::{
    lemma_div_is_ordered, lemma_fundamental_div_mod, lemma_fundamental_div_mod_converse,
    lemma_mod_bound,
};
use vstd::utf8::is_scalar;
use crate::errors::{InvalidUtf16FirstUnit, InvalidUtf16Slice, InvalidUtf16Tuple};

verus! {

/// Whether the unit opens a surrogate pair.
pub open spec fn spec_is_leading_surrogate(u: u16) -> bool {
    0xd800 <= u <= 0xdbff
}

/// Whether the unit closes a surrogate pair.
pub open spec fn spec_is_trailing_surrogate(u: u16) -> bool {
    0xdc00 <= u <= 0xdfff
}

/// The scalar value stored in a surrogate pair.
pub open spec fn spec_combine_surrogates(first: u16, second: u16) -> u32
    recommends
        spec_is_leading_surrogate(first),
        spec_is_trailing_surrogate(second),
{
    (((first - 0xd800) * 0x400 + (second - 0xdc00)) + 0x10000) as u32
}

/// The one or two units of the UTF-16 encoding of a scalar value: the
/// second is `Some` exactly when a surrogate pair is required.
pub open spec fn spec_to_utf16_tuple(v: u32) -> (u16, Option<u16>)
    recommends
        is_scalar(v),
{
    if v <= 0xffff {
        (v as u16, None)
    } else {
        (
            ((v - 0x10000) / 0x400 + 0xd800) as u16,
            Some((((v - 0x10000) % 0x400) + 0xdc00) as u16),
        )
    }
}

/// The UTF-16 encoding of a scalar value as a unit sequence.
pub open spec fn spec_encode_utf16(v: u32) -> Seq<u16>
    recommends
        is_scalar(v),
{
    let (first, second) = spec_to_utf16_tuple(v);
    match second {
        None => seq![first],
        Some(s) => seq![first, s],
    }
}

/// Whether the unit begins a codepoint on its own (`Ok(false)`), needs a
/// trailing surrogate after it (`Ok(true)`), or cannot begin a codepoint.
pub open spec fn spec_utf16_needs_extra_unit(u: u16) -> Result<bool, InvalidUtf16FirstUnit> {
    if spec_is_trailing_surrogate(u) {
        Err(InvalidUtf16FirstUnit)
    } else if spec_is_leading_surrogate(u) {
        Ok(true)
    } else {
        Ok(false)
    }
}

/// What decoding a `(u16, Option<u16>)` pair returns: the scalar value,
/// or why the units do not form one codepoint.
pub open spec fn spec_from_utf16_tuple(first: u16, second: Option<u16>) -> Result<
    u32,
    InvalidUtf16Tuple,
> {
    if spec_is_trailing_surrogate(first) {
        Err(InvalidUtf16Tuple::FirstIsTrailingSurrogate)
    } else if spec_is_leading_surrogate(first) {
        match second {
            None => Err(InvalidUtf16Tuple::MissingSecond),
            Some(s) => {
                if spec_is_trailing_surrogate(s) {
                    Ok(spec_combine_surrogates(first, s))
                } else {
                    Err(InvalidUtf16Tuple::InvalidSecond)
                }
            },
        }
    } else {
        match second {
            None => Ok(first as u32),
            Some(_) => Err(InvalidUtf16Tuple::SuperfluousSecond),
        }
    }
}

/// What decoding one codepoint from the start of a unit slice returns:
/// the scalar value and how many units it used, or the first applicable
/// error. Units after the decoded codepoint are never inspected.
pub open spec fn spec_from_utf16_slice_start(src: Seq<u16>) -> Result<
    (u32, usize),
    InvalidUtf16Slice,
> {
    if src.len() == 0 {
        Err(InvalidUtf16Slice::EmptySlice)
    } else if spec_is_trailing_surrogate(src[0]) {
        Err(InvalidUtf16Slice::FirstLowSurrogate)
    } else if !spec_is_leading_surrogate(src[0]) {
        Ok((src[0] as u32, 1))
    } else if src.len() < 2 {
        Err(InvalidUtf16Slice::MissingSecond)
    } else if spec_is_trailing_surrogate(src[1]) {
        Ok((spec_combine_surrogates(src[0], src[1]), 2))
    } else {
        Err(InvalidUtf16Slice::SecondNotLowSurrogate)
    }
}

/// The canonical stored form of a scalar value: one unit and a zero, or
/// a surrogate pair. Zero is never a valid trailing surrogate, so a zero
/// second unit unambiguously means "single unit".
pub open spec fn spec_to_utf16_array(v: u32) -> [u16; 2]
    recommends
        is_scalar(v),
{
    let (first, second) = spec_to_utf16_tuple(v);
    match second {
        None => [first, 0u16],
        Some(s) => [first, s],
    }
}

// Shifting and masking by 10 bits agree with division and remainder by
// 0x400, and recombining the halves restores the value.
pub(crate) proof fn bv_split_ten_bits(x: u32)
    by (bit_vector)
    requires
        x <= 0xfffff,
    ensures
        (x >> 10) == x / 0x400,
        (x & 0x3ff) == x % 0x400,
        ((x >> 10) << 10) | (x & 0x3ff) == x,
        (x >> 10) <= 0x3ff,
        (x & 0x3ff) <= 0x3ff,
{
}

// Recombining two 10-bit halves by shift-or agrees with the arithmetic
// form.
pub(crate) proof fn bv_combine_ten_bits(q: u32, r: u32)
    by (bit_vector)
    requires
        q <= 0x3ff,
        r <= 0x3ff,
    ensures
        ((q << 10) | r) == q * 0x400 + r,
{
}

/// Combining a surrogate pair and splitting the result gives back the
/// same pair, and the combined value is a supplementary-plane scalar.
pub proof fn lemma_combine_then_split(f: u16, s: u16)
    requires
        spec_is_leading_surrogate(f),
        spec_is_trailing_surrogate(s),
    ensures
        0x10000 <= spec_combine_surrogates(f, s) <= 0x10ffff,
        is_scalar(spec_combine_surrogates(f, s)),
        spec_to_utf16_tuple(spec_combine_surrogates(f, s)) == (f, Some(s)),
        spec_to_utf16_array(spec_combine_surrogates(f, s))@ == seq![f, s],
{
    let q = f - 0xd800;
    let r = s - 0xdc00;
    let v = spec_combine_surrogates(f, s);
    assert(v == q * 0x400 + r + 0x10000);
    lemma_fundamental_div_mod_converse(q * 0x400 + r, 0x400, q as int, r as int);
    assert(spec_to_utf16_array(v)@ =~= seq![f, s]);
}

/// The units of a surrogate pair for a scalar value above 0xffff are a
/// leading and a trailing surrogate, and combining them restores the
/// value.
pub proof fn lemma_surrogate_split(v: u32)
    requires
        0x10000 <= v <= 0x10ffff,
    ensures
        ({
            let (first, second) = spec_to_utf16_tuple(v);
            &&& second matches Some(s) && spec_is_trailing_surrogate(s)
                && spec_is_leading_surrogate(first) && spec_combine_surrogates(first, s) == v
        }),
{
    let rest = v - 0x10000;
    lemma_fundamental_div_mod(rest, 0x400);
    lemma_mod_bound(rest, 0x400);
    lemma_div_is_ordered(0, rest, 0x400);
    lemma_div_is_ordered(rest, 0xfffff, 0x400);
}

/// Round trip: the UTF-16 encoding of any `char` decodes back to that
/// same value, through the tuple decoder.
pub proof fn lemma_utf16_tuple_round_trip(c: char)
    ensures
        ({
            let (first, second) = spec_to_utf16_tuple(c as u32);
            spec_from_utf16_tuple(first, second) == Ok::<u32, InvalidUtf16Tuple>(c as u32)
        }),
{
    vstd::utf8::char_is_scalar(c);
    let v = c as u32;
    if v <= 0xffff {
        assert(!spec_is_trailing_surrogate(v as u16) && !spec_is_leading_surrogate(v as u16));
    } else {
        lemma_surrogate_split(v);
    }
}

/// Round trip for slices: the UTF-16 encoding of any `char` decodes back
/// to that same value and length, whatever units follow it.
pub proof fn lemma_utf16_slice_round_trip(c: char, tail: Seq<u16>)
    ensures
        spec_from_utf16_slice_start(spec_encode_utf16(c as u32) + tail) == Ok::<
            (u32, usize),
            InvalidUtf16Slice,
        >((c as u32, spec_encode_utf16(c as u32).len() as usize)),
{
    vstd::utf8::char_is_scalar(c);
    let v = c as u32;
    let s = spec_encode_utf16(v) + tail;
    if v <= 0xffff {
        assert(s[0] == v as u16);
    } else {
        lemma_surrogate_split(v);
        let (first, second) = spec_to_utf16_tuple(v);
        assert(s[0] == first && s[1] == second.unwrap());
    }
}

} // verus!
