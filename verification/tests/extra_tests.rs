//! Concrete scenarios: exact encodings at the boundaries, one input per
//! error kind, the incremental builders against the one-shot decoders,
//! and the fallible buffer writes.

use std::char;
use encode_unicode::error::CodepointError;
use encode_unicode::error::InvalidUtf16Slice;
use encode_unicode::error::InvalidUtf16Tuple;
use encode_unicode::error::InvalidUtf8;
use encode_unicode::error::InvalidUtf8FirstByte;
use encode_unicode::error::InvalidUtf8Slice;
use encode_unicode::error::{NonAsciiError, NonBmpError};
use encode_unicode::{
    overlong, CharExt, StrExt, Utf16Char, Utf16CharBuilder, Utf8Char, Utf8CharBuilder,
};

#[test]
fn ascii_letter_scenario() {
    let (arr, len) = 'A'.to_utf8_array();
    assert_eq!(arr, [0x41, 0, 0, 0]);
    assert_eq!(len, 1);
    assert_eq!(char::from_utf8_slice_start(&[0x41]), Ok(('A', 1)));
}

#[test]
fn max_codepoint_scenario() {
    let c = char::from_u32(0x10ffff).unwrap();
    let (arr, len) = c.to_utf8_array();
    assert_eq!(len, 4);
    assert!(arr[0] >= 0xf0 && arr[0] <= 0xf4);
    assert_eq!(char::from_utf8_slice_start(&arr), Ok((c, 4)));
}

#[test]
fn overlong_scenario() {
    assert_eq!(
        char::from_utf8_slice_start(&[0xc0, 0xbf, 0x80, 0x80]),
        Err(InvalidUtf8Slice::Utf8(InvalidUtf8::OverLong))
    );
    assert!(overlong(0xc0, 0xbf));
    assert!(!overlong(0xc2, 0x80));
}

#[test]
fn too_long_sequence_scenario() {
    assert_eq!(
        char::from_utf8_slice_start(&[0xff]),
        Err(InvalidUtf8Slice::Utf8(InvalidUtf8::FirstByte(InvalidUtf8FirstByte::TooLongSeqence)))
    );
}

#[test]
fn surrogate_pair_scenario() {
    let c = char::from_u32(0x10000).unwrap();
    assert_eq!(c.to_utf16_tuple(), (0xd800, Some(0xdc00)));
    assert_eq!(char::from_utf16_tuple((0xd800, Some(0xdc00))), Ok(c));
    assert_eq!(
        char::from_utf16_tuple((0xd800, None)),
        Err(InvalidUtf16Tuple::MissingSecond)
    );
    assert_eq!(
        char::from_utf16_tuple((0xdc00, Some(0x41))),
        Err(InvalidUtf16Tuple::FirstIsTrailingSurrogate)
    );
}

#[test]
fn utf8_slice_too_short() {
    assert_eq!(char::from_utf8_slice_start(&[]), Err(InvalidUtf8Slice::TooShort(1)));
    assert_eq!(char::from_utf8_slice_start(&[0xc3]), Err(InvalidUtf8Slice::TooShort(2)));
    assert_eq!(char::from_utf8_slice_start(&[0xe0, 0xa0]), Err(InvalidUtf8Slice::TooShort(3)));
    assert_eq!(
        char::from_utf8_slice_start(&[0xf0, 0x90, 0x80]),
        Err(InvalidUtf8Slice::TooShort(4))
    );
}

#[test]
fn utf8_codepoint_range_errors() {
    // a three-byte shape encoding a surrogate
    assert_eq!(
        char::from_utf8_slice_start(&[0xed, 0xa0, 0x80]),
        Err(InvalidUtf8Slice::Codepoint(CodepointError::Utf16Reserved))
    );
    // a four-byte shape encoding a value above the last codepoint
    assert_eq!(
        char::from_utf8_slice_start(&[0xf5, 0x90, 0x80, 0x80]),
        Err(InvalidUtf8Slice::Codepoint(CodepointError::TooHigh))
    );
}

#[test]
fn utf8_builder_agrees_with_slice_decode() {
    // every boundary value: feeding the encoding byte by byte gives the
    // same codepoint as the one-shot decoder, on the final byte
    for &cp in &[0x0u32, 0x7f, 0x80, 0x7ff, 0x800, 0xd7ff, 0xe000, 0xffff, 0x10000, 0x10ffff] {
        let c = char::from_u32(cp).unwrap();
        let (arr, len) = c.to_utf8_array();
        let mut builder = Utf8CharBuilder::new();
        for i in 0..len {
            let step = builder.append(arr[i]);
            if i + 1 < len {
                assert_eq!(step, None, "{:x} byte {}", cp, i);
            } else {
                let expected = Utf8Char::from_slice_start(&arr[..len]).unwrap().0;
                assert_eq!(step, Some(Ok(expected)), "{:x}", cp);
            }
        }
        assert_eq!(builder.finish(), None);
    }
}

#[test]
fn utf8_builder_reports_each_error_kind() {
    // continuation byte first
    let mut b = Utf8CharBuilder::new();
    assert_eq!(
        b.append(0x80),
        Some(Err(InvalidUtf8Slice::Utf8(InvalidUtf8::FirstByte(
            InvalidUtf8FirstByte::ContinuationByte
        ))))
    );
    // first byte of a five-byte shape
    assert_eq!(
        b.append(0xf8),
        Some(Err(InvalidUtf8Slice::Utf8(InvalidUtf8::FirstByte(
            InvalidUtf8FirstByte::TooLongSeqence
        ))))
    );
    // interrupted sequence
    assert_eq!(b.append(0xc3), None);
    assert_eq!(
        b.append(0x41),
        Some(Err(InvalidUtf8Slice::Utf8(InvalidUtf8::NotAContinuationByte(1))))
    );
    // overlong encoding
    assert_eq!(b.append(0xc0), None);
    assert_eq!(b.append(0xbf), Some(Err(InvalidUtf8Slice::Utf8(InvalidUtf8::OverLong))));
    // surrogate encoded as three bytes
    assert_eq!(b.append(0xed), None);
    assert_eq!(b.append(0xa0), None);
    assert_eq!(
        b.append(0x80),
        Some(Err(InvalidUtf8Slice::Codepoint(CodepointError::Utf16Reserved)))
    );
    // value above the last codepoint
    assert_eq!(b.append(0xf5), None);
    assert_eq!(b.append(0x90), None);
    assert_eq!(b.append(0x80), None);
    assert_eq!(
        b.append(0x80),
        Some(Err(InvalidUtf8Slice::Codepoint(CodepointError::TooHigh)))
    );
    // cut short: ended input while two more bytes were expected
    let mut b = Utf8CharBuilder::new();
    assert_eq!(b.append(0xe2), None);
    assert_eq!(b.pending(), 1);
    assert_eq!(b.finish(), Some(Err(InvalidUtf8Slice::TooShort(3))));
}

#[test]
fn utf16_builder_cases() {
    let mut b = Utf16CharBuilder::new();
    // a standalone unit completes at once
    assert_eq!(b.append(0x41).unwrap().unwrap().to_char(), 'A');
    // a pair completes on the trailing surrogate
    assert_eq!(b.append(0xd800), None);
    let pair = b.append(0xdc00).unwrap().unwrap();
    assert_eq!(pair.to_char() as u32, 0x10000);
    // a trailing surrogate cannot begin a codepoint
    assert_eq!(
        b.append(0xdfff),
        Some(Err(InvalidUtf16Tuple::FirstIsTrailingSurrogate))
    );
    // a pending pair continued by a non-surrogate reports the failed pair
    assert_eq!(b.append(0xdbff), None);
    assert_eq!(b.append(0x41), Some(Err(InvalidUtf16Tuple::InvalidSecond)));
    // a pending pair at the end of input is incomplete
    assert_eq!(b.append(0xd900), None);
    assert_eq!(b.finish(), Some(Err(InvalidUtf16Tuple::MissingSecond)));
    // nothing pending means nothing to report
    assert_eq!(Utf16CharBuilder::new().finish(), None);
}

#[test]
fn to_slice_rejects_short_buffers() {
    let c = char::from_u32(0x10348).unwrap();
    let u8c = c.to_utf8();
    let mut small = [0u8; 3];
    assert_eq!(u8c.to_slice(&mut small), None);
    assert_eq!(small, [0, 0, 0]);
    let mut big = [0u8; 5];
    assert_eq!(u8c.to_slice(&mut big), Some(4));
    assert_eq!(&big[..4], u8c.as_str().as_bytes());

    let u16c = c.to_utf16();
    let mut one = [0u16; 1];
    assert_eq!(u16c.to_slice(&mut one), None);
    let mut two = [0u16; 2];
    assert_eq!(u16c.to_slice(&mut two), Some(2));
    assert_eq!(two, [0xd800, 0xdf48]);
}

#[test]
fn ascii_case_mapping() {
    let a = 'a'.to_utf8();
    assert_eq!(a.to_ascii_uppercase().to_char(), 'A');
    assert_eq!('Z'.to_utf8().to_ascii_lowercase().to_char(), 'z');
    assert_eq!('5'.to_utf8().to_ascii_uppercase().to_char(), '5');
    assert_eq!('ä'.to_utf8().to_ascii_uppercase().to_char(), 'ä');
    assert!(a.eq_ignore_ascii_case(&'A'.to_utf8()));
    assert!(!a.eq_ignore_ascii_case(&'b'.to_utf8()));
    assert!(!'ä'.to_utf8().eq_ignore_ascii_case(&'Ä'.to_utf8()));

    let b = 'b'.to_utf16();
    assert_eq!(b.to_ascii_uppercase().to_char(), 'B');
    assert_eq!('Q'.to_utf16().to_ascii_lowercase().to_char(), 'q');
    assert!(b.eq_ignore_ascii_case(&'B'.to_utf16()));
    assert!(!b.eq_ignore_ascii_case(&'c'.to_utf16()));
    let mut m = 'x'.to_utf8();
    m.make_ascii_uppercase();
    assert_eq!(m.to_char(), 'X');
    let mut m16 = 'Y'.to_utf16();
    m16.make_ascii_lowercase();
    assert_eq!(m16.to_char(), 'y');
}

#[test]
fn single_byte_constructors() {
    assert_eq!(Utf8Char::from_ascii(b'7').unwrap().to_char(), '7');
    assert_eq!(Utf8Char::from_ascii(0xe5), Err(NonAsciiError));
    assert_eq!(Utf16Char::from_bmp(0x20ac).unwrap().to_char(), '\u{20ac}');
    assert_eq!(Utf16Char::from_bmp(0xdbad), Err(NonBmpError));
}

#[test]
fn error_descriptions_and_ranges() {
    assert_eq!(
        CodepointError::Utf16Reserved.error_range(),
        0xd800..=0xdfff
    );
    assert_eq!(CodepointError::TooHigh.error_range(), 0x11_0000..=0xffff_ffff);
    assert_eq!(
        CodepointError::TooHigh.description(),
        "is higher than the highest codepoint"
    );
    assert_eq!(InvalidUtf8Slice::TooShort(2).description(), "the slice is shorter than the sequence");
    assert_eq!(InvalidUtf16Slice::EmptySlice.description(), "the slice is empty");
    assert_eq!(
        InvalidUtf16Tuple::SuperfluousSecond.description(),
        "the second unit is superfluous"
    );
}

#[test]
fn utf16_slice_decoding() {
    let units = [0x0041u16, 0xd852, 0xdf62, 0x00e4];
    assert_eq!(char::from_utf16_slice_start(&units), Ok(('A', 1)));
    assert_eq!(char::from_utf16_slice_start(&units[1..]), Ok(('\u{24b62}', 2)));
    assert_eq!(char::from_utf16_slice_start(&units[3..]), Ok(('ä', 1)));
    let (u16c, consumed) = Utf16Char::from_slice(&units[1..]).unwrap();
    assert_eq!(consumed, 2);
    assert_eq!(u16c.len(), 2);
    assert_eq!(u16c.to_tuple(), (0xd852, Some(0xdf62)));
}

#[test]
fn utf8char_roundtrip_via_str() {
    for &cp in &[0x24u32, 0xa2, 0x939, 0x20ac, 0xd55c, 0x10348] {
        let c = char::from_u32(cp).unwrap();
        let u8c = c.to_utf8();
        assert_eq!(u8c.as_str(), c.to_string().as_str());
        assert_eq!(u8c.as_str().len(), u8c.len());
        assert_eq!(u8c.as_str().chars().next(), Some(c));
    }
}

#[test]
fn str_chars_iterators() {
    let s = "aä\u{20ac}\u{10348}z";
    let expected: Vec<char> = s.chars().collect();

    let mut it8 = s.utf8chars();
    let mut got8 = Vec::new();
    while let Some(u) = it8.next() {
        got8.push(u.to_char());
    }
    assert_eq!(got8, expected);
    assert_eq!(it8.next(), None);

    let mut it16 = s.utf16chars();
    let mut got16 = Vec::new();
    while let Some(u) = it16.next() {
        got16.push(u.to_char());
    }
    assert_eq!(got16, expected);

    let reference: Vec<(usize, char)> = s.char_indices().collect();
    let mut idx8 = s.utf8char_indices();
    let mut gotidx = Vec::new();
    while let Some((i, u)) = idx8.next() {
        gotidx.push((i, u.to_char()));
    }
    assert_eq!(gotidx, reference);

    let mut idx16 = s.utf16char_indices();
    let mut gotidx16 = Vec::new();
    while let Some((i, u)) = idx16.next() {
        gotidx16.push((i, u.to_char()));
    }
    assert_eq!(gotidx16, reference);
}
