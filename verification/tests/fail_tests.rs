//! Test that methods give the correct error.
//! Some also test a bit more because it's easy.

use std::char;
use std::str::FromStr;
use encode_unicode::error::CodepointError::{TooHigh, Utf16Reserved};
use encode_unicode::error::FromStrError::{Empty, MultipleCodepoints};
use encode_unicode::error::InvalidUtf16FirstUnit;
use encode_unicode::error::InvalidUtf16Tuple::FirstIsTrailingSurrogate;
use encode_unicode::error::InvalidUtf8::OverLong;
use encode_unicode::error::InvalidUtf8FirstByte::{ContinuationByte, TooLongSeqence};
use encode_unicode::error::{InvalidUtf8Array, InvalidUtf8Slice};
use encode_unicode::{CharExt, U16UtfExt, U8UtfExt, Utf8Char};

#[test]
fn fail_tests_from_u32() {
    // test edges and somewhere in between
    assert_eq!(char::from_u32_detailed(0xd800), Err(Utf16Reserved));
    assert_eq!(char::from_u32_detailed(0xdcba), Err(Utf16Reserved));
    assert_eq!(char::from_u32_detailed(0xdfff), Err(Utf16Reserved));
    assert_eq!(char::from_u32_detailed(0x110000), Err(TooHigh));
    assert_eq!(char::from_u32_detailed(0xabcdef), Err(TooHigh));
    assert_eq!(char::from_u32_detailed(0xffffff), Err(TooHigh));
    for c in [0x0, 0x7f, 0xd7ff, 0xe000, 0x10ffff] {
        assert_eq!(char::from_u32_detailed(c).ok(), char::from_u32(c));
    }
}

#[test]
fn fail_tests_utf8_extra_bytes() {
    for c in 0..256 {
        assert_eq!(
            (c as u8).extra_utf8_bytes(),
            match c {
                0b_1000_0000..=0b_1011_1111 => Err(ContinuationByte),
                0b_1111_1000..=0b_1111_1111 => Err(TooLongSeqence),
                0b_0000_0000..=0b_0111_1111 => Ok(0),
                0b_1100_0000..=0b_1101_1111 => Ok(1),
                0b_1110_0000..=0b_1110_1111 => Ok(2),
                0b_1111_0000..=0b_1111_0111 => Ok(3),
                _ => unreachable!(),
            }
        );
    }
}

#[test]
fn fail_tests_utf16_extra_unit() {
    for c in 0..0x1_00_00 {
        assert_eq!(
            (c as u16).utf16_needs_extra_unit(),
            match c {
                0b_0000_0000_0000_0000..=0b_1101_0111_1111_1111 => Ok(false),
                0b_1101_1000_0000_0000..=0b_1101_1011_1111_1111 => Ok(true),
                0b_1101_1100_0000_0000..=0b_1101_1111_1111_1111 => Err(InvalidUtf16FirstUnit),
                0b_1110_0000_0000_0000..=0b_1111_1111_1111_1111 => Ok(false),
                _ => unreachable!(),
            }
        );
    }
}

#[test]
fn fail_tests_from_utf16_tuple() {
    assert_eq!(char::from_utf16_tuple((0xdcba, Some(0))), Err(FirstIsTrailingSurrogate));
}

#[test]
fn overlong() {
    let overlongs = [[0xc0, 0xbf], [0xe0, 0x9f], [0xf0, 0x8f], [0xc0, 0x9f], [0xe0, 0x8f], [
        0xf0, 0x87,
    ]];
    for o in overlongs.iter() {
        let arr = [o[0], o[1], 0x80, 0x80];
        assert_eq!(char::from_utf8_slice_start(&arr), Err(InvalidUtf8Slice::Utf8(OverLong)));
        assert_eq!(char::from_utf8_array(arr), Err(InvalidUtf8Array::Utf8(OverLong)));
    }
}

#[test]
fn from_str() {
    assert_eq!(Utf8Char::from_str(""), Err(Empty));
    assert_eq!(Utf8Char::from_str("ab"), Err(MultipleCodepoints));
    assert_eq!(Utf8Char::from_str("́e"), Err(MultipleCodepoints)); // 'e'+u301 combining mark
}
