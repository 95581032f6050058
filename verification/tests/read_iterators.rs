//! Tests for ensuring that the byte iterator supports interleaving calls
//! of `read()` and `next()`, and that it fills buffers of any size at
//! any time.

use std::cmp::min;
use encode_unicode::{CharExt, StrExt, Utf16CharSplitter, Utf8CharSplitter, Utf8Iterator};

#[test]
fn read_single_ascii() {
    let uc = 'a'.to_utf8();
    assert_eq!(uc.len(), 1);
    for chunk in 1..5 {
        let mut buf = [b'E'; 6];
        let mut iter = Utf8Iterator::from(uc);
        let mut written = 0;
        for _ in 0..4 {
            assert_eq!(iter.read(&mut buf[..0]), 0);
            let wrote = iter.read(&mut buf[written..written + chunk]);
            assert_eq!(wrote, min(1 - written, chunk));
            written += wrote;
            for &b in &buf[written..] {
                assert_eq!(b, b'E');
            }
            assert_eq!(buf[..written], uc.as_str().as_bytes()[..written]);
        }
        assert_eq!(written, 1);
    }
}

#[test]
fn read_single_nonascii() {
    let uc = 'ä'.to_utf8();
    assert_eq!(uc.len(), 2);
    for chunk in 1..5 {
        let mut buf = [b'E'; 6];
        let mut iter = Utf8Iterator::from(uc);
        let mut written = 0;
        for _ in 0..4 {
            assert_eq!(iter.read(&mut buf[..0]), 0);
            let wrote = iter.read(&mut buf[written..written + chunk]);
            assert_eq!(wrote, min(2 - written, chunk));
            written += wrote;
            for &b in &buf[written..] {
                assert_eq!(b, b'E');
            }
            assert_eq!(buf[..written], uc.as_str().as_bytes()[..written]);
        }
        assert_eq!(written, 2);
    }
}

#[test]
fn read_mixed_with_next() {
    let uc = '\u{10ffff}'.to_utf8();
    assert_eq!(uc.len(), 4);
    let expected = uc.to_array().0;
    let mut iter = Utf8Iterator::from(uc);
    assert_eq!(iter.next(), Some(expected[0]));
    let mut buf = [0u8; 2];
    assert_eq!(iter.read(&mut buf[..]), 2);
    assert_eq!(buf, [expected[1], expected[2]]);
    assert_eq!(iter.len(), 1);
    assert_eq!(iter.next(), Some(expected[3]));
    assert_eq!(iter.next(), None);
    assert_eq!(iter.read(&mut buf[..]), 0);
}

#[test]
fn utf8charsplitter_flattens() {
    let s = "1111\u{104444}\u{222}1\u{833}1111\u{100004}";
    let mut chars = Vec::new();
    let mut it = s.utf8chars();
    while let Some(u) = it.next() {
        chars.push(u);
    }
    let mut splitter = Utf8CharSplitter::from(&chars[..]);
    let mut bytes = Vec::new();
    while let Some(b) = splitter.next() {
        bytes.push(b);
    }
    assert_eq!(&bytes[..], s.as_bytes());
    assert_eq!(splitter.next(), None);
}

#[test]
fn utf16charsplitter_flattens() {
    let s = "1111\u{104444}\u{222}1\u{833}1111\u{100004}";
    let mut chars = Vec::new();
    let mut it = s.utf16chars();
    while let Some(u) = it.next() {
        chars.push(u);
    }
    let mut splitter = Utf16CharSplitter::from(&chars[..]);
    let mut units = Vec::new();
    while let Some(u) = splitter.next() {
        units.push(u);
    }
    let expected: Vec<u16> = s.encode_utf16().collect();
    assert_eq!(units, expected);
    assert_eq!(splitter.next(), None);
}
