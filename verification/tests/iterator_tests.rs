//! Iterators are stateful; test that they behave.

use encode_unicode::{CharExt, Utf8Iterator};

#[test]
fn read_single_byte() {
    let mut buf = [0; 4];
    for c in 0..128 {
        let uc = char::from_u32_detailed(c).unwrap().to_utf8();
        let mut iter = Utf8Iterator::from(uc);
        assert_eq!((iter.read(&mut buf[..4]), c), (1, c));
        assert_eq!((iter.read(&mut buf[..4]), c), (0, c));
        let mut iter = Utf8Iterator::from(uc);
        assert_eq!((iter.read(&mut buf[..1]), c), (1, c));
        assert_eq!((iter.read(&mut buf[..1]), c), (0, c));
        let mut iter = Utf8Iterator::from(uc);
        assert_eq!((iter.read(&mut buf[..0]), c), (0, c));
        assert_eq!((iter.read(&mut buf[..2]), c), (1, c));
    }
}
