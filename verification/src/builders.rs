//! Incremental decoders: feed one byte or unit at a time and get the
//! completed codepoint, or the error, on the input that completes it.
//!
//! Completing a sequence performs exactly the validation of the one-shot
//! decoders, so feeding an encoding byte by byte gives the same result
//! as decoding it in one call.

use vstd::prelude::*;
use crate::errors::{InvalidUtf16Tuple, InvalidUtf8Slice};
use crate::utf8_model::{
    lemma_builder_pad_matches_slice, spec_from_utf8_slice_start, spec_pad4, spec_utf8_needed,
};
use crate::utf16_model::{spec_from_utf16_tuple, spec_is_leading_surrogate};
use crate::utf8_char::Utf8Char;
use crate::utf16_char::Utf16Char;

verus! {

/// Builds one UTF-8 encoded codepoint from bytes fed one at a time.
///
/// Its view is the bytes accumulated so far; `append` returns `None`
/// while the leading byte announces that more bytes are needed, and the
/// decoded result — the same one the slice decoder would give for the
/// accumulated bytes — on the byte that completes the sequence.
#[derive(Clone, Copy, Debug)]
pub struct Utf8CharBuilder {
    bytes: [u8; 4],
    have: usize,
}

impl View for Utf8CharBuilder {
    type V = Seq<u8>;

    /// The bytes fed so far, belonging to a still incomplete sequence.
    closed spec fn view(&self) -> Seq<u8> {
        self.bytes@.take(self.have as int)
    }
}

impl Utf8CharBuilder {
    #[verifier::type_invariant]
    spec fn wf(self) -> bool {
        &&& self.have < 4
        &&& self.have > 0 ==> self.have < spec_utf8_needed(self.bytes@[0])
    }

    /// An empty builder, awaiting the first byte of a sequence.
    pub fn new() -> (r: Self)
        ensures
            r@ == Seq::<u8>::empty(),
    {
        let b = Utf8CharBuilder { bytes: [0, 0, 0, 0], have: 0 };
        proof {
            assert(b@ =~= Seq::<u8>::empty());
        }
        b
    }

    /// How many bytes of the expected sequence the given leading byte
    /// still requires at this point. Exposed for callers that want to
    /// size their reads.
    pub fn pending(&self) -> (r: usize)
        ensures
            r == self@.len(),
    {
        proof {
            use_type_invariant(&*self);
        }
        self.have
    }

    /// Feed one byte.
    ///
    /// Returns `None` while the sequence announced by its leading byte is
    /// incomplete, and otherwise the same result that the slice decoder
    /// gives for the accumulated bytes; the builder is then empty again.
    pub fn append(&mut self, byte: u8) -> (r: Option<Result<Utf8Char, InvalidUtf8Slice>>)
        ensures
            ({
                let fed = old(self)@ + seq![byte];
                &&& fed.len() < spec_utf8_needed(fed[0]) ==> r is None && final(self)@ == fed
                &&& fed.len() >= spec_utf8_needed(fed[0]) ==> final(self)@.len() == 0 && (
                match r {
                    Some(Ok(u)) => spec_from_utf8_slice_start(fed) == Ok::<
                        (u32, usize),
                        InvalidUtf8Slice,
                    >((u@ as u32, fed.len() as usize)),
                    Some(Err(e)) => spec_from_utf8_slice_start(fed) == Err::<
                        (u32, usize),
                        InvalidUtf8Slice,
                    >(e),
                    None => false,
                })
            }),
    {
        proof {
            use_type_invariant(&*self);
        }
        let ghost fed = old(self)@ + seq![byte];
        if self.have == 0 {
            let needed: usize = if byte < 0x80 {
                1
            } else if byte < 0xc0 {
                1
            } else if byte < 0xe0 {
                2
            } else if byte < 0xf0 {
                3
            } else if byte < 0xf8 {
                4
            } else {
                1
            };
            if needed == 1 {
                proof {
                    assert(fed =~= seq![byte]);
                    assert(spec_pad4(fed) =~= seq![byte, 0u8, 0u8, 0u8]);
                    lemma_builder_pad_matches_slice(fed);
                    assert(final(self)@ =~= Seq::<u8>::empty());
                }
                Some(Self::decode_padded([byte, 0, 0, 0], Ghost(fed)))
            } else {
                self.bytes[0] = byte;
                self.have = 1;
                proof {
                    assert(final(self)@ =~= fed);
                }
                None
            }
        } else {
            let b0 = self.bytes[0];
            let needed: usize = if b0 < 0xe0 {
                2
            } else if b0 < 0xf0 {
                3
            } else {
                4
            };
            let pos = self.have;
            self.bytes[pos] = byte;
            if pos + 1 == needed {
                let arr: [u8; 4] = if needed == 2 {
                    [self.bytes[0], self.bytes[1], 0, 0]
                } else if needed == 3 {
                    [self.bytes[0], self.bytes[1], self.bytes[2], 0]
                } else {
                    [self.bytes[0], self.bytes[1], self.bytes[2], self.bytes[3]]
                };
                self.have = 0;
                proof {
                    assert(arr@ =~= spec_pad4(fed));
                    lemma_builder_pad_matches_slice(fed);
                    assert(final(self)@ =~= Seq::<u8>::empty());
                }
                Some(Self::decode_padded(arr, Ghost(fed)))
            } else {
                self.have = pos + 1;
                proof {
                    assert(final(self)@ =~= fed);
                }
                None
            }
        }
    }

    /// Report what an ended input means: nothing was pending, or the
    /// pending sequence was cut short — the same answer the slice
    /// decoder gives for the accumulated bytes.
    pub fn finish(self) -> (r: Option<Result<Utf8Char, InvalidUtf8Slice>>)
        ensures
            self@.len() == 0 ==> r is None,
            self@.len() > 0 ==> r == Some(Err::<Utf8Char, InvalidUtf8Slice>(
                InvalidUtf8Slice::TooShort(spec_utf8_needed(self@[0]) as usize),
            )),
            self@.len() > 0 ==> spec_from_utf8_slice_start(self@) == Err::<
                (u32, usize),
                InvalidUtf8Slice,
            >(InvalidUtf8Slice::TooShort(spec_utf8_needed(self@[0]) as usize)),
    {
        proof {
            use_type_invariant(&self);
        }
        if self.have == 0 {
            None
        } else {
            let b0 = self.bytes[0];
            let needed: usize = if b0 < 0xe0 {
                2
            } else if b0 < 0xf0 {
                3
            } else {
                4
            };
            Some(Err(InvalidUtf8Slice::TooShort(needed)))
        }
    }

    // Decodes a complete, zero-padded sequence, renaming the error into
    // the slice error space.
    fn decode_padded(arr: [u8; 4], fed: Ghost<Seq<u8>>) -> (r: Result<Utf8Char, InvalidUtf8Slice>)
        requires
            arr@ == spec_pad4(fed@),
            1 <= fed@.len() <= 4,
            fed@.len() == spec_utf8_needed(fed@[0]),
        ensures
            r matches Ok(u) ==> spec_from_utf8_slice_start(fed@) == Ok::<
                (u32, usize),
                InvalidUtf8Slice,
            >((u@ as u32, fed@.len() as usize)),
            r matches Err(e) ==> spec_from_utf8_slice_start(fed@) == Err::<
                (u32, usize),
                InvalidUtf8Slice,
            >(e),
    {
        proof {
            lemma_builder_pad_matches_slice(fed@);
        }
        match Utf8Char::from_array(arr) {
            Ok(u) => Ok(u),
            Err(e) => Err(
                match e {
                    crate::errors::InvalidUtf8Array::Utf8(inner) => InvalidUtf8Slice::Utf8(inner),
                    crate::errors::InvalidUtf8Array::Codepoint(inner) => InvalidUtf8Slice::Codepoint(
                        inner,
                    ),
                },
            ),
        }
    }
}

impl Default for Utf8CharBuilder {
    /// An empty builder, awaiting the first byte of a sequence.
    fn default() -> (r: Self)
        ensures
            r@ == Seq::<u8>::empty(),
    {
        Utf8CharBuilder::new()
    }
}

/// Builds one UTF-16 encoded codepoint from units fed one at a time.
///
/// Its view is the pending leading surrogate, if any. Feeding a unit
/// that cannot continue a pending pair reports the failed pair at once
/// and consumes the offending unit; it is not re-queued.
#[derive(Clone, Copy, Debug)]
pub struct Utf16CharBuilder {
    prev: Option<u16>,
}

impl View for Utf16CharBuilder {
    type V = Seq<u16>;

    /// The units fed so far, belonging to a still incomplete pair.
    closed spec fn view(&self) -> Seq<u16> {
        match self.prev {
            None => seq![],
            Some(u) => seq![u],
        }
    }
}

impl Utf16CharBuilder {
    #[verifier::type_invariant]
    spec fn wf(self) -> bool {
        self.prev matches Some(u) ==> spec_is_leading_surrogate(u)
    }

    /// An empty builder, awaiting a unit.
    pub fn new() -> (r: Self)
        ensures
            r@ == Seq::<u16>::empty(),
    {
        Utf16CharBuilder { prev: None }
    }

    /// Feed one unit.
    ///
    /// A unit that stands alone completes at once; a leading surrogate is
    /// buffered and completes with the next unit — as the pair the tuple
    /// decoder would accept, or as the error it would report.
    pub fn append(&mut self, unit: u16) -> (r: Option<Result<Utf16Char, InvalidUtf16Tuple>>)
        ensures
            old(self)@.len() == 0 && spec_is_leading_surrogate(unit) ==> r is None
                && final(self)@ == seq![unit],
            old(self)@.len() == 0 && !spec_is_leading_surrogate(unit) ==> final(self)@.len() == 0
                && (match r {
                Some(Ok(u)) => spec_from_utf16_tuple(unit, None) == Ok::<u32, InvalidUtf16Tuple>(
                    u@ as u32,
                ),
                Some(Err(e)) => spec_from_utf16_tuple(unit, None) == Err::<u32, InvalidUtf16Tuple>(
                    e,
                ),
                None => false,
            }),
            old(self)@.len() == 1 ==> final(self)@.len() == 0 && (match r {
                Some(Ok(u)) => spec_from_utf16_tuple(old(self)@[0], Some(unit)) == Ok::<
                    u32,
                    InvalidUtf16Tuple,
                >(u@ as u32),
                Some(Err(e)) => spec_from_utf16_tuple(old(self)@[0], Some(unit)) == Err::<
                    u32,
                    InvalidUtf16Tuple,
                >(e),
                None => false,
            }),
    {
        proof {
            use_type_invariant(&*self);
        }
        match self.prev {
            None => {
                if unit >= 0xd800 && unit <= 0xdbff {
                    self.prev = Some(unit);
                    None
                } else {
                    Some(Utf16Char::from_tuple((unit, None)))
                }
            },
            Some(first) => {
                self.prev = None;
                Some(Utf16Char::from_tuple((first, Some(unit))))
            },
        }
    }

    /// Report what an ended input means: nothing was pending, or a
    /// leading surrogate was left without its trailing half — the same
    /// answer the tuple decoder gives for the pending unit alone.
    pub fn finish(self) -> (r: Option<Result<Utf16Char, InvalidUtf16Tuple>>)
        ensures
            self@.len() == 0 ==> r is None,
            self@.len() == 1 ==> r == Some(Err::<Utf16Char, InvalidUtf16Tuple>(
                InvalidUtf16Tuple::MissingSecond,
            )) && spec_from_utf16_tuple(self@[0], None) == Err::<u32, InvalidUtf16Tuple>(
                InvalidUtf16Tuple::MissingSecond,
            ),
    {
        proof {
            use_type_invariant(&self);
        }
        match self.prev {
            None => None,
            Some(_) => Some(Err(InvalidUtf16Tuple::MissingSecond)),
        }
    }
}

impl Default for Utf16CharBuilder {
    /// An empty builder, awaiting a unit.
    fn default() -> (r: Self)
        ensures
            r@ == Seq::<u16>::empty(),
    {
        Utf16CharBuilder::new()
    }
}

} // verus!
