//! A cursor over the bytes in the UTF-8 representation of one codepoint:
//! yields each byte exactly once, forward only.

use vstd::prelude::*;
use vstd::string::StringSliceAdditionalSpecFns;
use vstd::utf8::{decode_first_scalar, decode_utf8, encode_scalar, pop_first_scalar, valid_utf8};
use crate::utf8_model::lemma_decode_step;
use crate::utf8_char::Utf8Char;

verus! {

/// Iterate over the bytes of the UTF-8 representation of a codepoint.
///
/// The remaining bytes are its view; a fresh iterator's view is the whole
/// encoding. It is cheaply copyable: copying restarts nothing, each copy
/// keeps its own position.
#[derive(Clone, Copy, Debug)]
pub struct Utf8Iterator {
    uc: Utf8Char,
    pos: usize,
}

impl View for Utf8Iterator {
    type V = Seq<u8>;

    /// The bytes not yet yielded.
    closed spec fn view(&self) -> Seq<u8> {
        encode_scalar(self.uc@ as u32).skip(self.pos as int)
    }
}

impl Utf8Iterator {
    #[verifier::type_invariant]
    spec fn wf(self) -> bool {
        self.pos <= self.uc.spec_len()
    }

    /// The iterator that `from` returns, positioned at the first byte.
    pub closed spec fn spec_fresh(uc: Utf8Char) -> Utf8Iterator {
        Utf8Iterator { uc, pos: 0 }
    }

    /// A fresh iterator yields exactly the encoding of the codepoint.
    pub proof fn lemma_fresh(uc: Utf8Char)
        ensures
            Utf8Iterator::spec_fresh(uc)@ == encode_scalar(uc@ as u32),
    {
        assert(Utf8Iterator::spec_fresh(uc)@ =~= encode_scalar(uc@ as u32));
    }

    /// How many bytes are left, between 0 and 4.
    pub fn len(&self) -> (r: usize)
        ensures
            r == self@.len(),
    {
        proof {
            use_type_invariant(&*self);
            use_type_invariant(&self.uc);
            self.uc.lemma_stored_form();
        }
        self.uc.len() - self.pos
    }

    /// The exact number of bytes left, as a lower and upper bound.
    pub fn size_hint(&self) -> (r: (usize, Option<usize>))
        ensures
            r.0 == self@.len(),
            r.1 == Some(self@.len() as usize),
    {
        let n = self.len();
        (n, Some(n))
    }

    /// Yield the next byte, or `None` once all bytes are spent.
    pub fn next(&mut self) -> (r: Option<u8>)
        ensures
            old(self)@.len() == 0 ==> r is None && final(self)@ == old(self)@,
            old(self)@.len() > 0 ==> r == Some(old(self)@[0]) && final(self)@ == old(
                self,
            )@.drop_first(),
    {
        proof {
            use_type_invariant(&*self);
            use_type_invariant(&self.uc);
            self.uc.lemma_stored_form();
        }
        let len = self.uc.len();
        if self.pos >= len {
            None
        } else {
            let (arr, _) = self.uc.to_array();
            let b = arr[self.pos];
            self.pos = self.pos + 1;
            proof {
                assert(final(self)@ =~= old(self)@.drop_first());
            }
            Some(b)
        }
    }

    /// Fill the start of the buffer with the remaining bytes, never more
    /// than fit, and return how many were written. Reads of any size can
    /// be mixed freely with `next`; no byte is lost or repeated.
    pub fn read(&mut self, buf: &mut [u8]) -> (r: usize)
        ensures
            r == if old(buf)@.len() < old(self)@.len() {
                old(buf)@.len()
            } else {
                old(self)@.len()
            },
            final(self)@ == old(self)@.skip(r as int),
            final(buf)@.len() == old(buf)@.len(),
            forall|i: int| 0 <= i < r ==> final(buf)@[i] == old(self)@[i],
            forall|i: int| r <= i < final(buf)@.len() ==> final(buf)@[i] == old(buf)@[i],
    {
        proof {
            use_type_invariant(&*self);
            use_type_invariant(&self.uc);
            self.uc.lemma_stored_form();
        }
        let rem = self.uc.len() - self.pos;
        let n = if buf.len() < rem {
            buf.len()
        } else {
            rem
        };
        let (arr, _) = self.uc.to_array();
        let ghost start = self.pos as int;
        let mut i: usize = 0;
        while i < n
            invariant
                i <= n,
                n + start <= self.uc.spec_len() <= 4,
                0 <= start,
                self.pos == start + i,
                n <= buf@.len(),
                buf@.len() == old(buf)@.len(),
                self.uc == old(self).uc,
                arr@ == self.uc.spec_bytes(),
                self.uc.spec_bytes().subrange(0, self.uc.spec_len()) == encode_scalar(
                    self.uc@ as u32,
                ),
                forall|j: int| 0 <= j < i ==> buf@[j] == encode_scalar(self.uc@ as u32)[start + j],
                forall|j: int| i <= j < buf@.len() ==> buf@[j] == old(buf)@[j],
            decreases n - i,
        {
            let b = arr[self.pos];
            buf[i] = b;
            self.pos = self.pos + 1;
            i = i + 1;
        }
        proof {
            assert(final(self)@ =~= old(self)@.skip(n as int));
        }
        n
    }

    /// The remaining bytes, collected in order. The iterator can be read
    /// again afterwards: collecting does not advance it.
    pub fn to_vec(&self) -> (r: Vec<u8>)
        ensures
            r@ == self@,
    {
        proof {
            use_type_invariant(&*self);
            use_type_invariant(&self.uc);
            self.uc.lemma_stored_form();
        }
        let len = self.uc.len();
        let (arr, _) = self.uc.to_array();
        let mut out: Vec<u8> = Vec::new();
        let mut i: usize = self.pos;
        while i < len
            invariant
                self.pos <= i <= len,
                len == self.uc.spec_len(),
                arr@ == self.uc.spec_bytes(),
                self.uc.spec_bytes().subrange(0, self.uc.spec_len()) == encode_scalar(
                    self.uc@ as u32,
                ),
                out@.len() == i - self.pos,
                forall|j: int| 0 <= j < out@.len() ==> out@[j] == encode_scalar(self.uc@ as u32)[
                    self.pos + j],
            decreases len - i,
        {
            let b = arr[i];
            out.push(b);
            i = i + 1;
        }
        proof {
            assert(out@ =~= self@);
        }
        out
    }
}

impl From<Utf8Char> for Utf8Iterator {
    /// Iterate over the byte values.
    fn from(uc: Utf8Char) -> (r: Self) {
        Utf8Iterator { uc, pos: 0 }
    }
}

impl vstd::std_specs::convert::FromSpecImpl<Utf8Char> for Utf8Iterator {
    open spec fn obeys_from_spec() -> bool {
        true
    }

    open spec fn from_spec(uc: Utf8Char) -> Utf8Iterator {
        Utf8Iterator::spec_fresh(uc)
    }
}

impl From<char> for Utf8Iterator {
    /// Encode the codepoint, then iterate over the byte values.
    fn from(c: char) -> (r: Self) {
        proof {
            Utf8Char::lemma_spec_from_char(c);
        }
        Utf8Iterator::from(Utf8Char::from(c))
    }
}

impl vstd::std_specs::convert::FromSpecImpl<char> for Utf8Iterator {
    open spec fn obeys_from_spec() -> bool {
        true
    }

    open spec fn from_spec(c: char) -> Utf8Iterator {
        Utf8Iterator::spec_fresh(Utf8Char::spec_from_char(c))
    }
}

/// The UTF-8 bytes of a sequence of stored codepoints, flattened.
pub open spec fn spec_utf8_bytes_of(chars: Seq<Utf8Char>) -> Seq<u8>
    decreases chars.len(),
{
    if chars.len() == 0 {
        Seq::<u8>::empty()
    } else {
        encode_scalar(chars[0]@ as u32) + spec_utf8_bytes_of(chars.drop_first())
    }
}

// One unfolding of the flattened byte sequence.
proof fn lemma_flatten_utf8_step(chars: Seq<Utf8Char>)
    requires
        chars.len() > 0,
    ensures
        spec_utf8_bytes_of(chars) == encode_scalar(chars[0]@ as u32) + spec_utf8_bytes_of(
            chars.drop_first(),
        ),
        spec_utf8_bytes_of(chars).len() >= encode_scalar(chars[0]@ as u32).len(),
{
}

/// An iterator over the bytes of a sequence of stored codepoints,
/// flattened: what iterating each codepoint's bytes in turn would give,
/// without re-validating anything.
///
/// The bytes not yet yielded are its view.
#[derive(Clone, Copy, Debug)]
pub struct Utf8CharSplitter<'a> {
    chars: &'a [Utf8Char],
    idx: usize,
    inner: usize,
}

impl<'a> View for Utf8CharSplitter<'a> {
    type V = Seq<u8>;

    /// The bytes not yet yielded.
    closed spec fn view(&self) -> Seq<u8> {
        spec_utf8_bytes_of(self.chars@.skip(self.idx as int)).skip(self.inner as int)
    }
}

impl<'a> Utf8CharSplitter<'a> {
    #[verifier::type_invariant]
    spec fn wf(self) -> bool {
        &&& self.idx <= self.chars@.len()
        &&& self.idx < self.chars@.len() ==> self.inner < self.chars@[self.idx as int].spec_len()
        &&& self.idx >= self.chars@.len() ==> self.inner == 0
    }

    /// The iterator that `from` returns, positioned at the first byte.
    pub closed spec fn spec_fresh(chars: &'a [Utf8Char]) -> Utf8CharSplitter<'a> {
        Utf8CharSplitter { chars, idx: 0, inner: 0 }
    }

    /// A fresh splitter yields the flattened bytes of all the codepoints.
    pub proof fn lemma_fresh(chars: &'a [Utf8Char])
        ensures
            Utf8CharSplitter::spec_fresh(chars)@ == spec_utf8_bytes_of(chars@),
    {
        assert(chars@.skip(0) =~= chars@);
        assert(Utf8CharSplitter::spec_fresh(chars)@ =~= spec_utf8_bytes_of(chars@));
    }

    /// Yield the next byte, or `None` once every codepoint's bytes are
    /// spent.
    pub fn next(&mut self) -> (r: Option<u8>)
        ensures
            old(self)@.len() == 0 ==> r is None && final(self)@ == old(self)@,
            old(self)@.len() > 0 ==> r == Some(old(self)@[0]) && final(self)@ == old(
                self,
            )@.drop_first(),
    {
        proof {
            use_type_invariant(&*self);
        }
        if self.idx >= self.chars.len() {
            None
        } else {
            let uc = self.chars[self.idx];
            proof {
                use_type_invariant(&uc);
                uc.lemma_stored_form();
                lemma_flatten_utf8_step(self.chars@.skip(self.idx as int));
            }
            let (arr, len) = uc.to_array();
            let b = arr[self.inner];
            if self.inner + 1 < len {
                self.inner = self.inner + 1;
            } else {
                proof {
                    assert(self.chars@.skip(self.idx as int + 1) =~= self.chars@.skip(
                        self.idx as int,
                    ).drop_first());
                }
                let ni = self.idx + 1;
                if ni < self.chars.len() {
                    let ucn = self.chars[ni];
                    proof {
                        use_type_invariant(&ucn);
                        ucn.lemma_stored_form();
                    }
                }
                self.inner = 0;
                self.idx = ni;
            }
            proof {
                assert(final(self)@ =~= old(self)@.drop_first());
            }
            Some(b)
        }
    }
}

impl<'a> From<&'a [Utf8Char]> for Utf8CharSplitter<'a> {
    /// Iterate over the flattened byte values.
    fn from(chars: &'a [Utf8Char]) -> (r: Self) {
        if chars.len() > 0 {
            let uc0 = chars[0];
            proof {
                use_type_invariant(&uc0);
                uc0.lemma_stored_form();
            }
        }
        Utf8CharSplitter { chars, idx: 0, inner: 0 }
    }
}

impl<'a> vstd::std_specs::convert::FromSpecImpl<&'a [Utf8Char]> for Utf8CharSplitter<'a> {
    open spec fn obeys_from_spec() -> bool {
        true
    }

    open spec fn from_spec(chars: &'a [Utf8Char]) -> Utf8CharSplitter<'a> {
        Utf8CharSplitter::spec_fresh(chars)
    }
}

/// An iterator over the codepoints in a `&str`, as `Utf8Char`s:
/// equivalent to `.chars()`, but yielding stored encodings whose bytes
/// can be read without re-encoding.
///
/// The characters not yet yielded are its view.
#[derive(Clone, Copy, Debug)]
pub struct Utf8Chars<'a> {
    s: &'a str,
    pos: usize,
}

impl<'a> View for Utf8Chars<'a> {
    type V = Seq<char>;

    /// The characters not yet yielded.
    closed spec fn view(&self) -> Seq<char> {
        decode_utf8(self.s.spec_bytes().skip(self.pos as int))
    }
}

impl<'a> Utf8Chars<'a> {
    #[verifier::type_invariant]
    spec fn wf(self) -> bool {
        &&& self.pos <= self.s.spec_bytes().len()
        &&& valid_utf8(self.s.spec_bytes().skip(self.pos as int))
    }

    /// The iterator that `from` returns, positioned at the first
    /// character.
    pub closed spec fn spec_fresh(s: &'a str) -> Utf8Chars<'a> {
        Utf8Chars { s, pos: 0 }
    }

    /// A fresh iterator yields exactly the string's characters.
    pub proof fn lemma_fresh(s: &'a str)
        ensures
            Utf8Chars::spec_fresh(s)@ == s@,
    {
        vstd::utf8::encode_utf8_decode_utf8(s@);
        assert(s.spec_bytes().skip(0) =~= s.spec_bytes());
    }

    /// Yield the next codepoint, or `None` at the end of the string.
    pub fn next(&mut self) -> (r: Option<Utf8Char>)
        ensures
            old(self)@.len() == 0 ==> r is None && final(self)@ == old(self)@,
            old(self)@.len() > 0 ==> (r matches Some(u) && u@ == old(self)@[0] && final(self)@
                == old(self)@.drop_first()),
    {
        proof {
            use_type_invariant(&*self);
        }
        let b = self.s.as_bytes();
        let ghost rem = self.s.spec_bytes().skip(self.pos as int);
        if self.pos >= b.len() {
            proof {
                assert(rem.len() == 0);
            }
            None
        } else {
            let sub = vstd::slice::slice_subrange(b, self.pos, b.len());
            proof {
                assert(sub@ =~= rem);
                lemma_decode_step(rem);
            }
            match Utf8Char::from_slice_start(sub) {
                Ok((u, n)) => {
                    proof {
                        assert(self.s.spec_bytes().skip(self.pos + n as int) =~= pop_first_scalar(
                            rem,
                        ));
                        vstd::utf8::char_u32_cast(u@, decode_first_scalar(rem));
                    }
                    self.pos = self.pos + n;
                    Some(u)
                },
                Err(_) => {
                    proof {
                        assert(false);
                    }
                    None
                },
            }
        }
    }
}

impl<'a> From<&'a str> for Utf8Chars<'a> {
    /// Iterate over the string's codepoints.
    fn from(s: &'a str) -> (r: Self) {
        proof {
            vstd::utf8::encode_utf8_valid_utf8(s@);
            assert(s.spec_bytes().skip(0) =~= s.spec_bytes());
        }
        Utf8Chars { s, pos: 0 }
    }
}

impl<'a> vstd::std_specs::convert::FromSpecImpl<&'a str> for Utf8Chars<'a> {
    open spec fn obeys_from_spec() -> bool {
        true
    }

    open spec fn from_spec(s: &'a str) -> Utf8Chars<'a> {
        Utf8Chars::spec_fresh(s)
    }
}

/// An iterator over the codepoints in a `&str` and their byte offsets,
/// as `(usize, Utf8Char)` pairs: equivalent to `.char_indices()`.
///
/// The characters not yet yielded are its view.
#[derive(Clone, Copy, Debug)]
pub struct Utf8CharIndices<'a> {
    s: &'a str,
    pos: usize,
}

impl<'a> View for Utf8CharIndices<'a> {
    type V = Seq<char>;

    /// The characters not yet yielded.
    closed spec fn view(&self) -> Seq<char> {
        decode_utf8(self.s.spec_bytes().skip(self.pos as int))
    }
}

impl<'a> Utf8CharIndices<'a> {
    #[verifier::type_invariant]
    spec fn wf(self) -> bool {
        &&& self.pos <= self.s.spec_bytes().len()
        &&& valid_utf8(self.s.spec_bytes().skip(self.pos as int))
    }

    /// The byte offset of the next codepoint within the string.
    pub closed spec fn spec_offset(self) -> int {
        self.pos as int
    }

    /// The iterator that `from` returns, positioned at the first
    /// character.
    pub closed spec fn spec_fresh(s: &'a str) -> Utf8CharIndices<'a> {
        Utf8CharIndices { s, pos: 0 }
    }

    /// A fresh iterator yields exactly the string's characters, starting
    /// at offset zero.
    pub proof fn lemma_fresh(s: &'a str)
        ensures
            Utf8CharIndices::spec_fresh(s)@ == s@,
            Utf8CharIndices::spec_fresh(s).spec_offset() == 0,
    {
        vstd::utf8::encode_utf8_decode_utf8(s@);
        assert(s.spec_bytes().skip(0) =~= s.spec_bytes());
    }

    /// Yield the next codepoint and the byte offset it starts at,
    /// or `None` at the end of the string.
    pub fn next(&mut self) -> (r: Option<(usize, Utf8Char)>)
        ensures
            old(self)@.len() == 0 ==> r is None && final(self)@ == old(self)@
                && final(self).spec_offset() == old(self).spec_offset(),
            old(self)@.len() > 0 ==> (r matches Some((i, u)) && u@ == old(self)@[0] && i == old(
                self,
            ).spec_offset() && final(self)@ == old(self)@.drop_first() && final(self).spec_offset()
                == i + u.spec_len()),
    {
        proof {
            use_type_invariant(&*self);
        }
        let b = self.s.as_bytes();
        let ghost rem = self.s.spec_bytes().skip(self.pos as int);
        if self.pos >= b.len() {
            proof {
                assert(rem.len() == 0);
            }
            None
        } else {
            let sub = vstd::slice::slice_subrange(b, self.pos, b.len());
            proof {
                assert(sub@ =~= rem);
                lemma_decode_step(rem);
            }
            match Utf8Char::from_slice_start(sub) {
                Ok((u, n)) => {
                    let i = self.pos;
                    proof {
                        assert(self.s.spec_bytes().skip(self.pos + n as int) =~= pop_first_scalar(
                            rem,
                        ));
                        vstd::utf8::char_u32_cast(u@, decode_first_scalar(rem));
                        vstd::utf8::decode_utf8_first_scalar(rem);
                        assert(vstd::utf8::take_first_scalar(rem).len()
                            == vstd::utf8::length_of_first_scalar(rem));
                    }
                    self.pos = self.pos + n;
                    Some((i, u))
                },
                Err(_) => {
                    proof {
                        assert(false);
                    }
                    None
                },
            }
        }
    }
}

impl<'a> From<&'a str> for Utf8CharIndices<'a> {
    /// Iterate over the string's codepoints and their byte offsets.
    fn from(s: &'a str) -> (r: Self) {
        proof {
            vstd::utf8::encode_utf8_valid_utf8(s@);
            assert(s.spec_bytes().skip(0) =~= s.spec_bytes());
        }
        Utf8CharIndices { s, pos: 0 }
    }
}

impl<'a> vstd::std_specs::convert::FromSpecImpl<&'a str> for Utf8CharIndices<'a> {
    open spec fn obeys_from_spec() -> bool {
        true
    }

    open spec fn from_spec(s: &'a str) -> Utf8CharIndices<'a> {
        Utf8CharIndices::spec_fresh(s)
    }
}

} // verus!
