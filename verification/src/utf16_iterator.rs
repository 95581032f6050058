//! A cursor over the units in the UTF-16 representation of one
//! codepoint: yields each unit exactly once, forward only.

use vstd::prelude::*;
use vstd::string::StringSliceAdditionalSpecFns;
use vstd::utf8::{decode_first_scalar, decode_utf8, encode_scalar, pop_first_scalar, valid_utf8};
use crate::utf8_model::lemma_decode_step;
use crate::utf16_model::{spec_encode_utf16, spec_is_trailing_surrogate};
use crate::utf8_char::Utf8Char;
use crate::utf16_char::Utf16Char;

verus! {

// Invalid values that say the field is consumed or empty: the first unit
// of a codepoint is never a trailing surrogate, and a trailing surrogate
// is never zero.
const FIRST_USED: u16 = 0xdc00;

const SECOND_USED: u16 = 0;

/// Iterate over the units of the UTF-16 representation of a codepoint.
///
/// The remaining units are its view; a fresh iterator's view is the
/// whole encoding. It is cheaply copyable: copying restarts nothing,
/// each copy keeps its own position.
#[derive(Clone, Copy, Debug)]
pub struct Utf16Iterator {
    first: u16,
    second: u16,
}

impl View for Utf16Iterator {
    type V = Seq<u16>;

    /// The units not yet yielded.
    closed spec fn view(&self) -> Seq<u16> {
        if self.first != FIRST_USED {
            if self.second != SECOND_USED {
                seq![self.first, self.second]
            } else {
                seq![self.first]
            }
        } else if self.second != SECOND_USED {
            seq![self.second]
        } else {
            seq![]
        }
    }
}

impl Utf16Iterator {
    #[verifier::type_invariant]
    spec fn wf(self) -> bool {
        &&& (self.second == SECOND_USED || spec_is_trailing_surrogate(self.second))
        &&& (self.first == FIRST_USED || !spec_is_trailing_surrogate(self.first))
    }

    /// The iterator that `from` returns, positioned at the first unit.
    pub closed spec fn spec_fresh(uc: Utf16Char) -> Utf16Iterator {
        Utf16Iterator { first: uc.spec_units()[0], second: uc.spec_units()[1] }
    }

    /// A fresh iterator yields exactly the encoding of the codepoint.
    pub proof fn lemma_fresh(uc: Utf16Char)
        requires
            uc.well_formed(),
        ensures
            Utf16Iterator::spec_fresh(uc)@ == spec_encode_utf16(uc@ as u32),
    {
        uc.lemma_stored_form();
        assert(Utf16Iterator::spec_fresh(uc)@ =~= spec_encode_utf16(uc@ as u32));
    }

    /// How many units are left: 0, 1 or 2.
    pub fn len(&self) -> (r: usize)
        ensures
            r == self@.len(),
    {
        let a: usize = if self.first == FIRST_USED {
            0
        } else {
            1
        };
        let b: usize = if self.second == SECOND_USED {
            0
        } else {
            1
        };
        a + b
    }

    /// The exact number of units left, as a lower and upper bound.
    pub fn size_hint(&self) -> (r: (usize, Option<usize>))
        ensures
            r.0 == self@.len(),
            r.1 == Some(self@.len() as usize),
    {
        let n = self.len();
        (n, Some(n))
    }

    /// Yield the next unit, or `None` once all units are spent.
    pub fn next(&mut self) -> (r: Option<u16>)
        ensures
            old(self)@.len() == 0 ==> r is None && final(self)@ == old(self)@,
            old(self)@.len() > 0 ==> r == Some(old(self)@[0]) && final(self)@ == old(
                self,
            )@.drop_first(),
    {
        proof {
            use_type_invariant(&*self);
        }
        if self.first == FIRST_USED && self.second == SECOND_USED {
            None
        } else if self.first == FIRST_USED {
            let s = self.second;
            self.second = SECOND_USED;
            proof {
                assert(final(self)@ =~= old(self)@.drop_first());
            }
            Some(s)
        } else {
            let f = self.first;
            self.first = FIRST_USED;
            proof {
                assert(final(self)@ =~= old(self)@.drop_first());
            }
            Some(f)
        }
    }

    /// The remaining units, collected in order. The iterator can be read
    /// again afterwards: collecting does not advance it.
    pub fn to_vec(&self) -> (r: Vec<u16>)
        ensures
            r@ == self@,
    {
        let mut out: Vec<u16> = Vec::new();
        if self.first != FIRST_USED {
            out.push(self.first);
        }
        if self.second != SECOND_USED {
            out.push(self.second);
        }
        proof {
            assert(out@ =~= self@);
        }
        out
    }
}

impl From<Utf16Char> for Utf16Iterator {
    /// Iterate over the units.
    fn from(uc: Utf16Char) -> (r: Self) {
        proof {
            use_type_invariant(&uc);
            uc.lemma_stored_form();
        }
        let (f, second) = uc.to_tuple();
        let s = match second {
            Some(s) => s,
            None => SECOND_USED,
        };
        let it = Utf16Iterator { first: f, second: s };
        proof {
            assert(it == Utf16Iterator::spec_fresh(uc));
        }
        it
    }
}

impl vstd::std_specs::convert::FromSpecImpl<Utf16Char> for Utf16Iterator {
    open spec fn obeys_from_spec() -> bool {
        true
    }

    open spec fn from_spec(uc: Utf16Char) -> Utf16Iterator {
        Utf16Iterator::spec_fresh(uc)
    }
}

impl From<char> for Utf16Iterator {
    /// Encode the codepoint, then iterate over the units.
    fn from(c: char) -> (r: Self) {
        proof {
            Utf16Char::lemma_spec_from_char(c);
        }
        Utf16Iterator::from(Utf16Char::from(c))
    }
}

impl vstd::std_specs::convert::FromSpecImpl<char> for Utf16Iterator {
    open spec fn obeys_from_spec() -> bool {
        true
    }

    open spec fn from_spec(c: char) -> Utf16Iterator {
        Utf16Iterator::spec_fresh(Utf16Char::spec_from_char(c))
    }
}

/// The UTF-16 units of a sequence of stored codepoints, flattened.
pub open spec fn spec_utf16_units_of(chars: Seq<Utf16Char>) -> Seq<u16>
    decreases chars.len(),
{
    if chars.len() == 0 {
        Seq::<u16>::empty()
    } else {
        spec_encode_utf16(chars[0]@ as u32) + spec_utf16_units_of(chars.drop_first())
    }
}

// One unfolding of the flattened unit sequence.
proof fn lemma_flatten_utf16_step(chars: Seq<Utf16Char>)
    requires
        chars.len() > 0,
    ensures
        spec_utf16_units_of(chars) == spec_encode_utf16(chars[0]@ as u32) + spec_utf16_units_of(
            chars.drop_first(),
        ),
        spec_utf16_units_of(chars).len() >= spec_encode_utf16(chars[0]@ as u32).len(),
{
}

/// An iterator over the units of a sequence of stored codepoints,
/// flattened: what iterating each codepoint's units in turn would give,
/// without re-validating anything.
///
/// The units not yet yielded are its view.
#[derive(Clone, Copy, Debug)]
pub struct Utf16CharSplitter<'a> {
    chars: &'a [Utf16Char],
    idx: usize,
    inner: usize,
}

impl<'a> View for Utf16CharSplitter<'a> {
    type V = Seq<u16>;

    /// The units not yet yielded.
    closed spec fn view(&self) -> Seq<u16> {
        spec_utf16_units_of(self.chars@.skip(self.idx as int)).skip(self.inner as int)
    }
}

impl<'a> Utf16CharSplitter<'a> {
    #[verifier::type_invariant]
    spec fn wf(self) -> bool {
        &&& self.idx <= self.chars@.len()
        &&& self.idx < self.chars@.len() ==> self.inner < self.chars@[self.idx as int].spec_len()
        &&& self.idx >= self.chars@.len() ==> self.inner == 0
    }

    /// The iterator that `from` returns, positioned at the first unit.
    pub closed spec fn spec_fresh(chars: &'a [Utf16Char]) -> Utf16CharSplitter<'a> {
        Utf16CharSplitter { chars, idx: 0, inner: 0 }
    }

    /// A fresh splitter yields the flattened units of all the codepoints.
    pub proof fn lemma_fresh(chars: &'a [Utf16Char])
        ensures
            Utf16CharSplitter::spec_fresh(chars)@ == spec_utf16_units_of(chars@),
    {
        assert(chars@.skip(0) =~= chars@);
        assert(Utf16CharSplitter::spec_fresh(chars)@ =~= spec_utf16_units_of(chars@));
    }

    /// Yield the next unit, or `None` once every codepoint's units are
    /// spent.
    pub fn next(&mut self) -> (r: Option<u16>)
        ensures
            old(self)@.len() == 0 ==> r is None && final(self)@ == old(self)@,
            old(self)@.len() > 0 ==> r == Some(old(self)@[0]) && final(self)@ == old(
                self,
            )@.drop_first(),
    {
        proof {
            use_type_invariant(&*self);
        }
        if self.idx >= self.chars.len() {
            None
        } else {
            let uc = self.chars[self.idx];
            proof {
                use_type_invariant(&uc);
                uc.lemma_stored_form();
                lemma_flatten_utf16_step(self.chars@.skip(self.idx as int));
            }
            let (first, second) = uc.to_tuple();
            let len = uc.len();
            let u: u16 = if self.inner == 0 {
                first
            } else {
                match second {
                    Some(s) => s,
                    None => first,
                }
            };
            if self.inner + 1 < len {
                self.inner = self.inner + 1;
            } else {
                proof {
                    assert(self.chars@.skip(self.idx as int + 1) =~= self.chars@.skip(
                        self.idx as int,
                    ).drop_first());
                }
                let ni = self.idx + 1;
                if ni < self.chars.len() {
                    let ucn = self.chars[ni];
                    proof {
                        use_type_invariant(&ucn);
                        ucn.lemma_stored_form();
                    }
                }
                self.inner = 0;
                self.idx = ni;
            }
            proof {
                assert(final(self)@ =~= old(self)@.drop_first());
            }
            Some(u)
        }
    }
}

impl<'a> From<&'a [Utf16Char]> for Utf16CharSplitter<'a> {
    /// Iterate over the flattened unit values.
    fn from(chars: &'a [Utf16Char]) -> (r: Self) {
        if chars.len() > 0 {
            let uc0 = chars[0];
            proof {
                use_type_invariant(&uc0);
                uc0.lemma_stored_form();
            }
        }
        Utf16CharSplitter { chars, idx: 0, inner: 0 }
    }
}

impl<'a> vstd::std_specs::convert::FromSpecImpl<&'a [Utf16Char]> for Utf16CharSplitter<'a> {
    open spec fn obeys_from_spec() -> bool {
        true
    }

    open spec fn from_spec(chars: &'a [Utf16Char]) -> Utf16CharSplitter<'a> {
        Utf16CharSplitter::spec_fresh(chars)
    }
}

/// An iterator over the codepoints in a `&str`, as `Utf16Char`s:
/// equivalent to `.chars()`, but yielding stored UTF-16 encodings.
///
/// The characters not yet yielded are its view.
#[derive(Clone, Copy, Debug)]
pub struct Utf16Chars<'a> {
    s: &'a str,
    pos: usize,
}

impl<'a> View for Utf16Chars<'a> {
    type V = Seq<char>;

    /// The characters not yet yielded.
    closed spec fn view(&self) -> Seq<char> {
        decode_utf8(self.s.spec_bytes().skip(self.pos as int))
    }
}

impl<'a> Utf16Chars<'a> {
    #[verifier::type_invariant]
    spec fn wf(self) -> bool {
        &&& self.pos <= self.s.spec_bytes().len()
        &&& valid_utf8(self.s.spec_bytes().skip(self.pos as int))
    }

    /// The iterator that `from` returns, positioned at the first
    /// character.
    pub closed spec fn spec_fresh(s: &'a str) -> Utf16Chars<'a> {
        Utf16Chars { s, pos: 0 }
    }

    /// A fresh iterator yields exactly the string's characters.
    pub proof fn lemma_fresh(s: &'a str)
        ensures
            Utf16Chars::spec_fresh(s)@ == s@,
    {
        vstd::utf8::encode_utf8_decode_utf8(s@);
        assert(s.spec_bytes().skip(0) =~= s.spec_bytes());
    }

    /// Yield the next codepoint, or `None` at the end of the string.
    pub fn next(&mut self) -> (r: Option<Utf16Char>)
        ensures
            old(self)@.len() == 0 ==> r is None && final(self)@ == old(self)@,
            old(self)@.len() > 0 ==> (r matches Some(u) && u@ == old(self)@[0] && final(self)@
                == old(self)@.drop_first()),
    {
        proof {
            use_type_invariant(&*self);
        }
        let b = self.s.as_bytes();
        let ghost rem = self.s.spec_bytes().skip(self.pos as int);
        if self.pos >= b.len() {
            proof {
                assert(rem.len() == 0);
            }
            None
        } else {
            let sub = vstd::slice::slice_subrange(b, self.pos, b.len());
            proof {
                assert(sub@ =~= rem);
                lemma_decode_step(rem);
            }
            match Utf8Char::from_slice_start(sub) {
                Ok((u, n)) => {
                    proof {
                        assert(self.s.spec_bytes().skip(self.pos + n as int) =~= pop_first_scalar(
                            rem,
                        ));
                        vstd::utf8::char_u32_cast(u@, decode_first_scalar(rem));
                        Utf16Char::lemma_spec_from_char(u@);
                    }
                    self.pos = self.pos + n;
                    Some(Utf16Char::from(u))
                },
                Err(_) => {
                    proof {
                        assert(false);
                    }
                    None
                },
            }
        }
    }
}

impl<'a> From<&'a str> for Utf16Chars<'a> {
    /// Iterate over the string's codepoints.
    fn from(s: &'a str) -> (r: Self) {
        proof {
            vstd::utf8::encode_utf8_valid_utf8(s@);
            assert(s.spec_bytes().skip(0) =~= s.spec_bytes());
        }
        Utf16Chars { s, pos: 0 }
    }
}

impl<'a> vstd::std_specs::convert::FromSpecImpl<&'a str> for Utf16Chars<'a> {
    open spec fn obeys_from_spec() -> bool {
        true
    }

    open spec fn from_spec(s: &'a str) -> Utf16Chars<'a> {
        Utf16Chars::spec_fresh(s)
    }
}

/// An iterator over the codepoints in a `&str` and their byte offsets,
/// as `(usize, Utf16Char)` pairs: the offsets index the UTF-8 bytes of
/// the string, as in `.char_indices()`.
///
/// The characters not yet yielded are its view.
#[derive(Clone, Copy, Debug)]
pub struct Utf16CharIndices<'a> {
    s: &'a str,
    pos: usize,
}

impl<'a> View for Utf16CharIndices<'a> {
    type V = Seq<char>;

    /// The characters not yet yielded.
    closed spec fn view(&self) -> Seq<char> {
        decode_utf8(self.s.spec_bytes().skip(self.pos as int))
    }
}

impl<'a> Utf16CharIndices<'a> {
    #[verifier::type_invariant]
    spec fn wf(self) -> bool {
        &&& self.pos <= self.s.spec_bytes().len()
        &&& valid_utf8(self.s.spec_bytes().skip(self.pos as int))
    }

    /// The byte offset of the next codepoint within the string.
    pub closed spec fn spec_offset(self) -> int {
        self.pos as int
    }

    /// The iterator that `from` returns, positioned at the first
    /// character.
    pub closed spec fn spec_fresh(s: &'a str) -> Utf16CharIndices<'a> {
        Utf16CharIndices { s, pos: 0 }
    }

    /// A fresh iterator yields exactly the string's characters, starting
    /// at offset zero.
    pub proof fn lemma_fresh(s: &'a str)
        ensures
            Utf16CharIndices::spec_fresh(s)@ == s@,
            Utf16CharIndices::spec_fresh(s).spec_offset() == 0,
    {
        vstd::utf8::encode_utf8_decode_utf8(s@);
        assert(s.spec_bytes().skip(0) =~= s.spec_bytes());
    }

    /// Yield the next codepoint and the byte offset it starts at,
    /// or `None` at the end of the string.
    pub fn next(&mut self) -> (r: Option<(usize, Utf16Char)>)
        ensures
            old(self)@.len() == 0 ==> r is None && final(self)@ == old(self)@
                && final(self).spec_offset() == old(self).spec_offset(),
            old(self)@.len() > 0 ==> (r matches Some((i, u)) && u@ == old(self)@[0] && i == old(
                self,
            ).spec_offset() && final(self)@ == old(self)@.drop_first() && final(self).spec_offset()
                == i + encode_scalar(u@ as u32).len()),
    {
        proof {
            use_type_invariant(&*self);
        }
        let b = self.s.as_bytes();
        let ghost rem = self.s.spec_bytes().skip(self.pos as int);
        if self.pos >= b.len() {
            proof {
                assert(rem.len() == 0);
            }
            None
        } else {
            let sub = vstd::slice::slice_subrange(b, self.pos, b.len());
            proof {
                assert(sub@ =~= rem);
                lemma_decode_step(rem);
            }
            match Utf8Char::from_slice_start(sub) {
                Ok((u, n)) => {
                    let i = self.pos;
                    proof {
                        assert(self.s.spec_bytes().skip(self.pos + n as int) =~= pop_first_scalar(
                            rem,
                        ));
                        vstd::utf8::char_u32_cast(u@, decode_first_scalar(rem));
                        vstd::utf8::decode_utf8_first_scalar(rem);
                        assert(vstd::utf8::take_first_scalar(rem).len()
                            == vstd::utf8::length_of_first_scalar(rem));
                        Utf16Char::lemma_spec_from_char(u@);
                    }
                    self.pos = self.pos + n;
                    Some((i, Utf16Char::from(u)))
                },
                Err(_) => {
                    proof {
                        assert(false);
                    }
                    None
                },
            }
        }
    }
}

impl<'a> From<&'a str> for Utf16CharIndices<'a> {
    /// Iterate over the string's codepoints and their byte offsets.
    fn from(s: &'a str) -> (r: Self) {
        proof {
            vstd::utf8::encode_utf8_valid_utf8(s@);
            assert(s.spec_bytes().skip(0) =~= s.spec_bytes());
        }
        Utf16CharIndices { s, pos: 0 }
    }
}

impl<'a> vstd::std_specs::convert::FromSpecImpl<&'a str> for Utf16CharIndices<'a> {
    open spec fn obeys_from_spec() -> bool {
        true
    }

    open spec fn from_spec(s: &'a str) -> Utf16CharIndices<'a> {
        Utf16CharIndices::spec_fresh(s)
    }
}

} // verus!
