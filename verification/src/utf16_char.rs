//! A codepoint stored as UTF-16: validating constructors, read-only views
//! of the encoded units, and conversions back to `char`.

use vstd::prelude::*;
use vstd::utf8::is_scalar;
use crate::errors::{InvalidUtf16Slice, InvalidUtf16Tuple, NonBmpError};
use crate::utf16_model::{
    bv_combine_ten_bits, bv_split_ten_bits, lemma_combine_then_split, lemma_surrogate_split,
    spec_combine_surrogates, spec_encode_utf16, spec_from_utf16_slice_start, spec_from_utf16_tuple,
    spec_is_leading_surrogate, spec_is_trailing_surrogate, spec_to_utf16_array,
    spec_to_utf16_tuple,
};
use crate::utf8_char::Utf8Char;

verus! {

/// A Unicode codepoint stored as UTF-16.
///
/// It stores one unit and a zero, or a surrogate pair, in a fixed 2-unit
/// buffer with the same size as `char`. Zero is never a valid trailing
/// surrogate, so a zero second unit unambiguously means "single unit".
#[derive(Clone, Copy, Debug, Hash, Eq)]
pub struct Utf16Char {
    units: [u16; 2],
}

impl View for Utf16Char {
    type V = char;

    /// The codepoint this value encodes.
    closed spec fn view(&self) -> char {
        if self.units@[1] == 0 {
            self.units@[0] as char
        } else {
            spec_combine_surrogates(self.units@[0], self.units@[1]) as char
        }
    }
}

impl Utf16Char {
    /// The whole 2-unit buffer: the encoding of the codepoint, with a
    /// zero in the second slot when one unit suffices.
    pub closed spec fn spec_units(self) -> Seq<u16> {
        self.units@
    }

    /// How many units the encoding uses: 1 or 2.
    pub open spec fn spec_len(self) -> int {
        if (self@ as u32) <= 0xffff {
            1
        } else {
            2
        }
    }

    /// The type invariant: every value of this type satisfies it.
    /// Obtain it for a concrete value with `use_type_invariant`.
    #[verifier::type_invariant]
    pub closed spec fn well_formed(self) -> bool {
        ||| (!spec_is_leading_surrogate(self.units@[0]) && !spec_is_trailing_surrogate(
            self.units@[0],
        ) && self.units@[1] == 0)
        ||| (spec_is_leading_surrogate(self.units@[0]) && spec_is_trailing_surrogate(
            self.units@[1],
        ))
}

    /// The length invariant: the buffer holds exactly the canonical
    /// encoding of the stored codepoint, and the second unit is nonzero
    /// exactly when a surrogate pair is needed.
    pub proof fn lemma_stored_form(self)
        requires
            self.well_formed(),
        ensures
            is_scalar(self@ as u32),
            self.spec_units().len() == 2,
            self.spec_units() == spec_to_utf16_array(self@ as u32)@,
            (self.spec_units()[1] == 0) <==> ((self@ as u32) <= 0xffff),
            (self.spec_units()[1] == 0) <==> (self.spec_len() == 1),
            1 <= self.spec_len() <= 2,
            self.spec_units().subrange(0, self.spec_len()) == spec_encode_utf16(self@ as u32),
            spec_from_utf16_tuple(
                self.spec_units()[0],
                if self.spec_units()[1] == 0 {
                    None
                } else {
                    Some(self.spec_units()[1])
                },
            ) == Ok::<u32, InvalidUtf16Tuple>(self@ as u32),
    {
        let f = self.units@[0];
        let s = self.units@[1];
        if s == 0 {
            assert((f as u32) <= 0xffff);
            assert(self@ as u32 == f);
            assert(self.spec_units() =~= spec_to_utf16_array(self@ as u32)@);
            assert(self.spec_units().subrange(0, 1) =~= spec_encode_utf16(self@ as u32));
        } else {
            lemma_combine_then_split(f, s);
            let v = spec_combine_surrogates(f, s);
            assert(self@ as u32 == v);
            assert(self.spec_units() =~= spec_to_utf16_array(v)@);
            assert(self.spec_units().subrange(0, 2) =~= spec_encode_utf16(v));
        }
    }

    /// Validate and store the first UTF-16 codepoint in the slice.
    /// Also return how many units were needed.
    pub fn from_slice(src: &[u16]) -> (r: Result<(Self, usize), InvalidUtf16Slice>)
        ensures
            r matches Ok((u, n)) ==> spec_from_utf16_slice_start(src@) == Ok::<
                (u32, usize),
                InvalidUtf16Slice,
            >((u@ as u32, n)),
            r matches Err(e) ==> spec_from_utf16_slice_start(src@) == Err::<
                (u32, usize),
                InvalidUtf16Slice,
            >(e),
    {
        if src.len() == 0 {
            return Err(InvalidUtf16Slice::EmptySlice);
        }
        let f = src[0];
        if f >= 0xdc00 && f <= 0xdfff {
            Err(InvalidUtf16Slice::FirstLowSurrogate)
        } else if f < 0xd800 || f > 0xdbff {
            Ok((Utf16Char { units: [f, 0] }, 1))
        } else if src.len() < 2 {
            Err(InvalidUtf16Slice::MissingSecond)
        } else {
            let s = src[1];
            if s >= 0xdc00 && s <= 0xdfff {
                proof {
                    lemma_combine_then_split(f, s);
                }
                Ok((Utf16Char { units: [f, s] }, 2))
            } else {
                Err(InvalidUtf16Slice::SecondNotLowSurrogate)
            }
        }
    }

    /// Validate and store a UTF-16 pair as returned from
    /// `char.to_utf16_tuple()`.
    pub fn from_tuple(utf16: (u16, Option<u16>)) -> (r: Result<Self, InvalidUtf16Tuple>)
        ensures
            r matches Ok(u) ==> spec_from_utf16_tuple(utf16.0, utf16.1) == Ok::<
                u32,
                InvalidUtf16Tuple,
            >(u@ as u32),
            r matches Err(e) ==> spec_from_utf16_tuple(utf16.0, utf16.1) == Err::<
                u32,
                InvalidUtf16Tuple,
            >(e),
    {
        let (f, second) = utf16;
        if f >= 0xdc00 && f <= 0xdfff {
            Err(InvalidUtf16Tuple::FirstIsTrailingSurrogate)
        } else if f >= 0xd800 && f <= 0xdbff {
            match second {
                None => Err(InvalidUtf16Tuple::MissingSecond),
                Some(s) => {
                    if s >= 0xdc00 && s <= 0xdfff {
                        proof {
                            lemma_combine_then_split(f, s);
                        }
                        Ok(Utf16Char { units: [f, s] })
                    } else {
                        Err(InvalidUtf16Tuple::InvalidSecond)
                    }
                },
            }
        } else {
            match second {
                None => Ok(Utf16Char { units: [f, 0] }),
                Some(_) => Err(InvalidUtf16Tuple::SuperfluousSecond),
            }
        }
    }

    /// Create a `Utf16Char` from a single unit: the codepoints in the
    /// basic multilingual plane, which are stored as one unit. Fails for
    /// surrogates, which are not codepoints of their own.
    pub fn from_bmp(bmp: u16) -> (r: Result<Self, NonBmpError>)
        ensures
            (0xd800 <= bmp <= 0xdfff) ==> r == Err::<Self, NonBmpError>(NonBmpError),
            !(0xd800 <= bmp <= 0xdfff) ==> (r matches Ok(u) && u@ as u32 == bmp),
    {
        if bmp >= 0xd800 && bmp <= 0xdfff {
            Err(NonBmpError)
        } else {
            Ok(Utf16Char { units: [bmp, 0] })
        }
    }

    /// The number of units the codepoint needs: 1 or 2.
    /// There is no `.is_empty()` because it would always return false.
    pub fn len(self) -> (r: usize)
        ensures
            r == self.spec_len(),
    {
        proof {
            use_type_invariant(&self);
            self.lemma_stored_form();
        }
        if self.units[1] == 0 {
            1
        } else {
            2
        }
    }

    /// Checks that the codepoint is an ASCII character.
    pub fn is_ascii(&self) -> (r: bool)
        ensures
            r == ((self@ as u32) < 128),
    {
        proof {
            use_type_invariant(&*self);
            self.lemma_stored_form();
        }
        self.units[0] <= 127
    }

    /// Convert from UTF-16 to UTF-32.
    pub fn to_char(self) -> (r: char)
        ensures
            r == self@,
    {
        proof {
            use_type_invariant(&self);
            self.lemma_stored_form();
        }
        let f = self.units[0];
        let s = self.units[1];
        let v: u32 = if s == 0 {
            f as u32
        } else {
            proof {
                lemma_combine_then_split(f, s);
                bv_combine_ten_bits((f - 0xd800) as u32, (s - 0xdc00) as u32);
            }
            ((((f - 0xd800) as u32) << 10) | ((s - 0xdc00) as u32)) + 0x10000
        };
        let c = char::from_u32(v).unwrap();
        proof {
            vstd::utf8::char_u32_cast(c, v);
        }
        c
    }

    /// Write the encoding to the start of a unit slice, and return the
    /// number of units written, or `None`, leaving the slice unchanged,
    /// when it is shorter than the encoding.
    pub fn to_slice(self, dst: &mut [u16]) -> (r: Option<usize>)
        ensures
            final(dst)@.len() == old(dst)@.len(),
            self.spec_len() <= old(dst)@.len() ==> r == Some(self.spec_len() as usize)
                && final(dst)@.subrange(0, self.spec_len()) == spec_encode_utf16(self@ as u32) && (
            forall|i: int| self.spec_len() <= i < final(dst)@.len() ==> final(dst)@[i] == old(
                dst,
            )@[i]),
            self.spec_len() > old(dst)@.len() ==> r is None && final(dst)@ == old(dst)@,
    {
        proof {
            use_type_invariant(&self);
            self.lemma_stored_form();
        }
        let len = self.len();
        if len > dst.len() {
            None
        } else {
            if len == 2 {
                dst[1] = self.units[1];
                dst[0] = self.units[0];
            } else {
                dst[0] = self.units[0];
            }
            proof {
                assert(final(dst)@.subrange(0, self.spec_len()) =~= self.spec_units().subrange(
                    0,
                    self.spec_len(),
                ));
            }
            Some(len)
        }
    }

    /// The second unit is `Some` exactly for surrogate pairs.
    pub fn to_tuple(self) -> (r: (u16, Option<u16>))
        ensures
            r == spec_to_utf16_tuple(self@ as u32),
    {
        proof {
            use_type_invariant(&self);
            self.lemma_stored_form();
        }
        (
            self.units[0],
            if self.units[1] == 0 {
                None
            } else {
                Some(self.units[1])
            },
        )
    }

    /// Checks that two characters are an ASCII case-insensitive match.
    pub fn eq_ignore_ascii_case(&self, other: &Self) -> (r: bool)
        ensures
            r == (crate::spec_ascii_to_lower(self@ as u32) == crate::spec_ascii_to_lower(
                other@ as u32,
            )),
    {
        proof {
            use_type_invariant(&*self);
            use_type_invariant(&*other);
            self.lemma_stored_form();
            other.lemma_stored_form();
            vstd::utf8::char_u32_cast(self@, self@ as u32);
            vstd::utf8::char_u32_cast(other@, other@ as u32);
        }
        if self.is_ascii() {
            let a = self.units[0];
            let b = other.units[0];
            let af = if a >= 0x61 && a <= 0x7a {
                a - 0x20
            } else {
                a
            };
            let bf = if b >= 0x61 && b <= 0x7a {
                b - 0x20
            } else {
                b
            };
            af == bf
        } else {
            self == other
        }
    }

    /// Converts the character to its ASCII upper case equivalent.
    ///
    /// ASCII letters `a` to `z` are mapped to `A` to `Z`,
    /// but non-ASCII letters are unchanged.
    pub fn to_ascii_uppercase(&self) -> (r: Self)
        ensures
            r@ as u32 == crate::spec_ascii_to_upper(self@ as u32),
    {
        let mut uc = *self;
        uc.make_ascii_uppercase();
        uc
    }

    /// Converts the character to its ASCII lower case equivalent.
    ///
    /// ASCII letters `A` to `Z` are mapped to `a` to `z`,
    /// but non-ASCII letters are unchanged.
    pub fn to_ascii_lowercase(&self) -> (r: Self)
        ensures
            r@ as u32 == crate::spec_ascii_to_lower(self@ as u32),
    {
        let mut uc = *self;
        uc.make_ascii_lowercase();
        uc
    }

    /// Converts the character to its ASCII upper case equivalent in-place.
    pub fn make_ascii_uppercase(&mut self)
        ensures
            final(self)@ as u32 == crate::spec_ascii_to_upper(old(self)@ as u32),
    {
        proof {
            use_type_invariant(&*self);
            self.lemma_stored_form();
        }
        let u0 = self.units[0];
        if u0 >= 0x61 && u0 <= 0x7a {
            proof {
                assert(self.units@.update(0, (u0 - 0x20) as u16) =~= seq![
                    (u0 - 0x20) as u16,
                    0u16,
                ]);
            }
            self.units[0] = u0 - 0x20;
        }
    }

    /// Converts the character to its ASCII lower case equivalent in-place.
    pub fn make_ascii_lowercase(&mut self)
        ensures
            final(self)@ as u32 == crate::spec_ascii_to_lower(old(self)@ as u32),
    {
        proof {
            use_type_invariant(&*self);
            self.lemma_stored_form();
        }
        let u0 = self.units[0];
        if u0 >= 0x41 && u0 <= 0x5a {
            proof {
                assert(self.units@.update(0, (u0 + 0x20) as u16) =~= seq![
                    (u0 + 0x20) as u16,
                    0u16,
                ]);
            }
            self.units[0] = u0 + 0x20;
        }
    }

    /// The value that converting the given `char` produces: the canonical
    /// stored form of its encoding.
    pub closed spec fn spec_from_char(c: char) -> Utf16Char {
        Utf16Char { units: spec_to_utf16_array(c as u32) }
    }

    /// What conversion from `char` produces: a value storing that
    /// codepoint, in canonical form.
    pub proof fn lemma_spec_from_char(c: char)
        ensures
            Utf16Char::spec_from_char(c)@ == c,
            Utf16Char::spec_from_char(c).spec_units() == spec_to_utf16_array(c as u32)@,
    {
        vstd::utf8::char_is_scalar(c);
        let v = c as u32;
        assert((c as u32) as char == c);
        if v > 0xffff {
            lemma_surrogate_split(v);
            let (f, second) = spec_to_utf16_tuple(v);
            lemma_combine_then_split(f, second.unwrap());
        }
    }

    /// Equality and order on stored values follow the codepoint, not the
    /// raw unit pair: two values are equal exactly when they store the
    /// same codepoint.
    pub proof fn lemma_eq_agrees_with_scalar(a: Utf16Char, b: Utf16Char)
        requires
            a.well_formed(),
            b.well_formed(),
        ensures
            (a.spec_units() == b.spec_units()) <==> a@ == b@,
    {
        a.lemma_stored_form();
        b.lemma_stored_form();
        vstd::utf8::char_u32_cast(a@, a@ as u32);
        vstd::utf8::char_u32_cast(b@, b@ as u32);
        if a@ == b@ {
            assert(a.spec_units() =~= b.spec_units());
        }
    }
}

impl Default for Utf16Char {
    /// The codepoint zero, like `char::default()`.
    fn default() -> (r: Self)
        ensures
            r@ == '\0',
    {
        Utf16Char { units: [0, 0] }
    }
}

impl PartialEq for Utf16Char {
    /// Unitwise comparison of the buffers; agrees with comparing the
    /// codepoints because the stored form is canonical.
    fn eq(&self, other: &Self) -> (r: bool) {
        proof {
            use_type_invariant(&*self);
            use_type_invariant(&*other);
            Utf16Char::lemma_eq_agrees_with_scalar(*self, *other);
        }
        let r = self.units[0] == other.units[0] && self.units[1] == other.units[1];
        proof {
            if r {
                assert(self.spec_units() =~= other.spec_units());
            }
        }
        r
    }
}

impl vstd::std_specs::cmp::PartialEqSpecImpl for Utf16Char {
    open spec fn obeys_eq_spec() -> bool {
        true
    }

    open spec fn eq_spec(&self, other: &Self) -> bool {
        self@ == other@
    }
}

impl PartialOrd for Utf16Char {
    /// Compares the decoded codepoints, not the raw unit pairs: for
    /// supplementary-plane values the surrogate units would compare in
    /// the wrong order.
    fn partial_cmp(&self, other: &Self) -> (r: Option<core::cmp::Ordering>) {
        proof {
            vstd::utf8::char_u32_cast(self@, self@ as u32);
            vstd::utf8::char_u32_cast(other@, other@ as u32);
        }
        let va = self.to_char() as u32;
        let vb = other.to_char() as u32;
        if va < vb {
            Some(core::cmp::Ordering::Less)
        } else if va == vb {
            Some(core::cmp::Ordering::Equal)
        } else {
            Some(core::cmp::Ordering::Greater)
        }
    }
}

impl vstd::std_specs::cmp::PartialOrdSpecImpl for Utf16Char {
    open spec fn obeys_partial_cmp_spec() -> bool {
        true
    }

    open spec fn partial_cmp_spec(&self, other: &Self) -> Option<core::cmp::Ordering> {
        if (self@ as u32) < (other@ as u32) {
            Some(core::cmp::Ordering::Less)
        } else if self@ == other@ {
            Some(core::cmp::Ordering::Equal)
        } else {
            Some(core::cmp::Ordering::Greater)
        }
    }
}

impl From<char> for Utf16Char {
    /// Encode the codepoint as UTF-16.
    fn from(c: char) -> (r: Self) {
        let v = c as u32;
        proof {
            vstd::utf8::char_is_scalar(c);
            Utf16Char::lemma_spec_from_char(c);
        }
        if v <= 0xffff {
            let u = Utf16Char { units: [v as u16, 0] };
            proof {
                assert(u.units@ =~= spec_to_utf16_array(v)@);
                vstd::array::axiom_array_ext_equal(u.units, spec_to_utf16_array(v));
            }
            u
        } else {
            proof {
                lemma_surrogate_split(v);
                bv_split_ten_bits((v - 0x10000) as u32);
            }
            let rest = v - 0x10000;
            let f = 0xd800 + (rest >> 10) as u16;
            let s = 0xdc00 + (rest & 0x3ff) as u16;
            let u = Utf16Char { units: [f, s] };
            proof {
                assert(u.units@ =~= spec_to_utf16_array(v)@);
                vstd::array::axiom_array_ext_equal(u.units, spec_to_utf16_array(v));
            }
            u
        }
    }
}

impl vstd::std_specs::convert::FromSpecImpl<char> for Utf16Char {
    open spec fn obeys_from_spec() -> bool {
        true
    }

    open spec fn from_spec(c: char) -> Utf16Char {
        Utf16Char::spec_from_char(c)
    }
}

impl From<Utf16Char> for char {
    /// Decode the stored codepoint.
    fn from(uc: Utf16Char) -> (r: char) {
        uc.to_char()
    }
}

impl vstd::std_specs::convert::FromSpecImpl<Utf16Char> for char {
    open spec fn obeys_from_spec() -> bool {
        true
    }

    open spec fn from_spec(uc: Utf16Char) -> char {
        uc@
    }
}

impl From<Utf8Char> for Utf16Char {
    /// Re-encode a UTF-8 stored codepoint as UTF-16.
    fn from(uc: Utf8Char) -> (r: Self) {
        Utf16Char::from(uc.to_char())
    }
}

impl vstd::std_specs::convert::FromSpecImpl<Utf8Char> for Utf16Char {
    open spec fn obeys_from_spec() -> bool {
        true
    }

    open spec fn from_spec(uc: Utf8Char) -> Utf16Char {
        Utf16Char::spec_from_char(uc@)
    }
}

} // verus!
