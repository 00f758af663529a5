//! Parsers of the small structures that recur in every record: byte runs,
//! length-prefixed strings, byte counts that frame an object, and numbers
//! stored with a shortened mantissa.

use vstd::prelude::*;
use vstd::slice::{slice_subrange, slice_to_vec};
use crate::codec::{Decoder, FloatBits};
use crate::error::{agrees, Error};
use crate::number::{be_u16, be_u32, be_u32_at, be_u8, fits, u16_of, u32_of};

verus! {

/// The `n` bytes of `b` at `at`.
pub open spec fn bytes_at(b: Seq<u8>, at: int, n: int) -> Option<(Seq<u8>, int)> {
    if n >= 0 && fits(b, at, n) {
        Some((b.subrange(at, at + n), at + n))
    } else {
        None
    }
}

/// A string: one length byte and that many bytes; or, where the length byte
/// is 255, a four-byte length and that many bytes.
pub open spec fn string_at(b: Seq<u8>, at: int) -> Option<(Seq<u8>, int)> {
    if !fits(b, at, 1) {
        None
    } else if b[at] < 255 {
        bytes_at(b, at + 1, b[at] as int)
    } else if !fits(b, at + 1, 4) {
        None
    } else {
        bytes_at(b, at + 5, u32_of(b, at + 1))
    }
}

/// The bit that marks a 32-bit word as a byte count.
pub const BYTE_COUNT_MASK: u32 = 0x4000_0000;

/// A byte count: a 32-bit word with the marker bit set and the top bit clear,
/// which without the marker is not zero.
pub open spec fn byte_count_at(b: Seq<u8>, at: int) -> Option<(u32, int)> {
    match be_u32_at(b, at) {
        Some((word, next)) => if BYTE_COUNT_MASK < word < 0x8000_0000 {
            Some(((word - BYTE_COUNT_MASK) as u32, next))
        } else {
            None
        },
        None => None,
    }
}

/// The span of the bytes that a byte count at `at` frames: it begins behind
/// the count and is as long as the count says.
pub open spec fn frame_at(b: Seq<u8>, at: int) -> Option<(int, int)> {
    match byte_count_at(b, at) {
        Some((n, start)) => if fits(b, start, n as int) {
            Some((start, start + n))
        } else {
            None
        },
        None => None,
    }
}

/// The bit pattern of the number that a stored exponent byte and mantissa
/// word stand for, the mantissa being `nbits` wide: the exponent fills the
/// exponent field, the low `nbits + 1` bits of the word are laid against the
/// top of the fraction, and the bit above them is the sign.
pub open spec fn mantissa_bits(exp: u8, man: u16, nbits: u32) -> u32 {
    let kept = (man as u32) & !(0xffff_ffffu32 << (nbits + 1) as u32);
    let magnitude = ((exp as u32) << 23u32) | (kept << (23 - nbits) as u32);
    if (man as u32) & (1u32 << (nbits + 1) as u32) != 0 {
        magnitude | 0x8000_0000u32
    } else {
        magnitude
    }
}

/// Law of the shortened mantissa: reading undoes writing. A number whose
/// fraction has no more than `nbits` significant bits is written as its
/// exponent field and a word that holds those bits, with the sign in the bit
/// above them and a zero between; read back, it is the same number.
pub proof fn law_mantissa_inverse(negative: bool, exp: u8, top: u16, nbits: u32)
    by (bit_vector)
    requires
        nbits <= 14,
        (top as u32) >> nbits == 0,
    ensures
        mantissa_bits(
            exp,
            if negative {
                top | (1u16 << ((nbits + 1) as u16))
            } else {
                top
            },
            nbits,
        ) == (if negative {
            0x8000_0000u32
        } else {
            0u32
        }) | ((exp as u32) << 23u32) | ((top as u32) << ((23 - nbits) as u32)),
{
}

/// A number stored as one exponent byte and a two-byte mantissa word.
pub open spec fn custom_mantissa_at(b: Seq<u8>, at: int, nbits: u32) -> Option<(FloatBits, int)> {
    if fits(b, at, 3) {
        Some((FloatBits { bits: mantissa_bits(b[at], u16_of(b, at + 1) as u16, nbits) }, at + 3))
    } else {
        None
    }
}

/// Whether two byte strings hold the same bytes.
pub fn bytes_eq(a: &[u8], b: &[u8]) -> (r: bool)
    ensures
        r == (a@ == b@),
{
    if a.len() != b.len() {
        return false;
    }
    let mut i: usize = 0;
    while i < a.len()
        invariant
            i <= a@.len(),
            a@.len() == b@.len(),
            forall|j: int| 0 <= j < i ==> a@[j] == b@[j],
        decreases a@.len() - i,
    {
        if a[i] != b[i] {
            return false;
        }
        i = i + 1;
    }
    proof {
        assert(a@ =~= b@);
    }
    true
}

/// Reads `n` bytes at `at`.
pub fn take(input: &[u8], at: usize, n: usize) -> (r: Result<(Vec<u8>, usize), Error>)
    ensures
        agrees(r, bytes_at(input@, at as int, n as int)),
{
    if at <= input.len() && n <= input.len() - at {
        let part = slice_subrange(input, at, at + n);
        Ok((slice_to_vec(part), at + n))
    } else {
        Err(Error::Format)
    }
}

/// Reads a length-prefixed string at `at`.
pub fn string(input: &[u8], at: usize) -> (r: Result<(Vec<u8>, usize), Error>)
    ensures
        agrees(r, string_at(input@, at as int)),
{
    match be_u8(input, at) {
        Ok((short, next)) => {
            if short < 255 {
                take(input, next, short as usize)
            } else {
                match be_u32(input, next) {
                    Ok((long, start)) => take(input, start, long as usize),
                    Err(e) => Err(e),
                }
            }
        },
        Err(e) => Err(e),
    }
}

/// Reads a byte count at `at` and returns it without its marker bit.
///
/// Fails with a format error on a word that is not a byte count, and on a
/// count of zero.
pub fn checked_byte_count(input: &[u8], at: usize) -> (r: Result<(u32, usize), Error>)
    ensures
        agrees(r, byte_count_at(input@, at as int)),
{
    match be_u32(input, at) {
        Ok((word, next)) => {
            if BYTE_COUNT_MASK < word && word < 0x8000_0000 {
                Ok((word - BYTE_COUNT_MASK, next))
            } else {
                Err(Error::Format)
            }
        },
        Err(e) => Err(e),
    }
}

/// Reads a byte count at `at` and returns the span of the bytes it frames, so
/// that a parser of the framed object can be held to exactly those bytes.
///
/// Fails with a format error where there is no byte count or the input is
/// shorter than the count says.
pub fn frame(input: &[u8], at: usize) -> (r: Result<(usize, usize), Error>)
    ensures
        match r {
            Ok((start, end)) => frame_at(input@, at as int) == Some((start as int, end as int))
                && start <= end <= input@.len(),
            Err(e) => e == Error::Format && frame_at(input@, at as int) is None,
        },
{
    match checked_byte_count(input, at) {
        Ok((n, start)) => {
            if n as usize <= input.len() - start {
                Ok((start, start + n as usize))
            } else {
                Err(Error::Format)
            }
        },
        Err(e) => Err(e),
    }
}

/// Reads at `at` a number stored as an exponent byte and a mantissa word of
/// which `nbits` bits are significant.
///
/// The width is not stored with the number: it must be the one the writer
/// used. A width above 23 has no meaning in a 23-bit fraction.
pub fn parse_custom_mantissa(input: &[u8], at: usize, nbits: u32) -> (r: Result<
    (FloatBits, usize),
    Error,
>)
    requires
        nbits <= 23,
    ensures
        match r {
            Ok((v, next)) => custom_mantissa_at(input@, at as int, nbits) == Some((v, next as int)),
            Err(e) => e == Error::Format && custom_mantissa_at(input@, at as int, nbits) is None,
        },
{
    match be_u8(input, at) {
        Ok((exp, p)) => match be_u16(input, p) {
            Ok((man, next)) => {
                let word: u32 = man as u32;
                let kept: u32 = word & !(0xffff_ffffu32 << (nbits + 1));
                let magnitude: u32 = ((exp as u32) << 23u32) | (kept << (23 - nbits));
                let bits: u32 = if word & (1u32 << (nbits + 1)) != 0 {
                    magnitude | 0x8000_0000u32
                } else {
                    magnitude
                };
                Ok((FloatBits { bits }, next))
            },
            Err(e) => Err(e),
        },
        Err(e) => Err(e),
    }
}

/// Decoder of numbers stored with a shortened mantissa.
pub struct CustomMantissa {
    nbits: u32,
}

impl CustomMantissa {
    #[verifier::type_invariant]
    spec fn wf(self) -> bool {
        self.nbits <= 23
    }

    /// The width of the stored mantissa.
    pub closed spec fn width(self) -> u32 {
        self.nbits
    }

    /// The decoder for mantissas of `nbits` bits.
    pub closed spec fn of_width(nbits: u32) -> CustomMantissa {
        CustomMantissa { nbits }
    }

    /// A decoder for mantissas of `nbits` bits; none where `nbits` is above 23.
    pub fn new(nbits: u32) -> (r: Option<CustomMantissa>)
        ensures
            match r {
                Some(d) => nbits <= 23 && d == Self::of_width(nbits) && d.width() == nbits,
                None => nbits > 23,
            },
    {
        if nbits <= 23 {
            Some(CustomMantissa { nbits })
        } else {
            None
        }
    }
}

impl Decoder for CustomMantissa {
    type Item = FloatBits;

    open spec fn parsed(&self, bytes: Seq<u8>, at: int) -> Option<(FloatBits, int)> {
        custom_mantissa_at(bytes, at, self.width())
    }

    proof fn parsed_advances(&self, bytes: Seq<u8>, at: int) {
    }

    fn parse(&self, input: &[u8], at: usize) -> (r: Result<(FloatBits, usize), Error>) {
        proof {
            use_type_invariant(self);
        }
        parse_custom_mantissa(input, at, self.nbits)
    }
}

} // verus!
