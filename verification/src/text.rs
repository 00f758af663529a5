//! Building of texts for people, as bytes.

use vstd::prelude::*;
use vstd::slice::slice_to_vec;
use vstd::string::StringSliceAdditionalSpecFns;

verus! {

/// The digit `0`.
pub const ZERO: u8 = 0x30;

/// The minus sign.
pub const MINUS: u8 = 0x2d;

/// The decimal digits of `n`, most significant first, without leading zeros.
pub open spec fn decimal(n: nat) -> Seq<u8>
    decreases n,
{
    if n < 10 {
        seq![(ZERO + n) as u8]
    } else {
        decimal(n / 10).push((ZERO + n % 10) as u8)
    }
}

/// The decimal digits of `n`, behind a minus sign where `n` is negative.
pub open spec fn signed_decimal(n: int) -> Seq<u8> {
    if n < 0 {
        seq![MINUS] + decimal((-n) as nat)
    } else {
        decimal(n as nat)
    }
}

/// Appends the bytes of `text`.
pub fn put(out: &mut Vec<u8>, text: &str)
    ensures
        final(out)@ == old(out)@ + text.spec_bytes(),
{
    let mut piece = slice_to_vec(text.as_bytes());
    out.append(&mut piece);
}

/// Appends `bytes`.
pub fn put_bytes(out: &mut Vec<u8>, bytes: &[u8])
    ensures
        final(out)@ == old(out)@ + bytes@,
{
    let mut piece = slice_to_vec(bytes);
    out.append(&mut piece);
}

/// Appends the decimal digits of `n`.
pub fn put_decimal(out: &mut Vec<u8>, n: u64)
    ensures
        final(out)@ == old(out)@ + decimal(n as nat),
    decreases n,
{
    if n >= 10 {
        put_decimal(out, n / 10);
    }
    out.push(ZERO + (n % 10) as u8);
    proof {
        if n >= 10 {
            assert(out@ =~= old(out)@ + decimal((n / 10) as nat).push((ZERO + n % 10) as u8));
        } else {
            assert(out@ =~= old(out)@ + seq![(ZERO + n) as u8]);
        }
    }
}

/// Appends the decimal digits of `n`, behind a minus sign where `n` is
/// negative.
pub fn put_signed(out: &mut Vec<u8>, n: i64)
    ensures
        final(out)@ == old(out)@ + signed_decimal(n as int),
{
    if n < 0 {
        out.push(MINUS);
        let magnitude: u64 = if n == i64::MIN {
            0x8000_0000_0000_0000
        } else {
            (-n) as u64
        };
        put_decimal(out, magnitude);
        proof {
            assert(out@ =~= old(out)@ + (seq![MINUS] + decimal((-n) as nat)));
        }
    } else {
        put_decimal(out, n as u64);
    }
}

} // verus!
