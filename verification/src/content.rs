//! The number that the bytes of a register denote.

use crate::elem_type::Endianness;
use crate::elem_type::Sign;
use crate::number::fits_i64;
use vstd::prelude::*;

verus! {

/// 256 to the power `n`.
pub open spec fn pow256(n: nat) -> nat
    decreases n,
{
    if n == 0 {
        1
    } else {
        256 * pow256((n - 1) as nat)
    }
}

/// The unsigned number that bytes denote, most significant byte first.
pub open spec fn be_value(bytes: Seq<u8>) -> nat
    decreases bytes.len(),
{
    if bytes.len() == 0 {
        0
    } else {
        be_value(bytes.drop_last()) * 256 + bytes.last() as nat
    }
}

/// The unsigned number that bytes denote, least significant byte first.
pub open spec fn le_value(bytes: Seq<u8>) -> nat
    decreases bytes.len(),
{
    if bytes.len() == 0 {
        0
    } else {
        bytes[0] as nat + 256 * le_value(bytes.drop_first())
    }
}

/// The unsigned number that bytes denote in the given byte order.
pub open spec fn unsigned_value(bytes: Seq<u8>, endianness: Endianness) -> nat {
    match endianness {
        Endianness::BE => be_value(bytes),
        Endianness::LE => le_value(bytes),
    }
}

/// The number that bytes denote: the unsigned number, or for a signed
/// content the number in two's complement.
pub open spec fn content_value(bytes: Seq<u8>, sign: Sign, endianness: Endianness) -> int {
    let unsigned = unsigned_value(bytes, endianness);
    match sign {
        Sign::Unsigned => unsigned as int,
        Sign::Signed => if 2 * unsigned >= pow256(bytes.len()) {
            unsigned - pow256(bytes.len())
        } else {
            unsigned as int
        },
    }
}

/// The content of a register as an `i64`: the number that at most eight
/// bytes denote, if an `i64` can hold it.
pub open spec fn content_of(bytes: Seq<u8>, sign: Sign, endianness: Endianness) -> Option<i64> {
    if bytes.len() > 8 {
        None
    } else if fits_i64(content_value(bytes, sign, endianness)) {
        Some(content_value(bytes, sign, endianness) as i64)
    } else {
        None
    }
}

/// `n` bytes denote a number below 256 to the power `n`.
pub proof fn lemma_value_bound(bytes: Seq<u8>)
    ensures
        be_value(bytes) < pow256(bytes.len()),
        le_value(bytes) < pow256(bytes.len()),
    decreases bytes.len(),
{
    if bytes.len() > 0 {
        lemma_value_bound(bytes.drop_last());
        lemma_value_bound(bytes.drop_first());
    }
}

/// The unsigned number that at most eight bytes denote.
fn decode_unsigned(bytes: &[u8], endianness: Endianness) -> (value: u64)
    requires
        bytes@.len() <= 8,
    ensures
        value == unsigned_value(bytes@, endianness),
{
    let n = bytes.len();
    let mut value: u64 = 0;
    let mut i: usize = 0;
    while i < n
        invariant
            n == bytes@.len(),
            n <= 8,
            i <= n,
            endianness is BE ==> value == be_value(bytes@.take(i as int)),
            endianness is LE ==> value == le_value(bytes@.subrange(n - i, n as int)),
        decreases n - i,
    {
        proof {
            reveal_with_fuel(pow256, 9);
            lemma_value_bound(bytes@.take(i as int));
            lemma_value_bound(bytes@.subrange(n - i, n as int));
            assert(bytes@.take(i + 1).drop_last() =~= bytes@.take(i as int));
            assert(bytes@.subrange(n - i - 1, n as int).drop_first() =~= bytes@.subrange(
                n - i,
                n as int,
            ));
        }
        let byte = match endianness {
            Endianness::BE => bytes[i],
            Endianness::LE => bytes[n - 1 - i],
        };
        value = value * 256 + byte as u64;
        i = i + 1;
    }
    proof {
        assert(bytes@.take(n as int) =~= bytes@);
        assert(bytes@.subrange(0, n as int) =~= bytes@);
    }
    value
}

/// Reads the content of a register from the bytes that the device gave.
pub fn decode_content(bytes: &[u8], sign: Sign, endianness: Endianness) -> (value: Option<i64>)
    ensures
        value == content_of(bytes@, sign, endianness),
{
    let n = bytes.len();
    if n > 8 {
        return None;
    }
    let unsigned = decode_unsigned(bytes, endianness);
    let mut limit: u128 = 1;
    let mut i: usize = 0;
    while i < n
        invariant
            i <= n <= 8,
            limit == pow256(i as nat),
        decreases n - i,
    {
        proof {
            reveal_with_fuel(pow256, 9);
        }
        limit = limit * 256;
        i = i + 1;
    }
    proof {
        reveal_with_fuel(pow256, 9);
        lemma_value_bound(bytes@);
    }
    let wide: i128 = match sign {
        Sign::Unsigned => unsigned as i128,
        Sign::Signed => if 2 * (unsigned as u128) >= limit {
            unsigned as i128 - limit as i128
        } else {
            unsigned as i128
        },
    };
    if wide < -0x8000_0000_0000_0000i128 || wide > 0x7fff_ffff_ffff_ffffi128 {
        None
    } else {
        Some(wide as i64)
    }
}

} // verus!
