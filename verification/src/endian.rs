//! Byte-order primitives: whole-sequence reversal and fixed-width
//! little-endian encoding of 32-bit integers.

use vstd::prelude::*;

verus! {

/// Returns a fresh vector holding the bytes of `bytes` in reverse order.
pub fn to_big_endian(bytes: &[u8]) -> (r: Vec<u8>)
    ensures
        r@ == bytes@.reverse(),
{
    let n = bytes.len();
    let mut reversed: Vec<u8> = Vec::new();
    let mut i: usize = 0;
    while i < n
        invariant
            n == bytes@.len(),
            i <= n,
            reversed@.len() == i,
            forall|j: int| 0 <= j < i ==> reversed@[j] == bytes@[n - 1 - j],
        decreases n - i,
    {
        reversed.push(bytes[n - 1 - i]);
        i += 1;
    }
    assert(reversed@ =~= bytes@.reverse());
    reversed
}

/// Reversing a byte sequence twice gives back the original sequence.
pub proof fn lemma_to_big_endian_involution(b: Seq<u8>)
    ensures
        b.reverse().reverse() == b,
{
    assert(b.reverse().reverse() =~= b);
}

/// The four bytes of `n` in little-endian order: least-significant first.
pub open spec fn spec_u32_le(n: u32) -> Seq<u8> {
    seq![
        (n & 0xff) as u8,
        ((n >> 8) & 0xff) as u8,
        ((n >> 16) & 0xff) as u8,
        ((n >> 24) & 0xff) as u8,
    ]
}

/// The four bytes of `n` in big-endian order: most-significant first.
pub open spec fn spec_u32_be(n: u32) -> Seq<u8> {
    seq![
        ((n >> 24) & 0xff) as u8,
        ((n >> 16) & 0xff) as u8,
        ((n >> 8) & 0xff) as u8,
        (n & 0xff) as u8,
    ]
}

/// Encodes `num` as its four bytes in little-endian order.
pub fn swap_endian_u32(num: u32) -> (r: [u8; 4])
    ensures
        r@ == spec_u32_le(num),
{
    proof {
        assert((num & 0xff) < 256 && ((num >> 8) & 0xff) < 256 && ((num >> 16) & 0xff) < 256 && ((
        num >> 24) & 0xff) < 256) by (bit_vector);
    }
    let r = [
        (num & 0xff) as u8,
        ((num >> 8) & 0xff) as u8,
        ((num >> 16) & 0xff) as u8,
        ((num >> 24) & 0xff) as u8,
    ];
    assert(r@ =~= spec_u32_le(num));
    r
}

/// The little-endian encoding of an integer, reversed, is its big-endian
/// encoding.
pub proof fn lemma_le_reverse_is_be(n: u32)
    ensures
        spec_u32_le(n).reverse() == spec_u32_be(n),
{
    assert(spec_u32_le(n).reverse() =~= spec_u32_be(n));
}

/// The four little-endian bytes, weighted by their place values, reassemble
/// exactly the encoded integer.
pub proof fn lemma_u32_le_value(n: u32)
    ensures
        spec_u32_le(n)[0] + spec_u32_le(n)[1] * 0x100 + spec_u32_le(n)[2] * 0x10000 + spec_u32_le(
            n,
        )[3] * 0x1000000 == n,
{
    assert((n & 0xff) < 0x100 && ((n >> 8) & 0xff) < 0x100 && ((n >> 16) & 0xff) < 0x100 && ((n
        >> 24) & 0xff) < 0x100) by (bit_vector);
    assert(n == ((n & 0xff) as int + ((n >> 8) & 0xff) as int * 0x100 + ((n >> 16) & 0xff) as int
        * 0x10000 + ((n >> 24) & 0xff) as int * 0x1000000)) by (bit_vector);
}

} // verus!
