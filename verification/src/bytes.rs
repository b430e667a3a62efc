//! Byte-order helpers: explicit big-endian readers and writers for the
//! 16-bit wire fields, and the little-endian projection that the checksum
//! consumes. All multi-byte wire fields are big-endian ("network order");
//! the checksum alone is defined over little-endian bytes.

use vstd::prelude::*;

verus! {

/// The two bytes of `v` in big-endian order: high byte first.
pub open spec fn spec_be_bytes_u16(v: u16) -> Seq<u8> {
    seq![(v / 256) as u8, (v % 256) as u8]
}

/// The two bytes of `v` in little-endian order: low byte first.
pub open spec fn spec_le_bytes_u16(v: u16) -> Seq<u8> {
    seq![(v % 256) as u8, (v / 256) as u8]
}

/// The 16-bit value read from a high byte and a low byte.
pub open spec fn spec_u16_from_be(hi: u8, lo: u8) -> u16 {
    (hi * 256 + lo) as u16
}

/// Reading back the two big-endian bytes of a value gives the value.
pub proof fn lemma_be_bytes_roundtrip(v: u16)
    ensures
        spec_u16_from_be(spec_be_bytes_u16(v)[0], spec_be_bytes_u16(v)[1]) == v,
{
    assert(v / 256 * 256 + v % 256 == v) by (nonlinear_arith);
}

/// The value assembled from a high and a low byte splits back into them.
pub proof fn lemma_u16_from_be_parts(hi: u8, lo: u8)
    ensures
        spec_u16_from_be(hi, lo) / 256 == hi,
        spec_u16_from_be(hi, lo) % 256 == lo,
{
    vstd::arithmetic::div_mod::lemma_fundamental_div_mod_converse(
        hi * 256 + lo,
        256,
        hi as int,
        lo as int,
    );
}

/// The little-endian bytes of a value assembled from a high and a low byte
/// are those two bytes, swapped.
pub proof fn lemma_le_of_be(hi: u8, lo: u8)
    ensures
        spec_le_bytes_u16(spec_u16_from_be(hi, lo)) == seq![lo, hi],
{
    lemma_u16_from_be_parts(hi, lo);
    assert(spec_le_bytes_u16(spec_u16_from_be(hi, lo)) =~= seq![lo, hi]);
}

/// Two values assembled from bytes are equal only if both bytes agree.
pub proof fn lemma_u16_from_be_injective(hi1: u8, lo1: u8, hi2: u8, lo2: u8)
    requires
        hi1 != hi2 || lo1 != lo2,
    ensures
        spec_u16_from_be(hi1, lo1) != spec_u16_from_be(hi2, lo2),
{
    lemma_u16_from_be_parts(hi1, lo1);
    lemma_u16_from_be_parts(hi2, lo2);
}

/// Reads the big-endian 16-bit field at `offset`.
pub fn read_be_u16(bytes: &[u8], offset: usize) -> (r: u16)
    requires
        offset + 2 <= bytes@.len(),
    ensures
        r == spec_u16_from_be(bytes@[offset as int], bytes@[offset as int + 1]),
{
    let hi = bytes[offset];
    let lo = bytes[offset + 1];
    hi as u16 * 256 + lo as u16
}

/// Writes `v` as a big-endian 16-bit field at `offset`, leaving every other
/// byte of the buffer unchanged.
pub fn write_be_u16(buf: &mut [u8], offset: usize, v: u16)
    requires
        offset + 2 <= old(buf)@.len(),
    ensures
        final(buf)@.len() == old(buf)@.len(),
        final(buf)@.subrange(offset as int, offset as int + 2) == spec_be_bytes_u16(v),
        forall|i: int|
            0 <= i < old(buf)@.len() && i != offset && i != offset + 1 ==> final(buf)@[i]
                == old(buf)@[i],
{
    buf[offset] = (v / 256) as u8;
    buf[offset + 1] = (v % 256) as u8;
    proof {
        assert(buf@.subrange(offset as int, offset as int + 2) =~= spec_be_bytes_u16(v));
    }
}

} // verus!
