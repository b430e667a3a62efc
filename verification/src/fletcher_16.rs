//! The Fletcher-16 checksum engine: an incremental hasher over two running
//! sums modulo 255, plus a one-shot convenience function. The hasher can be
//! fed in any chunking; the result depends only on the concatenation of all
//! bytes fed so far.

use crate::bytes::spec_le_bytes_u16;
use vstd::prelude::*;

verus! {

/// One step of the Fletcher-16 recurrence: folds one byte into the running sums.
pub open spec fn fletcher_step(sums: (int, int), byte: u8) -> (int, int) {
    let s1 = (sums.0 + byte) % 255;
    (s1, (sums.1 + s1) % 255)
}

/// The running sums after feeding `bytes`, starting from `sums`.
pub open spec fn fletcher_sums_from(sums: (int, int), bytes: Seq<u8>) -> (int, int)
    decreases bytes.len(),
{
    if bytes.len() == 0 {
        sums
    } else {
        fletcher_step(fletcher_sums_from(sums, bytes.drop_last()), bytes.last())
    }
}

/// The running sums after feeding `bytes` from the initial state.
pub open spec fn fletcher_sums(bytes: Seq<u8>) -> (int, int) {
    fletcher_sums_from((0int, 0int), bytes)
}

/// The Fletcher-16 checksum of `bytes`: the second sum in the high byte,
/// the first sum in the low byte.
pub open spec fn spec_fletcher_16(bytes: Seq<u8>) -> u16 {
    (fletcher_sums(bytes).1 * 256 + fletcher_sums(bytes).0) as u16
}

/// Both running sums stay within `[0, 255)` from an in-range start.
pub proof fn lemma_fletcher_sums_from_in_range(sums: (int, int), bytes: Seq<u8>)
    requires
        0 <= sums.0 < 255,
        0 <= sums.1 < 255,
    ensures
        0 <= fletcher_sums_from(sums, bytes).0 < 255,
        0 <= fletcher_sums_from(sums, bytes).1 < 255,
    decreases bytes.len(),
{
    if bytes.len() > 0 {
        lemma_fletcher_sums_from_in_range(sums, bytes.drop_last());
    }
}

/// Both running sums of a whole-sequence pass stay within `[0, 255)`.
pub proof fn lemma_fletcher_sums_in_range(bytes: Seq<u8>)
    ensures
        0 <= fletcher_sums(bytes).0 < 255,
        0 <= fletcher_sums(bytes).1 < 255,
{
    lemma_fletcher_sums_from_in_range((0int, 0int), bytes);
}

/// Feeding `a` and then `b` reaches the same sums as feeding `a + b` at once.
pub proof fn lemma_fletcher_sums_from_append(sums: (int, int), a: Seq<u8>, b: Seq<u8>)
    ensures
        fletcher_sums_from(sums, a + b) == fletcher_sums_from(fletcher_sums_from(sums, a), b),
    decreases b.len(),
{
    if b.len() == 0 {
        assert(a + b =~= a);
    } else {
        lemma_fletcher_sums_from_append(sums, a, b.drop_last());
        assert((a + b).drop_last() =~= a + b.drop_last());
        assert((a + b).last() == b.last());
    }
}

/// The running sums after feeding each chunk of `chunks`, in order.
pub open spec fn fletcher_sums_of_chunks(sums: (int, int), chunks: Seq<Seq<u8>>) -> (int, int)
    decreases chunks.len(),
{
    if chunks.len() == 0 {
        sums
    } else {
        fletcher_sums_of_chunks(fletcher_sums_from(sums, chunks.first()), chunks.drop_first())
    }
}

/// Chunk feeding from any start equals one pass over the concatenation.
pub proof fn lemma_fletcher_chunks_from(sums: (int, int), chunks: Seq<Seq<u8>>)
    ensures
        fletcher_sums_of_chunks(sums, chunks) == fletcher_sums_from(sums, chunks.flatten()),
    decreases chunks.len(),
{
    if chunks.len() == 0 {
        assert(chunks.flatten() =~= Seq::<u8>::empty());
    } else {
        lemma_fletcher_sums_from_append(sums, chunks.first(), chunks.drop_first().flatten());
        lemma_fletcher_chunks_from(fletcher_sums_from(sums, chunks.first()), chunks.drop_first());
    }
}

/// Chunk invariance: however a byte sequence is partitioned into consecutive
/// chunks, feeding the chunks in order yields the same checksum as one pass
/// over the whole sequence.
pub proof fn lemma_fletcher_chunk_invariance(chunks: Seq<Seq<u8>>)
    ensures
        fletcher_sums_of_chunks((0int, 0int), chunks) == fletcher_sums(chunks.flatten()),
{
    lemma_fletcher_chunks_from((0int, 0int), chunks);
}

/// The plain sum of all bytes of a sequence.
pub open spec fn byte_sum(bytes: Seq<u8>) -> int
    decreases bytes.len(),
{
    if bytes.len() == 0 {
        0
    } else {
        byte_sum(bytes.drop_last()) + bytes.last()
    }
}

/// The first running sum is the plain byte sum modulo 255.
pub proof fn lemma_sum1_is_byte_sum_mod(bytes: Seq<u8>)
    ensures
        fletcher_sums(bytes).0 == byte_sum(bytes) % 255,
    decreases bytes.len(),
{
    if bytes.len() > 0 {
        lemma_sum1_is_byte_sum_mod(bytes.drop_last());
        vstd::arithmetic::div_mod::lemma_add_mod_noop_right(
            bytes.last() as int,
            byte_sum(bytes.drop_last()),
            255,
        );
    }
}

/// Replacing the byte at `i` changes the plain byte sum by the difference.
pub proof fn lemma_byte_sum_update(bytes: Seq<u8>, i: int, v: u8)
    requires
        0 <= i < bytes.len(),
    ensures
        byte_sum(bytes.update(i, v)) == byte_sum(bytes) - bytes[i] + v,
    decreases bytes.len(),
{
    let updated = bytes.update(i, v);
    if i == bytes.len() - 1 {
        assert(updated.drop_last() =~= bytes.drop_last());
    } else {
        assert(updated.drop_last() =~= bytes.drop_last().update(i, v));
        lemma_byte_sum_update(bytes.drop_last(), i, v);
        assert(updated.last() == bytes.last());
    }
}

/// Replacing one byte with a value whose difference is no multiple of 255
/// changes the checksum: the two low sums differ, so the two results differ
/// already in their low bytes.
pub proof fn lemma_fletcher_detects_byte_change(bytes: Seq<u8>, i: int, v: u8)
    requires
        0 <= i < bytes.len(),
        (v - bytes[i]) % 255 != 0,
    ensures
        spec_fletcher_16(bytes.update(i, v)) != spec_fletcher_16(bytes),
{
    let updated = bytes.update(i, v);
    lemma_sum1_is_byte_sum_mod(bytes);
    lemma_sum1_is_byte_sum_mod(updated);
    lemma_byte_sum_update(bytes, i, v);
    vstd::arithmetic::div_mod::lemma_mod_equivalence(byte_sum(updated), byte_sum(bytes), 255);
    assert(fletcher_sums(updated).0 != fletcher_sums(bytes).0);
    lemma_fletcher_sums_in_range(bytes);
    lemma_fletcher_sums_in_range(updated);
    vstd::arithmetic::div_mod::lemma_fundamental_div_mod_converse_mod(
        fletcher_sums(bytes).1 * 256 + fletcher_sums(bytes).0,
        256,
        fletcher_sums(bytes).1,
        fletcher_sums(bytes).0,
    );
    vstd::arithmetic::div_mod::lemma_fundamental_div_mod_converse_mod(
        fletcher_sums(updated).1 * 256 + fletcher_sums(updated).0,
        256,
        fletcher_sums(updated).1,
        fletcher_sums(updated).0,
    );
}

/// The byte `b` with bit `k` flipped.
pub open spec fn flip_bit(b: u8, k: u8) -> u8 {
    b ^ (1u8 << k)
}

/// Flipping a bit changes the byte.
pub proof fn lemma_flip_bit_changes(b: u8, k: u8)
    requires
        k < 8,
    ensures
        flip_bit(b, k) != b,
{
    assert((b ^ (1u8 << k)) != b) by (bit_vector)
        requires
            k < 8,
    ;
}

/// Flipping any single bit of any one byte changes the Fletcher-16 checksum:
/// single-bit corruption never goes unseen.
pub proof fn lemma_fletcher_detects_bit_flip(bytes: Seq<u8>, i: int, k: u8)
    requires
        0 <= i < bytes.len(),
        k < 8,
    ensures
        spec_fletcher_16(bytes.update(i, flip_bit(bytes[i], k))) != spec_fletcher_16(bytes),
{
    let b = bytes[i];
    let v = flip_bit(b, k);
    assert((b ^ (1u8 << k)) != b && ((b ^ (1u8 << k)) - b == (1u8 << k) || b - (b ^ (1u8 << k))
        == (1u8 << k)) && 0 < (1u8 << k) < 255) by (bit_vector)
        requires
            k < 8,
    ;
    let d = v - b;
    if d > 0 {
        vstd::arithmetic::div_mod::lemma_small_mod(d as nat, 255);
    } else {
        vstd::arithmetic::div_mod::lemma_fundamental_div_mod_converse_mod(d, 255, -1, d + 255);
    }
    lemma_fletcher_detects_byte_change(bytes, i, v);
}

/// The incremental Fletcher-16 hasher. The ghost field records every byte
/// fed so far; the running sums are always the Fletcher sums of those bytes.
pub struct Fletcher16Hasher {
    sum1: u16,
    sum2: u16,
    fed: Ghost<Seq<u8>>,
}

impl Fletcher16Hasher {
    /// The bytes this hasher has consumed so far.
    pub closed spec fn bytes_fed(self) -> Seq<u8> {
        self.fed@
    }

    /// The running sums agree with the Fletcher recurrence over the bytes fed.
    pub closed spec fn wf(self) -> bool {
        self.sum1 == fletcher_sums(self.fed@).0 && self.sum2 == fletcher_sums(self.fed@).1
    }

    /// A fresh hasher with both sums at zero.
    pub fn new() -> (r: Fletcher16Hasher)
        ensures
            r.wf(),
            r.bytes_fed() == Seq::<u8>::empty(),
    {
        Fletcher16Hasher { sum1: 0, sum2: 0, fed: Ghost(Seq::empty()) }
    }

    /// Folds one byte into the running sums.
    pub fn write_u8(&mut self, data: u8)
        requires
            old(self).wf(),
        ensures
            final(self).wf(),
            final(self).bytes_fed() == old(self).bytes_fed().push(data),
    {
        proof {
            lemma_fletcher_sums_in_range(self.fed@);
        }
        self.sum1 = (self.sum1 + data as u16) % 255;
        self.sum2 = (self.sum2 + self.sum1) % 255;
        proof {
            self.fed@ = self.fed@.push(data);
            assert(self.fed@.drop_last() =~= old(self).fed@);
        }
    }

    /// Feeds the two bytes of `data` low byte first: the in-memory order of
    /// a 16-bit value on the little-endian targets this wire format was built
    /// for. The checksum is defined over these bytes, not over the big-endian
    /// network encoding of the field.
    pub fn write_u16_platform(&mut self, data: u16)
        requires
            old(self).wf(),
        ensures
            final(self).wf(),
            final(self).bytes_fed() == old(self).bytes_fed() + spec_le_bytes_u16(data),
    {
        self.write_u8((data % 256) as u8);
        self.write_u8((data / 256) as u8);
        proof {
            assert(self.fed@ =~= old(self).fed@ + spec_le_bytes_u16(data));
        }
    }

    /// Feeds every byte of `data` in order.
    pub fn write_bytes(&mut self, data: &[u8])
        requires
            old(self).wf(),
        ensures
            final(self).wf(),
            final(self).bytes_fed() == old(self).bytes_fed() + data@,
    {
        let mut i: usize = 0;
        while i < data.len()
            invariant
                i <= data@.len(),
                self.wf(),
                self.bytes_fed() == old(self).bytes_fed() + data@.subrange(0, i as int),
            decreases data@.len() - i,
        {
            self.write_u8(data[i]);
            proof {
                assert(old(self).bytes_fed() + data@.subrange(0, i as int + 1) =~= (old(
                    self,
                ).bytes_fed() + data@.subrange(0, i as int)).push(data@[i as int]));
            }
            i = i + 1;
        }
        proof {
            assert(data@.subrange(0, data@.len() as int) =~= data@);
        }
    }

    /// The checksum of everything fed so far: the second sum in the high
    /// byte, the first sum in the low byte.
    pub fn finish(&self) -> (r: u16)
        requires
            self.wf(),
        ensures
            r == spec_fletcher_16(self.bytes_fed()),
    {
        proof {
            lemma_fletcher_sums_in_range(self.fed@);
        }
        self.sum2 * 256 + self.sum1
    }
}

/// One-shot Fletcher-16 checksum of `data`, equivalent to feeding each byte
/// through the incremental hasher in order and calling `finish`.
pub fn fletcher_16(data: &[u8]) -> (r: u16)
    ensures
        r == spec_fletcher_16(data@),
{
    let mut hasher = Fletcher16Hasher::new();
    hasher.write_bytes(data);
    proof {
        assert(hasher.bytes_fed() =~= data@);
    }
    hasher.finish()
}

} // verus!
