//! The encoder: serializes a `Packet` or a `Wrapper` into wire bytes. All
//! multi-byte fields are written big-endian; the checksum field carries the
//! Fletcher-16 value computed over the inner header's little-endian bytes.
//! Encoding into a caller-supplied buffer checks the bounds once, before any
//! byte is written, so failure is atomic.

use crate::bytes::{spec_be_bytes_u16, write_be_u16};
use crate::packet::{Packet, PACKET_HEADER_LEN};
use crate::wrapper::{Wrapper, WRAPPER_HEADER_LEN};
use vstd::prelude::*;

verus! {

/// The wire bytes of a packet: big-endian payload length, sequence number,
/// command ordinal and handle, followed by the raw payload.
pub open spec fn spec_packet_bytes(p: Packet<'_>) -> Seq<u8> {
    spec_be_bytes_u16(p.data@.len() as u16) + spec_be_bytes_u16(p.sequence_number.0)
        + spec_be_bytes_u16(p.command.spec_ordinal()) + spec_be_bytes_u16(p.handle.0) + p.data@
}

/// The wire bytes of an envelope: big-endian total length, envelope sequence
/// number, acknowledgment number and checksum, the one-byte type ordinal, and
/// the inner packet's bytes.
pub open spec fn spec_wrapper_bytes(w: Wrapper<'_>) -> Seq<u8> {
    spec_be_bytes_u16(w.spec_total_len() as u16) + spec_be_bytes_u16(w.sequence_number.0)
        + spec_be_bytes_u16(w.ack_number.0) + spec_be_bytes_u16(w.packet.spec_checksum()) + seq![
        w.type_.spec_ordinal(),
    ] + spec_packet_bytes(w.packet)
}

/// The target buffer was too short for the value's encoding; nothing was
/// written.
#[derive(Clone, Copy, PartialEq, Eq, Debug)]
pub struct BufferTooShortError {
    pub expected: usize,
    pub actual: usize,
}

/// Appends the two big-endian bytes of `value` to `out`.
pub fn write_net_bytes_u16(value: u16, out: &mut Vec<u8>)
    ensures
        final(out)@ == old(out)@ + spec_be_bytes_u16(value),
{
    out.push((value / 256) as u8);
    out.push((value % 256) as u8);
    proof {
        assert(out@ =~= old(out)@ + spec_be_bytes_u16(value));
    }
}

/// Appends `value` to `out`.
pub fn write_net_bytes_u8(value: u8, out: &mut Vec<u8>)
    ensures
        final(out)@ == old(out)@ + seq![value],
{
    out.push(value);
    proof {
        assert(out@ =~= old(out)@ + seq![value]);
    }
}

/// A value with a defined wire encoding, written by appending to a byte
/// vector. The caller hands the accumulated bytes to its transport.
pub trait Serialize {
    /// The inputs on which this value can be encoded at all.
    spec fn wire_wf(&self) -> bool;

    /// The value's exact wire bytes.
    spec fn wire_bytes(&self) -> Seq<u8>;

    /// Appends the value's wire bytes to `out`.
    fn write_net_bytes(&self, out: &mut Vec<u8>)
        requires
            self.wire_wf(),
        ensures
            final(out)@ == old(out)@ + self.wire_bytes(),
    ;
}

impl<'a> Serialize for Packet<'a> {
    open spec fn wire_wf(&self) -> bool {
        self.wf()
    }

    open spec fn wire_bytes(&self) -> Seq<u8> {
        spec_packet_bytes(*self)
    }

    fn write_net_bytes(&self, out: &mut Vec<u8>) {
        write_net_bytes_u16(self.data.len() as u16, out);
        write_net_bytes_u16(self.sequence_number.0, out);
        write_net_bytes_u16(self.command.ordinal(), out);
        write_net_bytes_u16(self.handle.0, out);
        let mut i: usize = 0;
        while i < self.data.len()
            invariant
                i <= self.data@.len(),
                out@ == old(out)@ + spec_be_bytes_u16(self.data@.len() as u16) + spec_be_bytes_u16(
                    self.sequence_number.0,
                ) + spec_be_bytes_u16(self.command.spec_ordinal()) + spec_be_bytes_u16(
                    self.handle.0,
                ) + self.data@.subrange(0, i as int),
            decreases self.data@.len() - i,
        {
            out.push(self.data[i]);
            proof {
                assert(out@ =~= old(out)@ + spec_be_bytes_u16(self.data@.len() as u16)
                    + spec_be_bytes_u16(self.sequence_number.0) + spec_be_bytes_u16(
                    self.command.spec_ordinal(),
                ) + spec_be_bytes_u16(self.handle.0) + self.data@.subrange(0, i as int + 1));
            }
            i = i + 1;
        }
        proof {
            assert(self.data@.subrange(0, self.data@.len() as int) =~= self.data@);
            assert(out@ =~= old(out)@ + self.wire_bytes());
        }
    }
}

impl<'a> Serialize for Wrapper<'a> {
    open spec fn wire_wf(&self) -> bool {
        self.wf()
    }

    open spec fn wire_bytes(&self) -> Seq<u8> {
        spec_wrapper_bytes(*self)
    }

    fn write_net_bytes(&self, out: &mut Vec<u8>) {
        write_net_bytes_u16(self.total_len() as u16, out);
        write_net_bytes_u16(self.sequence_number.0, out);
        write_net_bytes_u16(self.ack_number.0, out);
        write_net_bytes_u16(self.packet.checksum().0, out);
        write_net_bytes_u8(self.type_.ordinal(), out);
        self.packet.write_net_bytes(out);
        proof {
            assert(out@ =~= old(out)@ + self.wire_bytes());
        }
    }
}

impl<'a> Packet<'a> {
    /// Encodes this packet into the front of `buf` and returns the number of
    /// bytes written. Fails, writing nothing, when the buffer is shorter than
    /// the encoding; bytes past the encoding are never touched.
    pub fn to_net_bytes_buf(&self, buf: &mut [u8]) -> (r: Result<usize, BufferTooShortError>)
        requires
            self.wf(),
        ensures
            final(buf)@.len() == old(buf)@.len(),
            old(buf)@.len() < self.spec_total_len() ==> r == Err::<usize, BufferTooShortError>(
                BufferTooShortError {
                    expected: self.spec_total_len() as usize,
                    actual: old(buf)@.len() as usize,
                },
            ) && final(buf)@ == old(buf)@,
            old(buf)@.len() >= self.spec_total_len() ==> r == Ok::<usize, BufferTooShortError>(
                self.spec_total_len() as usize,
            ) && final(buf)@.subrange(0, self.spec_total_len()) == spec_packet_bytes(*self)
                && (forall|j: int|
                self.spec_total_len() <= j < old(buf)@.len() ==> final(buf)@[j] == old(buf)@[j]),
    {
        let total_len = self.total_len();
        if buf.len() < total_len {
            return Err(BufferTooShortError { expected: total_len, actual: buf.len() });
        }
        write_be_u16(buf, 0, self.data.len() as u16);
        write_be_u16(buf, 2, self.sequence_number.0);
        write_be_u16(buf, 4, self.command.ordinal());
        write_be_u16(buf, 6, self.handle.0);
        let mut i: usize = 0;
        while i < self.data.len()
            invariant
                self.wf(),
                i <= self.data@.len(),
                buf@.len() == old(buf)@.len(),
                buf@.len() >= PACKET_HEADER_LEN + self.data@.len(),
                buf@.subrange(0, 8) == spec_be_bytes_u16(self.data@.len() as u16)
                    + spec_be_bytes_u16(self.sequence_number.0) + spec_be_bytes_u16(
                    self.command.spec_ordinal(),
                ) + spec_be_bytes_u16(self.handle.0),
                buf@.subrange(8, 8 + i as int) == self.data@.subrange(0, i as int),
                forall|j: int|
                    PACKET_HEADER_LEN + self.data@.len() <= j < buf@.len() ==> buf@[j] == old(
                        buf,
                    )@[j],
            decreases self.data@.len() - i,
        {
            let ghost prev = buf@;
            buf[PACKET_HEADER_LEN + i] = self.data[i];
            proof {
                assert(buf@.subrange(0, 8) =~= prev.subrange(0, 8));
                assert(buf@.subrange(8, 8 + i as int + 1) =~= self.data@.subrange(0, i as int + 1));
            }
            i = i + 1;
        }
        proof {
            assert(buf@.subrange(0, self.spec_total_len()) =~= buf@.subrange(0, 8) + buf@.subrange(
                8,
                self.spec_total_len(),
            ));
        }
        Ok(total_len)
    }
}

impl<'a> Wrapper<'a> {
    /// Encodes this envelope and its inner packet into the front of `buf` and
    /// returns the number of bytes written. Fails, writing nothing, when the
    /// buffer is shorter than the encoding; bytes past the encoding are never
    /// touched.
    pub fn to_net_bytes_buf(&self, buf: &mut [u8]) -> (r: Result<usize, BufferTooShortError>)
        requires
            self.wf(),
        ensures
            final(buf)@.len() == old(buf)@.len(),
            old(buf)@.len() < self.spec_total_len() ==> r == Err::<usize, BufferTooShortError>(
                BufferTooShortError {
                    expected: self.spec_total_len() as usize,
                    actual: old(buf)@.len() as usize,
                },
            ) && final(buf)@ == old(buf)@,
            old(buf)@.len() >= self.spec_total_len() ==> r == Ok::<usize, BufferTooShortError>(
                self.spec_total_len() as usize,
            ) && final(buf)@.subrange(0, self.spec_total_len()) == spec_wrapper_bytes(*self)
                && (forall|j: int|
                self.spec_total_len() <= j < old(buf)@.len() ==> final(buf)@[j] == old(buf)@[j]),
    {
        let total_len = self.total_len();
        if buf.len() < total_len {
            return Err(BufferTooShortError { expected: total_len, actual: buf.len() });
        }
        write_be_u16(buf, 0, total_len as u16);
        write_be_u16(buf, 2, self.sequence_number.0);
        write_be_u16(buf, 4, self.ack_number.0);
        write_be_u16(buf, 6, self.packet.checksum().0);
        let ghost mid = buf@;
        buf[8] = self.type_.ordinal();
        proof {
            assert(buf@.subrange(0, 8) =~= mid.subrange(0, 8));
        }
        let ghost before_inner = buf@;
        let (head, tail) = buf.split_at_mut(WRAPPER_HEADER_LEN);
        let inner = self.packet.to_net_bytes_buf(tail);
        proof {
            assert(inner is Ok);
        }
        proof {
            assert(buf@.subrange(0, 9) =~= before_inner.subrange(0, 9));
        }
        proof {
            assert(buf@.subrange(0, self.spec_total_len()) =~= spec_wrapper_bytes(*self));
            assert(forall|j: int|
                self.spec_total_len() <= j < old(buf)@.len() ==> buf@[j] == old(buf)@[j]);
        }
        Ok(total_len)
    }
}

} // verus!
