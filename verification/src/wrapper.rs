//! The transport envelope: a `Wrapper` adds an envelope-level sequence
//! number, an acknowledgment number, a delivery-type tag and a checksum over
//! the inner packet's header. Sequence and acknowledgment numbers are carried
//! opaquely; no retransmission logic lives in this crate.

use crate::packet::{Checksum, Packet};
use vstd::prelude::*;

verus! {

/// The delivery classification of an envelope, one of three ordinals `0..=2`.
#[derive(Clone, Copy, PartialEq, Eq, Debug)]
pub enum WrapperType {
    ACK,
    NACK,
    DATA,
}

/// The highest valid wrapper-type ordinal.
pub const MAX_WRAPPER_TYPE: u8 = 2;

/// An 8-bit value that is not the ordinal of any `WrapperType`.
#[derive(Clone, Copy, PartialEq, Eq, Debug)]
pub struct WrapperTypeValueError(pub u8);

impl WrapperType {
    /// The wire ordinal of this wrapper type.
    pub open spec fn spec_ordinal(self) -> u8 {
        match self {
            WrapperType::ACK => 0,
            WrapperType::NACK => 1,
            WrapperType::DATA => 2,
        }
    }

    /// The wrapper type with the given ordinal; meaningful for ordinals `0..=2`.
    pub open spec fn spec_from_ordinal(c: u8) -> WrapperType {
        if c == 0 {
            WrapperType::ACK
        } else if c == 1 {
            WrapperType::NACK
        } else {
            WrapperType::DATA
        }
    }

    /// The wire ordinal of this wrapper type.
    pub fn ordinal(self) -> (r: u8)
        ensures
            r == self.spec_ordinal(),
    {
        match self {
            WrapperType::ACK => 0,
            WrapperType::NACK => 1,
            WrapperType::DATA => 2,
        }
    }

    /// The wrapper type with ordinal `c`, or an error for every value above
    /// the valid range; values are never silently coerced.
    pub fn try_from(c: u8) -> (r: Result<WrapperType, WrapperTypeValueError>)
        ensures
            c <= MAX_WRAPPER_TYPE ==> r == Ok::<WrapperType, WrapperTypeValueError>(
                WrapperType::spec_from_ordinal(c),
            ),
            c > MAX_WRAPPER_TYPE ==> r == Err::<WrapperType, WrapperTypeValueError>(
                WrapperTypeValueError(c),
            ),
    {
        if c <= MAX_WRAPPER_TYPE {
            Ok(
                if c == 0 {
                    WrapperType::ACK
                } else if c == 1 {
                    WrapperType::NACK
                } else {
                    WrapperType::DATA
                },
            )
        } else {
            Err(WrapperTypeValueError(c))
        }
    }
}

/// Every wrapper type's ordinal is in range, and taking a wrapper type to
/// its ordinal and back gives the wrapper type again.
pub proof fn lemma_wrapper_type_ordinal_roundtrip(t: WrapperType)
    ensures
        t.spec_ordinal() <= MAX_WRAPPER_TYPE,
        WrapperType::spec_from_ordinal(t.spec_ordinal()) == t,
{
}

/// The sequence number of an envelope, distinct from the inner packet's own.
#[derive(Clone, Copy, PartialEq, Eq, Debug)]
pub struct SequenceNumber(pub u16);

/// The acknowledgment number of an envelope.
#[derive(Clone, Copy, PartialEq, Eq, Debug)]
pub struct AckNumber(pub u16);

/// The transport envelope around one inner packet.
#[derive(Clone, Copy, PartialEq, Eq, Debug)]
pub struct Wrapper<'a> {
    pub sequence_number: SequenceNumber,
    pub ack_number: AckNumber,
    pub type_: WrapperType,
    pub packet: Packet<'a>,
}

/// A structurally valid envelope whose transmitted checksum disagrees with
/// the checksum recomputed over the decoded inner packet's header.
#[derive(Clone, Copy, PartialEq, Eq, Debug)]
pub struct ChecksumMismatchError {
    pub provided: Checksum,
    pub computed: Checksum,
}

/// The fixed size of the envelope header: four 16-bit fields and the type tag.
pub const WRAPPER_HEADER_LEN: usize = 9;

impl<'a> Wrapper<'a> {
    /// Validity: the inner packet is valid and the whole encoding fits the
    /// 16-bit total-length field of the envelope header.
    pub open spec fn wf(self) -> bool {
        self.packet.wf() && self.spec_total_len() <= 0xffff
    }

    /// The encoded length: the 9-byte envelope header and the inner packet.
    pub open spec fn spec_total_len(self) -> int {
        WRAPPER_HEADER_LEN + self.packet.spec_total_len()
    }

    /// The encoded length: the 9-byte envelope header and the inner packet.
    pub fn total_len(&self) -> (r: usize)
        requires
            self.packet.wf(),
        ensures
            r == self.spec_total_len(),
    {
        WRAPPER_HEADER_LEN + self.packet.total_len()
    }
}

} // verus!
