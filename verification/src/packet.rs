//! The inner application message: a `Packet` carries a command, a sequence
//! number, an opaque correlation handle and a borrowed payload of at most
//! 65535 bytes. The payload length is carried explicitly in the header. The
//! packet's integrity checksum covers only the four 16-bit header fields,
//! each projected to little-endian bytes.

use crate::bytes::spec_le_bytes_u16;
use crate::fletcher_16::{spec_fletcher_16, Fletcher16Hasher};
use vstd::prelude::*;

verus! {

/// The command carried by a packet, one of seven ordinals `0..=6`.
#[derive(Clone, Copy, PartialEq, Eq, Debug)]
pub enum Command {
    Invalid,
    GeneralErrorReply,
    Echo,
    EchoReply,
    Shutdown,
    ShutdownReply,
    Unsupported,
}

/// The highest valid command ordinal.
pub const MAX_COMMAND: u16 = 6;

/// A 16-bit value that is not the ordinal of any `Command`.
#[derive(Clone, Copy, PartialEq, Eq, Debug)]
pub struct CommandValueError(pub u16);

impl Command {
    /// The wire ordinal of this command.
    pub open spec fn spec_ordinal(self) -> u16 {
        match self {
            Command::Invalid => 0,
            Command::GeneralErrorReply => 1,
            Command::Echo => 2,
            Command::EchoReply => 3,
            Command::Shutdown => 4,
            Command::ShutdownReply => 5,
            Command::Unsupported => 6,
        }
    }

    /// The command with the given ordinal; meaningful for ordinals `0..=6`.
    pub open spec fn spec_from_ordinal(c: u16) -> Command {
        if c == 0 {
            Command::Invalid
        } else if c == 1 {
            Command::GeneralErrorReply
        } else if c == 2 {
            Command::Echo
        } else if c == 3 {
            Command::EchoReply
        } else if c == 4 {
            Command::Shutdown
        } else if c == 5 {
            Command::ShutdownReply
        } else {
            Command::Unsupported
        }
    }

    /// The wire ordinal of this command.
    pub fn ordinal(self) -> (r: u16)
        ensures
            r == self.spec_ordinal(),
    {
        match self {
            Command::Invalid => 0,
            Command::GeneralErrorReply => 1,
            Command::Echo => 2,
            Command::EchoReply => 3,
            Command::Shutdown => 4,
            Command::ShutdownReply => 5,
            Command::Unsupported => 6,
        }
    }

    /// The command with ordinal `c`, or an error for every value above the
    /// valid range; values are never silently coerced.
    pub fn try_from(c: u16) -> (r: Result<Command, CommandValueError>)
        ensures
            c <= MAX_COMMAND ==> r == Ok::<Command, CommandValueError>(
                Command::spec_from_ordinal(c),
            ),
            c > MAX_COMMAND ==> r == Err::<Command, CommandValueError>(CommandValueError(c)),
    {
        if c <= MAX_COMMAND {
            Ok(
                if c == 0 {
                    Command::Invalid
                } else if c == 1 {
                    Command::GeneralErrorReply
                } else if c == 2 {
                    Command::Echo
                } else if c == 3 {
                    Command::EchoReply
                } else if c == 4 {
                    Command::Shutdown
                } else if c == 5 {
                    Command::ShutdownReply
                } else {
                    Command::Unsupported
                },
            )
        } else {
            Err(CommandValueError(c))
        }
    }
}

/// Taking a valid ordinal to its command and back gives the ordinal again.
pub proof fn lemma_command_from_ordinal_roundtrip(c: u16)
    requires
        c <= MAX_COMMAND,
    ensures
        Command::spec_from_ordinal(c).spec_ordinal() == c,
{
}

/// Every command's ordinal is in range, and taking a command to its ordinal
/// and back gives the command again.
pub proof fn lemma_command_ordinal_roundtrip(cmd: Command)
    ensures
        cmd.spec_ordinal() <= MAX_COMMAND,
        Command::spec_from_ordinal(cmd.spec_ordinal()) == cmd,
{
}

/// The sequence number of a packet.
#[derive(Clone, Copy, PartialEq, Eq, Debug)]
pub struct SequenceNumber(pub u16);

/// An opaque correlation identifier, interpreted only by the application.
#[derive(Clone, Copy, PartialEq, Eq, Debug)]
pub struct Handle(pub u16);

/// A 16-bit Fletcher-16 checksum value.
#[derive(Clone, Copy, PartialEq, Eq, Debug)]
pub struct Checksum(pub u16);

/// The inner application message. The payload is borrowed from the caller's
/// buffer, never copied; a decoded packet must not outlive the bytes it was
/// decoded from.
#[derive(Clone, Copy, PartialEq, Eq, Debug)]
pub struct Packet<'a> {
    pub sequence_number: SequenceNumber,
    pub command: Command,
    pub handle: Handle,
    pub data: &'a [u8],
}

/// The fixed size of the packet header: four 16-bit fields.
pub const PACKET_HEADER_LEN: usize = 8;

/// The checksum domain of a packet header: the four fields `{payload length,
/// sequence number, command, handle}`, each as two little-endian bytes. The
/// payload itself is not covered.
pub open spec fn spec_checksum_input(
    data_len: u16,
    seq_no: u16,
    command: Command,
    handle: u16,
) -> Seq<u8> {
    spec_le_bytes_u16(data_len) + spec_le_bytes_u16(seq_no) + spec_le_bytes_u16(
        command.spec_ordinal(),
    ) + spec_le_bytes_u16(handle)
}

/// The Fletcher-16 checksum over a packet header's four fields.
pub open spec fn spec_header_checksum(
    data_len: u16,
    seq_no: u16,
    command: Command,
    handle: u16,
) -> u16 {
    spec_fletcher_16(spec_checksum_input(data_len, seq_no, command, handle))
}

impl<'a> Packet<'a> {
    /// Validity: the payload length fits the 16-bit length field of the header.
    pub open spec fn wf(self) -> bool {
        self.data@.len() <= 0xffff
    }

    /// The encoded length: the 8-byte header followed by the payload.
    pub open spec fn spec_total_len(self) -> int {
        PACKET_HEADER_LEN + self.data@.len()
    }

    /// The Fletcher-16 checksum over this packet's header fields.
    pub open spec fn spec_checksum(self) -> u16 {
        spec_header_checksum(
            self.data@.len() as u16,
            self.sequence_number.0,
            self.command,
            self.handle.0,
        )
    }

    /// The encoded length: the 8-byte header followed by the payload.
    pub fn total_len(&self) -> (r: usize)
        requires
            self.wf(),
        ensures
            r == self.spec_total_len(),
    {
        PACKET_HEADER_LEN + self.data.len()
    }

    /// The Fletcher-16 checksum over the header fields, in little-endian order.
    pub fn checksum(&self) -> (r: Checksum)
        requires
            self.wf(),
        ensures
            r.0 == self.spec_checksum(),
    {
        let mut hasher = Fletcher16Hasher::new();
        hasher.write_u16_platform(self.data.len() as u16);
        hasher.write_u16_platform(self.sequence_number.0);
        hasher.write_u16_platform(self.command.ordinal());
        hasher.write_u16_platform(self.handle.0);
        proof {
            assert(hasher.bytes_fed() =~= spec_checksum_input(
                self.data@.len() as u16,
                self.sequence_number.0,
                self.command,
                self.handle.0,
            ));
        }
        Checksum(hasher.finish())
    }
}

} // verus!
