//! The decoder/validator: parses untrusted bytes into typed `Packet` and
//! `Wrapper` values, enforcing length bounds, enum validity and checksum
//! integrity. Decoding never panics on malformed input of any content or
//! length; every malformed input ends in a typed error. Decoded values borrow
//! their payload from the input buffer, without copying.

use crate::bytes::{
    lemma_be_bytes_roundtrip, lemma_le_of_be, lemma_u16_from_be_injective, read_be_u16,
    spec_be_bytes_u16, spec_u16_from_be,
};
use crate::fletcher_16::{flip_bit, lemma_fletcher_detects_bit_flip, lemma_flip_bit_changes};
use crate::packet::{
    lemma_command_from_ordinal_roundtrip, lemma_command_ordinal_roundtrip, Command, Handle, Packet,
    SequenceNumber, spec_checksum_input, spec_header_checksum, Checksum, PACKET_HEADER_LEN,
    MAX_COMMAND,
};
use crate::ser::{spec_packet_bytes, spec_wrapper_bytes};
use crate::wrapper::{
    lemma_wrapper_type_ordinal_roundtrip, AckNumber, ChecksumMismatchError, Wrapper, WrapperType,
    MAX_WRAPPER_TYPE, WRAPPER_HEADER_LEN,
};
use vstd::prelude::*;
use vstd::slice::slice_subrange;

verus! {

/// A decode failure. Every malformed input maps to exactly one of these;
/// none is fatal and none is ever turned into a panic.
#[derive(Clone, Copy, PartialEq, Eq, Debug)]
pub enum DecodeError {
    /// Fewer bytes were available than a declared length field requires.
    Truncated,
    /// The command field holds an ordinal outside the valid range.
    InvalidCommand(u16),
    /// The wrapper-type field holds an ordinal outside the valid range.
    InvalidWrapperType(u8),
    /// The outer declared total length disagrees with the bytes the nested
    /// fields actually consume.
    LengthMismatch,
    /// A structurally valid envelope whose transmitted checksum disagrees
    /// with the recomputed one.
    ChecksumMismatch(ChecksumMismatchError),
}

/// The four fields and payload of a decoded packet, as plain values.
pub type PacketFields = (u16, Command, u16, Seq<u8>);

/// The envelope fields and inner packet of a decoded wrapper, as plain values.
pub type WrapperFields = (u16, u16, WrapperType, PacketFields);

/// What decoding `s` as a packet must return: the value of the byte-level
/// packet grammar, or the exact error for the first check that fails.
pub open spec fn spec_decode_packet(s: Seq<u8>) -> Result<PacketFields, DecodeError> {
    if s.len() < PACKET_HEADER_LEN {
        Err(DecodeError::Truncated)
    } else {
        let data_len = spec_u16_from_be(s[0], s[1]);
        let cmd = spec_u16_from_be(s[4], s[5]);
        if cmd > MAX_COMMAND {
            Err(DecodeError::InvalidCommand(cmd))
        } else if s.len() - PACKET_HEADER_LEN < data_len {
            Err(DecodeError::Truncated)
        } else {
            Ok(
                (
                    spec_u16_from_be(s[2], s[3]),
                    Command::spec_from_ordinal(cmd),
                    spec_u16_from_be(s[6], s[7]),
                    s.subrange(PACKET_HEADER_LEN as int, PACKET_HEADER_LEN + data_len),
                ),
            )
        }
    }
}

/// What decoding the value region of an envelope (the bytes after the outer
/// length field, delimited by it) must return.
pub open spec fn spec_decode_wrapper_body(body: Seq<u8>) -> Result<WrapperFields, DecodeError> {
    if body.len() < 7 {
        Err(DecodeError::LengthMismatch)
    } else {
        let ty = body[6];
        if ty > MAX_WRAPPER_TYPE {
            Err(DecodeError::InvalidWrapperType(ty))
        } else {
            let rest = body.subrange(7, body.len() as int);
            match spec_decode_packet(rest) {
                Err(DecodeError::Truncated) => Err(DecodeError::LengthMismatch),
                Err(e) => Err(e),
                Ok((pseq, cmd, handle, data)) => if PACKET_HEADER_LEN + data.len() != rest.len() {
                    Err(DecodeError::LengthMismatch)
                } else {
                    let provided = spec_u16_from_be(body[4], body[5]);
                    let computed = spec_header_checksum(data.len() as u16, pseq, cmd, handle);
                    if provided != computed {
                        Err(
                            DecodeError::ChecksumMismatch(
                                ChecksumMismatchError {
                                    provided: Checksum(provided),
                                    computed: Checksum(computed),
                                },
                            ),
                        )
                    } else {
                        Ok(
                            (
                                spec_u16_from_be(body[0], body[1]),
                                spec_u16_from_be(body[2], body[3]),
                                WrapperType::spec_from_ordinal(ty),
                                (pseq, cmd, handle, data),
                            ),
                        )
                    }
                },
            }
        }
    }
}

/// What decoding `s` as a wrapper must return. The outer length field
/// delimits a value region; the remaining fields are parsed strictly within
/// it, and a parse consuming fewer or needing more bytes than declared is a
/// `LengthMismatch`. Bytes past the declared length are ignored.
pub open spec fn spec_decode_wrapper(s: Seq<u8>) -> Result<WrapperFields, DecodeError> {
    if s.len() < 2 {
        Err(DecodeError::Truncated)
    } else {
        let total = spec_u16_from_be(s[0], s[1]);
        if total < 2 {
            Err(DecodeError::LengthMismatch)
        } else if s.len() < total {
            Err(DecodeError::Truncated)
        } else {
            spec_decode_wrapper_body(s.subrange(2, total as int))
        }
    }
}

/// Parses the 8-byte packet header and payload at the front of `bytes`.
/// Rejects a short header or a payload shorter than declared with
/// `Truncated`, and an out-of-range command ordinal with `InvalidCommand`.
/// On success the packet's payload borrows the exact declared sub-range of
/// the input. Bytes past the declared payload are ignored.
pub fn decode_packet<'a>(bytes: &'a [u8]) -> (r: Result<Packet<'a>, DecodeError>)
    ensures
        match r {
            Ok(p) => spec_decode_packet(bytes@) == Ok::<PacketFields, DecodeError>(
                (p.sequence_number.0, p.command, p.handle.0, p.data@),
            ) && p.wf(),
            Err(e) => spec_decode_packet(bytes@) == Err::<PacketFields, DecodeError>(e),
        },
{
    if bytes.len() < PACKET_HEADER_LEN {
        return Err(DecodeError::Truncated);
    }
    let data_len = read_be_u16(bytes, 0);
    let cmd_val = read_be_u16(bytes, 4);
    let command = match Command::try_from(cmd_val) {
        Ok(c) => c,
        Err(e) => {
            return Err(DecodeError::InvalidCommand(e.0));
        },
    };
    if bytes.len() - PACKET_HEADER_LEN < data_len as usize {
        return Err(DecodeError::Truncated);
    }
    let sequence_number = read_be_u16(bytes, 2);
    let handle = read_be_u16(bytes, 6);
    let data = slice_subrange(bytes, PACKET_HEADER_LEN, PACKET_HEADER_LEN + data_len as usize);
    Ok(
        Packet {
            sequence_number: SequenceNumber(sequence_number),
            command,
            handle: Handle(handle),
            data,
        },
    )
}

/// Returns the wrapper when the transmitted checksum equals the checksum
/// recomputed over the inner packet's header fields, and the mismatch error
/// carrying both values otherwise.
pub fn check_checksum<'a>(arg: (Wrapper<'a>, Checksum)) -> (r: Result<
    Wrapper<'a>,
    ChecksumMismatchError,
>)
    requires
        arg.0.packet.wf(),
    ensures
        arg.1.0 == arg.0.packet.spec_checksum() ==> r == Ok::<Wrapper<'a>, ChecksumMismatchError>(
            arg.0,
        ),
        arg.1.0 != arg.0.packet.spec_checksum() ==> r == Err::<Wrapper<'a>, ChecksumMismatchError>(
            ChecksumMismatchError { provided: arg.1, computed: Checksum(arg.0.packet.spec_checksum()) },
        ),
{
    let provided = arg.1;
    let w = arg.0;
    let computed = w.packet.checksum();
    if provided.0 == computed.0 {
        Ok(w)
    } else {
        Err(ChecksumMismatchError { provided, computed })
    }
}

/// Parses an envelope at the front of `bytes`: the outer length field, the
/// envelope header, the inner packet, then the checksum comparison. An
/// integrity failure is terminal: the structurally valid wrapper is not
/// handed out on a checksum mismatch.
pub fn decode_wrapper<'a>(bytes: &'a [u8]) -> (r: Result<Wrapper<'a>, DecodeError>)
    ensures
        match r {
            Ok(w) => spec_decode_wrapper(bytes@) == Ok::<WrapperFields, DecodeError>(
                (
                    w.sequence_number.0,
                    w.ack_number.0,
                    w.type_,
                    (w.packet.sequence_number.0, w.packet.command, w.packet.handle.0, w.packet.data@),
                ),
            ) && w.wf(),
            Err(e) => spec_decode_wrapper(bytes@) == Err::<WrapperFields, DecodeError>(e),
        },
{
    if bytes.len() < 2 {
        return Err(DecodeError::Truncated);
    }
    let total = read_be_u16(bytes, 0) as usize;
    if total < 2 {
        return Err(DecodeError::LengthMismatch);
    }
    if bytes.len() < total {
        return Err(DecodeError::Truncated);
    }
    let body = slice_subrange(bytes, 2, total);
    if body.len() < 7 {
        return Err(DecodeError::LengthMismatch);
    }
    let ty_val = body[6];
    let type_ = match WrapperType::try_from(ty_val) {
        Ok(t) => t,
        Err(e) => {
            return Err(DecodeError::InvalidWrapperType(e.0));
        },
    };
    let rest = slice_subrange(body, 7, body.len());
    let packet = match decode_packet(rest) {
        Ok(p) => p,
        Err(DecodeError::Truncated) => {
            return Err(DecodeError::LengthMismatch);
        },
        Err(e) => {
            return Err(e);
        },
    };
    if PACKET_HEADER_LEN + packet.data.len() != rest.len() {
        return Err(DecodeError::LengthMismatch);
    }
    let sequence_number = read_be_u16(body, 0);
    let ack_number = read_be_u16(body, 2);
    let provided = Checksum(read_be_u16(body, 4));
    let wrapper = Wrapper {
        sequence_number: crate::wrapper::SequenceNumber(sequence_number),
        ack_number: AckNumber(ack_number),
        type_,
        packet,
    };
    match check_checksum((wrapper, provided)) {
        Ok(w) => {
            proof {
                assert(WRAPPER_HEADER_LEN + PACKET_HEADER_LEN + w.packet.data@.len()
                    == total as int);
            }
            Ok(w)
        },
        Err(e) => Err(DecodeError::ChecksumMismatch(e)),
    }
}

/// Round trip for packets: decoding the encoding of any valid packet
/// succeeds and recovers the packet, field for field and payload for payload.
pub proof fn lemma_packet_round_trip<'a>(p: Packet<'a>)
    requires
        p.wf(),
    ensures
        spec_decode_packet(spec_packet_bytes(p)) == Ok::<PacketFields, DecodeError>(
            (p.sequence_number.0, p.command, p.handle.0, p.data@),
        ),
{
    let s = spec_packet_bytes(p);
    let data_len = p.data@.len() as u16;
    assert(s.len() == PACKET_HEADER_LEN + p.data@.len());
    lemma_be_bytes_roundtrip(data_len);
    lemma_be_bytes_roundtrip(p.sequence_number.0);
    lemma_be_bytes_roundtrip(p.command.spec_ordinal());
    lemma_be_bytes_roundtrip(p.handle.0);
    lemma_command_ordinal_roundtrip(p.command);
    assert(spec_u16_from_be(s[0], s[1]) == data_len);
    assert(spec_u16_from_be(s[2], s[3]) == p.sequence_number.0);
    assert(spec_u16_from_be(s[4], s[5]) == p.command.spec_ordinal());
    assert(spec_u16_from_be(s[6], s[7]) == p.handle.0);
    assert(s.subrange(PACKET_HEADER_LEN as int, PACKET_HEADER_LEN + data_len) =~= p.data@);
}

/// Round trip for wrappers: decoding the encoding of any valid wrapper
/// succeeds and recovers the envelope fields and an inner packet equal to
/// the original, and in particular the recomputed checksum matches.
pub proof fn lemma_wrapper_round_trip<'a>(w: Wrapper<'a>)
    requires
        w.wf(),
    ensures
        spec_decode_wrapper(spec_wrapper_bytes(w)) == Ok::<WrapperFields, DecodeError>(
            (
                w.sequence_number.0,
                w.ack_number.0,
                w.type_,
                (w.packet.sequence_number.0, w.packet.command, w.packet.handle.0, w.packet.data@),
            ),
        ),
{
    let s = spec_wrapper_bytes(w);
    let total = w.spec_total_len() as u16;
    assert(s.len() == w.spec_total_len());
    lemma_be_bytes_roundtrip(total);
    assert(spec_u16_from_be(s[0], s[1]) == total);
    let body = s.subrange(2, total as int);
    assert(body =~= spec_be_bytes_u16(w.sequence_number.0) + spec_be_bytes_u16(w.ack_number.0)
        + spec_be_bytes_u16(w.packet.spec_checksum()) + seq![w.type_.spec_ordinal()]
        + spec_packet_bytes(w.packet));
    lemma_be_bytes_roundtrip(w.sequence_number.0);
    lemma_be_bytes_roundtrip(w.ack_number.0);
    lemma_be_bytes_roundtrip(w.packet.spec_checksum());
    lemma_wrapper_type_ordinal_roundtrip(w.type_);
    assert(spec_u16_from_be(body[0], body[1]) == w.sequence_number.0);
    assert(spec_u16_from_be(body[2], body[3]) == w.ack_number.0);
    assert(spec_u16_from_be(body[4], body[5]) == w.packet.spec_checksum());
    assert(body[6] == w.type_.spec_ordinal());
    let rest = body.subrange(7, body.len() as int);
    assert(rest =~= spec_packet_bytes(w.packet));
    lemma_packet_round_trip(w.packet);
    assert(rest.len() == PACKET_HEADER_LEN + w.packet.data@.len());
}

/// The checksum domain of the fields parsed from an 8-byte wire header is a
/// fixed permutation of those wire bytes: each big-endian field contributes
/// its two bytes, swapped into little-endian order.
pub proof fn lemma_checksum_input_of_wire(r: Seq<u8>)
    requires
        r.len() >= PACKET_HEADER_LEN,
        spec_u16_from_be(r[4], r[5]) <= MAX_COMMAND,
    ensures
        spec_checksum_input(
            spec_u16_from_be(r[0], r[1]),
            spec_u16_from_be(r[2], r[3]),
            Command::spec_from_ordinal(spec_u16_from_be(r[4], r[5])),
            spec_u16_from_be(r[6], r[7]),
        ) == seq![r[1], r[0], r[3], r[2], r[5], r[4], r[7], r[6]],
{
    lemma_le_of_be(r[0], r[1]);
    lemma_le_of_be(r[2], r[3]);
    lemma_le_of_be(r[4], r[5]);
    lemma_le_of_be(r[6], r[7]);
    lemma_command_from_ordinal_roundtrip(spec_u16_from_be(r[4], r[5]));
    assert(spec_checksum_input(
        spec_u16_from_be(r[0], r[1]),
        spec_u16_from_be(r[2], r[3]),
        Command::spec_from_ordinal(spec_u16_from_be(r[4], r[5])),
        spec_u16_from_be(r[6], r[7]),
    ) =~= seq![r[1], r[0], r[3], r[2], r[5], r[4], r[7], r[6]]);
}

/// A single bit flip anywhere in an 8-byte packet header whose declared
/// payload length exactly fills the region makes the packet parse fail, or
/// parse to fields whose consumed length or recomputed checksum no longer
/// matches. `provided` is the checksum of the unflipped header.
proof fn lemma_tampered_header_rejected(rs: Seq<u8>, j: int, k: u8, provided: u16)
    requires
        rs.len() == PACKET_HEADER_LEN + spec_u16_from_be(rs[0], rs[1]),
        spec_u16_from_be(rs[4], rs[5]) <= MAX_COMMAND,
        provided == spec_header_checksum(
            spec_u16_from_be(rs[0], rs[1]),
            spec_u16_from_be(rs[2], rs[3]),
            Command::spec_from_ordinal(spec_u16_from_be(rs[4], rs[5])),
            spec_u16_from_be(rs[6], rs[7]),
        ),
        0 <= j < PACKET_HEADER_LEN,
        k < 8,
    ensures
        ({
            let rt = rs.update(j, flip_bit(rs[j], k));
            match spec_decode_packet(rt) {
                Ok(f) => PACKET_HEADER_LEN + f.3.len() != rt.len() || spec_header_checksum(
                    f.3.len() as u16,
                    f.0,
                    f.1,
                    f.2,
                ) != provided,
                Err(_) => true,
            }
        }),
{
    let rt = rs.update(j, flip_bit(rs[j], k));
    let dl_s = spec_u16_from_be(rs[0], rs[1]);
    assert(rs[4] == 0) by {
        assert(spec_u16_from_be(rs[4], rs[5]) >= 256 * rs[4]);
    }
    if j == 0 || j == 1 {
        // the declared payload length changed, but the region did not
        lemma_flip_bit_changes(rs[j], k);
        lemma_u16_from_be_injective(rt[0], rt[1], rs[0], rs[1]);
        let dl_t = spec_u16_from_be(rt[0], rt[1]);
        if dl_t <= rt.len() - PACKET_HEADER_LEN {
            assert(rt.subrange(PACKET_HEADER_LEN as int, PACKET_HEADER_LEN + dl_t).len()
                == dl_t as int);
        }
    } else if j == 4 {
        // the command's high byte is zero on the wire; any flip pushes the
        // ordinal out of range
        lemma_flip_bit_changes(rs[4], k);
        assert(spec_u16_from_be(rt[4], rt[5]) >= 256 * rt[4]);
    } else {
        let cmd_t = spec_u16_from_be(rt[4], rt[5]);
        if cmd_t <= MAX_COMMAND {
            // the structure parses as before; the checksum domain differs
            // from the original in exactly one byte, by one flipped bit
            let pos: int = if j == 2 {
                3
            } else if j == 3 {
                2
            } else if j == 5 {
                4
            } else if j == 6 {
                7
            } else {
                6
            };
            assert(rt.subrange(PACKET_HEADER_LEN as int, PACKET_HEADER_LEN + dl_s).len()
                == dl_s as int);
            lemma_checksum_input_of_wire(rs);
            lemma_checksum_input_of_wire(rt);
            let input_s = spec_checksum_input(
                dl_s,
                spec_u16_from_be(rs[2], rs[3]),
                Command::spec_from_ordinal(spec_u16_from_be(rs[4], rs[5])),
                spec_u16_from_be(rs[6], rs[7]),
            );
            let input_t = spec_checksum_input(
                spec_u16_from_be(rt[0], rt[1]),
                spec_u16_from_be(rt[2], rt[3]),
                Command::spec_from_ordinal(cmd_t),
                spec_u16_from_be(rt[6], rt[7]),
            );
            assert(input_t =~= input_s.update(pos, flip_bit(input_s[pos], k)));
            lemma_fletcher_detects_bit_flip(input_s, pos, k);
        }
    }
}

/// Tamper detection: flipping any single bit within the inner packet's
/// 8-byte header of a valid encoded wrapper makes decoding fail. A flip in
/// the length field breaks the declared lengths, one in the command field
/// yields an invalid ordinal or a checksum mismatch, and one in the sequence
/// or handle fields always disagrees with the transmitted checksum; the
/// corrupted envelope is never silently accepted.
pub proof fn lemma_tamper_detected<'a>(w: Wrapper<'a>, i: int, k: u8)
    requires
        w.wf(),
        WRAPPER_HEADER_LEN <= i < WRAPPER_HEADER_LEN + PACKET_HEADER_LEN,
        k < 8,
    ensures
        spec_decode_wrapper(
            spec_wrapper_bytes(w).update(i, flip_bit(spec_wrapper_bytes(w)[i], k)),
        ) is Err,
{
    let s = spec_wrapper_bytes(w);
    let t = s.update(i, flip_bit(s[i], k));
    let total = w.spec_total_len();
    assert(s.len() == total);
    lemma_be_bytes_roundtrip(total as u16);
    assert(spec_u16_from_be(t[0], t[1]) == total);

    let body_s = s.subrange(2, total);
    let body_t = t.subrange(2, total);
    assert(body_s =~= spec_be_bytes_u16(w.sequence_number.0) + spec_be_bytes_u16(w.ack_number.0)
        + spec_be_bytes_u16(w.packet.spec_checksum()) + seq![w.type_.spec_ordinal()]
        + spec_packet_bytes(w.packet));
    assert(body_t =~= body_s.update(i - 2, flip_bit(s[i], k)));

    lemma_be_bytes_roundtrip(w.packet.spec_checksum());
    lemma_wrapper_type_ordinal_roundtrip(w.type_);
    assert(spec_u16_from_be(body_t[4], body_t[5]) == w.packet.spec_checksum());
    assert(body_t[6] == w.type_.spec_ordinal());

    let rs = body_s.subrange(7, body_s.len() as int);
    let rt = body_t.subrange(7, body_t.len() as int);
    assert(rs =~= spec_packet_bytes(w.packet));
    let j = i - WRAPPER_HEADER_LEN;
    assert(rt =~= rs.update(j, flip_bit(rs[j], k)));

    let data_len_v = w.packet.data@.len() as u16;
    lemma_be_bytes_roundtrip(data_len_v);
    lemma_be_bytes_roundtrip(w.packet.sequence_number.0);
    lemma_be_bytes_roundtrip(w.packet.command.spec_ordinal());
    lemma_be_bytes_roundtrip(w.packet.handle.0);
    lemma_command_ordinal_roundtrip(w.packet.command);
    assert(spec_u16_from_be(rs[0], rs[1]) == data_len_v);
    assert(spec_u16_from_be(rs[2], rs[3]) == w.packet.sequence_number.0);
    assert(spec_u16_from_be(rs[4], rs[5]) == w.packet.command.spec_ordinal());
    assert(spec_u16_from_be(rs[6], rs[7]) == w.packet.handle.0);

    lemma_tampered_header_rejected(rs, j, k, w.packet.spec_checksum());
}

} // verus!
