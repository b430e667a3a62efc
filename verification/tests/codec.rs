use wireproto::de::{decode_packet, decode_wrapper, check_checksum, DecodeError};
use wireproto::packet::{Checksum, Command, Handle, Packet, SequenceNumber};
use wireproto::ser::{BufferTooShortError, Serialize};
use wireproto::wrapper::{AckNumber, Wrapper, WrapperType};

fn sample_packet(data: &[u8]) -> Packet<'_> {
    Packet {
        sequence_number: SequenceNumber(42),
        command: Command::EchoReply,
        handle: Handle(43),
        data,
    }
}

fn sample_wrapper(data: &[u8]) -> Wrapper<'_> {
    Wrapper {
        sequence_number: wireproto::wrapper::SequenceNumber(44),
        ack_number: AckNumber(45),
        type_: WrapperType::DATA,
        packet: sample_packet(data),
    }
}

#[test]
fn packet_scenario_bytes() {
    let payload = [1u8, 2, 3, 4, 5];
    let p = sample_packet(&payload);
    let mut buf = [0u8; 64];
    let written = p.to_net_bytes_buf(&mut buf).unwrap();
    assert_eq!(written, 13);
    assert_eq!(&buf[..13], &[0, 5, 0, 42, 0, 3, 0, 43, 1, 2, 3, 4, 5]);
    assert!(buf[13..].iter().all(|b| *b == 0));
}

#[test]
fn packet_round_trip() {
    let payload = [10u8, 20, 30];
    let p = sample_packet(&payload);
    let mut buf = [0u8; 32];
    let written = p.to_net_bytes_buf(&mut buf).unwrap();
    let q = decode_packet(&buf[..written]).unwrap();
    assert_eq!(p, q);
    assert_eq!(q.data, &payload);
}

#[test]
fn packet_encode_buffer_too_short() {
    let payload = [1u8, 2, 3, 4, 5];
    let p = sample_packet(&payload);
    let mut buf = [7u8; 12];
    let e = p.to_net_bytes_buf(&mut buf).unwrap_err();
    assert_eq!(e, BufferTooShortError { expected: 13, actual: 12 });
    // nothing was written
    assert_eq!(buf, [7u8; 12]);
}

#[test]
fn packet_decode_truncated_header() {
    assert_eq!(decode_packet(&[]), Err(DecodeError::Truncated));
    assert_eq!(decode_packet(&[0, 0, 0, 1, 0, 2, 0]), Err(DecodeError::Truncated));
}

#[test]
fn packet_decode_truncated_payload() {
    // declares 5 payload bytes but carries 2
    let bytes = [0u8, 5, 0, 42, 0, 3, 0, 43, 1, 2];
    assert_eq!(decode_packet(&bytes), Err(DecodeError::Truncated));
}

#[test]
fn packet_decode_invalid_command() {
    let bytes = [0u8, 0, 0, 42, 0, 7, 0, 43];
    assert_eq!(decode_packet(&bytes), Err(DecodeError::InvalidCommand(7)));
    let bytes = [0u8, 0, 0, 42, 255, 255, 0, 43];
    assert_eq!(decode_packet(&bytes), Err(DecodeError::InvalidCommand(65535)));
}

#[test]
fn wrapper_round_trip() {
    let payload = [1u8, 2, 3, 4, 5];
    let w = sample_wrapper(&payload);
    let mut buf = [0u8; 64];
    let written = w.to_net_bytes_buf(&mut buf).unwrap();
    assert_eq!(written, 22);
    let v = decode_wrapper(&buf[..written]).unwrap();
    assert_eq!(w.sequence_number, v.sequence_number);
    assert_eq!(w.ack_number, v.ack_number);
    assert_eq!(w.type_, v.type_);
    assert_eq!(w.packet, v.packet);
}

#[test]
fn wrapper_round_trip_empty_payload() {
    let w = sample_wrapper(&[]);
    let mut buf = [0u8; 17];
    let written = w.to_net_bytes_buf(&mut buf).unwrap();
    assert_eq!(written, 17);
    let v = decode_wrapper(&buf).unwrap();
    assert_eq!(w, v);
}

#[test]
fn wrapper_round_trip_largest_payload() {
    let payload = vec![0xa5u8; 65518];
    let w = sample_wrapper(&payload);
    let mut buf = vec![0u8; 65535];
    let written = w.to_net_bytes_buf(&mut buf).unwrap();
    assert_eq!(written, 65535);
    let v = decode_wrapper(&buf).unwrap();
    assert_eq!(w, v);
}

#[test]
fn wrapper_encode_buffer_too_short() {
    let payload = [1u8, 2, 3, 4, 5];
    let w = sample_wrapper(&payload);
    let mut buf = [0u8; 21];
    let e = w.to_net_bytes_buf(&mut buf).unwrap_err();
    assert_eq!(e, BufferTooShortError { expected: 22, actual: 21 });
    assert_eq!(buf, [0u8; 21]);
}

#[test]
fn wrapper_decode_invalid_type() {
    let payload = [1u8, 2, 3, 4, 5];
    let w = sample_wrapper(&payload);
    let mut buf = [0u8; 22];
    w.to_net_bytes_buf(&mut buf).unwrap();
    buf[8] = 3;
    assert_eq!(decode_wrapper(&buf), Err(DecodeError::InvalidWrapperType(3)));
}

#[test]
fn wrapper_decode_invalid_command() {
    let payload = [1u8, 2, 3, 4, 5];
    let w = sample_wrapper(&payload);
    let mut buf = [0u8; 22];
    w.to_net_bytes_buf(&mut buf).unwrap();
    // the command field sits at bytes 13..15 of the wire form
    buf[13] = 0;
    buf[14] = 7;
    assert_eq!(decode_wrapper(&buf), Err(DecodeError::InvalidCommand(7)));
}

#[test]
fn wrapper_decode_truncated() {
    let payload = [1u8, 2, 3, 4, 5];
    let w = sample_wrapper(&payload);
    let mut buf = [0u8; 22];
    w.to_net_bytes_buf(&mut buf).unwrap();
    assert_eq!(decode_wrapper(&[]), Err(DecodeError::Truncated));
    assert_eq!(decode_wrapper(&buf[..1]), Err(DecodeError::Truncated));
    // the declared total length exceeds what was handed in
    assert_eq!(decode_wrapper(&buf[..21]), Err(DecodeError::Truncated));
}

#[test]
fn wrapper_decode_length_mismatch() {
    let payload = [1u8, 2, 3, 4, 5];
    let w = sample_wrapper(&payload);
    let mut buf = [0u8; 23];
    w.to_net_bytes_buf(&mut buf).unwrap();
    // the outer length claims one byte more than the nested fields consume
    buf[1] = 23;
    assert_eq!(decode_wrapper(&buf), Err(DecodeError::LengthMismatch));
    // an outer length shorter than its own envelope header
    buf[1] = 5;
    assert_eq!(decode_wrapper(&buf), Err(DecodeError::LengthMismatch));
    // an outer length that cannot even cover the length field itself
    buf[1] = 1;
    assert_eq!(decode_wrapper(&buf), Err(DecodeError::LengthMismatch));
}

#[test]
fn wrapper_decode_checksum_mismatch() {
    let payload = [1u8, 2, 3, 4, 5];
    let w = sample_wrapper(&payload);
    let mut buf = [0u8; 22];
    w.to_net_bytes_buf(&mut buf).unwrap();
    // corrupt the transmitted checksum itself
    buf[7] ^= 1;
    match decode_wrapper(&buf) {
        Err(DecodeError::ChecksumMismatch(e)) => {
            assert_eq!(e.computed, w.packet.checksum());
            assert_ne!(e.provided, e.computed);
        }
        other => panic!("expected a checksum mismatch, got {:?}", other),
    }
}

#[test]
fn tampering_with_the_inner_header_is_detected() {
    let payload = [1u8, 2, 3, 4, 5];
    let w = sample_wrapper(&payload);
    let mut encoded = [0u8; 22];
    w.to_net_bytes_buf(&mut encoded).unwrap();
    // flipping any single bit of the inner 8-byte header must fail the decode
    for byte in 9..17 {
        for bit in 0..8 {
            let mut tampered = encoded;
            tampered[byte] ^= 1 << bit;
            assert!(decode_wrapper(&tampered).is_err(), "byte {} bit {}", byte, bit);
        }
    }
    // a flip in the sequence field in particular fails as a checksum mismatch
    let mut tampered = encoded;
    tampered[11] ^= 1;
    assert!(matches!(decode_wrapper(&tampered), Err(DecodeError::ChecksumMismatch(_))));
}

#[test]
fn trailing_bytes_are_ignored() {
    let payload = [1u8, 2, 3];
    let w = sample_wrapper(&payload);
    let mut buf = [0u8; 40];
    let written = w.to_net_bytes_buf(&mut buf).unwrap();
    assert_eq!(written, 20);
    let v = decode_wrapper(&buf).unwrap();
    assert_eq!(w, v);
}

#[test]
fn check_checksum_accepts_and_rejects() {
    let payload = [1u8, 2];
    let w = sample_wrapper(&payload);
    let good = w.packet.checksum();
    assert_eq!(check_checksum((w, good)), Ok(w));
    let bad = Checksum(good.0 ^ 0xffff);
    let e = check_checksum((w, bad)).unwrap_err();
    assert_eq!(e.provided, bad);
    assert_eq!(e.computed, good);
}

#[test]
fn serialize_matches_buffer_encoding() {
    let payload = [1u8, 2, 3, 4, 5];
    let p = sample_packet(&payload);
    let mut out: Vec<u8> = Vec::new();
    p.write_net_bytes(&mut out);
    let mut buf = [0u8; 13];
    p.to_net_bytes_buf(&mut buf).unwrap();
    assert_eq!(out, buf.to_vec());

    let w = sample_wrapper(&payload);
    let mut wout: Vec<u8> = vec![0xee];
    w.write_net_bytes(&mut wout);
    let mut wbuf = [0u8; 22];
    w.to_net_bytes_buf(&mut wbuf).unwrap();
    assert_eq!(wout[0], 0xee);
    assert_eq!(&wout[1..], &wbuf);
    let v = decode_wrapper(&wout[1..]).unwrap();
    assert_eq!(w, v);
}

#[test]
fn wrapper_type_try_from() {
    for i in 0u8..=2 {
        let t = WrapperType::try_from(i).unwrap();
        assert_eq!(t.ordinal(), i);
    }
    assert_eq!(WrapperType::try_from(3).unwrap_err().0, 3);
    assert_eq!(WrapperType::try_from(255).unwrap_err().0, 255);
}
