use wireproto::packet::{Command, Handle, Packet, SequenceNumber, MAX_COMMAND};

#[test]
fn command_is_sane() {
    for i in 0..MAX_COMMAND {
        let c = Command::try_from(i);
        assert!(c.is_ok());
        let c = c.unwrap();
        assert_eq!(c.ordinal(), i);
    }
}

#[test]
fn command_ctor_fails() {
    let c = Command::try_from(MAX_COMMAND + 1);
    assert!(c.is_err());
    let c = Command::try_from(u16::MAX);
    assert!(c.is_err());
}

#[test]
fn command_error_carries_the_value() {
    assert_eq!(Command::try_from(7).unwrap_err().0, 7);
}

#[test]
fn to_bytes_fits() {
    let p = Packet {
        sequence_number: SequenceNumber(1),
        command: Command::Unsupported,
        handle: Handle(1),
        data: &[],
    };
    let mut b = [0; 8];
    let x = p.to_net_bytes_buf(&mut b);
    assert!(x.is_ok());
}

#[test]
fn to_bytes_too_short() {
    let p = Packet {
        sequence_number: SequenceNumber(1),
        command: Command::Unsupported,
        handle: Handle(1),
        data: &[],
    };
    let mut b = [0; 2];
    let x = p.to_net_bytes_buf(&mut b);
    assert!(x.is_err());
}

#[test]
fn total_len_counts_header_and_payload() {
    let p = Packet {
        sequence_number: SequenceNumber(1),
        command: Command::Echo,
        handle: Handle(2),
        data: &[9, 9, 9],
    };
    assert_eq!(p.total_len(), 11);
}

#[test]
fn checksum_covers_the_header_only() {
    let a = Packet {
        sequence_number: SequenceNumber(7),
        command: Command::Echo,
        handle: Handle(8),
        data: &[1, 2, 3],
    };
    let b = Packet { data: &[4, 5, 6], ..a };
    // same header fields and payload length: same checksum
    assert_eq!(a.checksum(), b.checksum());
    // a changed header field changes the checksum
    let c = Packet { handle: Handle(9), ..a };
    assert_ne!(a.checksum(), c.checksum());
}
