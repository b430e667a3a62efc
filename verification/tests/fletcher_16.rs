use wireproto::fletcher_16::{fletcher_16, Fletcher16Hasher};

#[test]
fn test_vector_1() {
    assert_eq!(51440, fletcher_16("abcde".as_bytes()));
}

#[test]
fn test_vector_2() {
    assert_eq!(8279, fletcher_16("abcdef".as_bytes()));
}

#[test]
fn test_vector_3() {
    assert_eq!(1575, fletcher_16("abcdefgh".as_bytes()));
}

#[test]
fn empty_input_checksum() {
    assert_eq!(0, fletcher_16(&[]));
}

#[test]
fn incremental_matches_one_shot() {
    let data = "abcdefgh".as_bytes();
    let mut hasher = Fletcher16Hasher::new();
    for b in data {
        hasher.write_u8(*b);
    }
    assert_eq!(fletcher_16(data), hasher.finish());
}

#[test]
fn chunking_does_not_change_the_checksum() {
    let data: Vec<u8> = (0u8..=255).chain(0u8..=99).collect();
    let one_shot = fletcher_16(&data);
    for split1 in [0usize, 1, 7, 100, 255, 356] {
        for split2 in [split1, split1 + 1, data.len() - 1, data.len()] {
            if split2 < split1 || split2 > data.len() {
                continue;
            }
            let mut hasher = Fletcher16Hasher::new();
            hasher.write_bytes(&data[..split1]);
            hasher.write_bytes(&data[split1..split2]);
            hasher.write_bytes(&data[split2..]);
            assert_eq!(one_shot, hasher.finish());
        }
    }
}

#[test]
fn write_u16_platform_feeds_low_byte_first() {
    let mut hasher = Fletcher16Hasher::new();
    hasher.write_u16_platform(0x1234);
    let mut by_bytes = Fletcher16Hasher::new();
    by_bytes.write_u8(0x34);
    by_bytes.write_u8(0x12);
    assert_eq!(by_bytes.finish(), hasher.finish());
    // and the order matters: the big-endian feed gives another result
    let mut be_order = Fletcher16Hasher::new();
    be_order.write_u8(0x12);
    be_order.write_u8(0x34);
    assert_ne!(be_order.finish(), hasher.finish());
}
