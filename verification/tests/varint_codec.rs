use mc_motd::varint::{put_varint, read_varint, VarIntError, MAX_VARINT_LEN};

fn encode(val: i32) -> Vec<u8> {
    let mut buf = Vec::new();
    put_varint(&mut buf, val);
    buf
}

#[test]
fn encodes_known_values() {
    assert_eq!(encode(0), vec![0x00]);
    assert_eq!(encode(1), vec![0x01]);
    assert_eq!(encode(2), vec![0x02]);
    assert_eq!(encode(127), vec![0x7f]);
    assert_eq!(encode(128), vec![0x80, 0x01]);
    assert_eq!(encode(255), vec![0xff, 0x01]);
    assert_eq!(encode(300), vec![0xac, 0x02]);
    assert_eq!(encode(575), vec![0xbf, 0x04]);
    assert_eq!(encode(25565), vec![0xdd, 0xc7, 0x01]);
    assert_eq!(encode(2097151), vec![0xff, 0xff, 0x7f]);
    assert_eq!(encode(2147483647), vec![0xff, 0xff, 0xff, 0xff, 0x07]);
}

#[test]
fn encodes_negative_values_in_five_bytes() {
    assert_eq!(encode(-1), vec![0xff, 0xff, 0xff, 0xff, 0x0f]);
    assert_eq!(encode(-2147483648), vec![0x80, 0x80, 0x80, 0x80, 0x08]);
}

#[test]
fn appends_to_what_the_buffer_holds() {
    let mut buf = vec![0xaa, 0xbb];
    put_varint(&mut buf, 128);
    assert_eq!(buf, vec![0xaa, 0xbb, 0x80, 0x01]);
    put_varint(&mut buf, 0);
    assert_eq!(buf, vec![0xaa, 0xbb, 0x80, 0x01, 0x00]);
}

#[test]
fn decodes_known_values() {
    assert_eq!(read_varint(&[0x00], 0), Ok((0, 1)));
    assert_eq!(read_varint(&[0x7f], 0), Ok((127, 1)));
    assert_eq!(read_varint(&[0x80, 0x01], 0), Ok((128, 2)));
    assert_eq!(read_varint(&[0xdd, 0xc7, 0x01], 0), Ok((25565, 3)));
    assert_eq!(read_varint(&[0xff, 0xff, 0xff, 0xff, 0x07], 0), Ok((2147483647, 5)));
    assert_eq!(read_varint(&[0xff, 0xff, 0xff, 0xff, 0x0f], 0), Ok((-1, 5)));
    assert_eq!(read_varint(&[0x80, 0x80, 0x80, 0x80, 0x08], 0), Ok((-2147483648, 5)));
}

#[test]
fn decodes_from_an_offset_and_stops_at_the_end_of_the_integer() {
    let data = [0xaa, 0xac, 0x02, 0x05, 0x06];
    assert_eq!(read_varint(&data, 1), Ok((300, 3)));
    assert_eq!(read_varint(&data, 3), Ok((5, 4)));
    assert_eq!(read_varint(&data, 4), Ok((6, 5)));
}

#[test]
fn the_high_bits_of_a_fifth_byte_are_dropped() {
    assert_eq!(read_varint(&[0x80, 0x80, 0x80, 0x80, 0x7f], 0), Ok((-268435456, 5)));
    assert_eq!(read_varint(&[0x81, 0x80, 0x80, 0x80, 0x10], 0), Ok((1, 5)));
}

#[test]
fn a_padded_encoding_decodes_to_its_value() {
    assert_eq!(read_varint(&[0x81, 0x00], 0), Ok((1, 2)));
    assert_eq!(read_varint(&[0x80, 0x80, 0x00], 0), Ok((0, 3)));
}

#[test]
fn truncated_input_is_reported() {
    assert_eq!(read_varint(&[], 0), Err(VarIntError::Truncated));
    assert_eq!(read_varint(&[0x80], 0), Err(VarIntError::Truncated));
    assert_eq!(read_varint(&[0xff, 0xff, 0xff, 0xff], 0), Err(VarIntError::Truncated));
    assert_eq!(read_varint(&[0x01], 1), Err(VarIntError::Truncated));
    assert_eq!(read_varint(&[0x01], 2), Err(VarIntError::Truncated));
    assert_eq!(read_varint(&[0x01], usize::MAX), Err(VarIntError::Truncated));
}

#[test]
fn six_continuation_bytes_fail() {
    assert_eq!(
        read_varint(&[0xff, 0xff, 0xff, 0xff, 0xff, 0xff], 0),
        Err(VarIntError::TooLarge)
    );
    assert_eq!(
        read_varint(&[0x80, 0x80, 0x80, 0x80, 0x80, 0x80], 0),
        Err(VarIntError::TooLarge)
    );
    assert_eq!(
        read_varint(&[0x80, 0x80, 0x80, 0x80, 0x80, 0x01], 0),
        Err(VarIntError::TooLarge)
    );
    assert_eq!(read_varint(&[0x80, 0x80, 0x80, 0x80, 0x80], 0), Err(VarIntError::TooLarge));
}

#[test]
fn round_trips_non_negative_values() {
    let mut samples: Vec<i32> = vec![0, 1, 2, 126, 127, 128, 129, 255, 256, 16383, 16384];
    samples.extend([2097151, 2097152, 268435455, 268435456, i32::MAX - 1, i32::MAX]);
    let mut x: i64 = 3;
    while x <= i32::MAX as i64 {
        samples.push(x as i32);
        x = x * 7 + 5;
    }
    for val in samples {
        let bytes = encode(val);
        assert!(bytes.len() >= 1 && bytes.len() <= MAX_VARINT_LEN);
        assert_eq!(read_varint(&bytes, 0), Ok((val, bytes.len())));
    }
}

#[test]
fn round_trips_negative_values() {
    for val in [-1, -2, -128, -129, -25565, i32::MIN + 1, i32::MIN] {
        let bytes = encode(val);
        assert_eq!(bytes.len(), 5);
        assert_eq!(read_varint(&bytes, 0), Ok((val, 5)));
    }
}

#[test]
fn round_trips_with_bytes_following() {
    for val in [0, 300, 25565, i32::MAX, -1] {
        let mut bytes = encode(val);
        let len = bytes.len();
        bytes.extend([0xff, 0x80, 0x00]);
        assert_eq!(read_varint(&bytes, 0), Ok((val, len)));
    }
}
