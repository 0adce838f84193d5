use claud_coin::wire::{
    bytes32_eq, push_bool, push_bytes, push_bytes32, push_i64_le, push_u16_le, push_u32_le,
    push_u64_le, read_bytes32, read_i64_le, read_u16_le, read_u32_le, read_u64_le,
};

#[test]
fn integers_are_read_lowest_byte_first() {
    let data = [0xaa, 0x34, 0x12, 0x78, 0x56, 0xbc, 0x9a, 0xf0, 0xde, 0x01];
    assert_eq!(read_u16_le(&data, 1), 0x1234);
    assert_eq!(read_u32_le(&data, 1), 0x5678_1234);
    assert_eq!(read_u64_le(&data, 1), 0xdef0_9abc_5678_1234);
    assert_eq!(read_u64_le(&data, 2), 0x01de_f09a_bc56_7812);
}

#[test]
fn integers_are_read_at_the_ends_of_the_range() {
    assert_eq!(read_u16_le(&[0, 0], 0), 0);
    assert_eq!(read_u16_le(&[0xff, 0xff], 0), u16::MAX);
    assert_eq!(read_u32_le(&[0xff; 4], 0), u32::MAX);
    assert_eq!(read_u64_le(&[0; 8], 0), 0);
    assert_eq!(read_u64_le(&[0xff; 8], 0), u64::MAX);
    assert_eq!(read_i64_le(&[0xff; 8], 0), -1);
    assert_eq!(read_i64_le(&[0, 0, 0, 0, 0, 0, 0, 0x80], 0), i64::MIN);
    assert_eq!(read_i64_le(&[0xff, 0xff, 0xff, 0xff, 0xff, 0xff, 0xff, 0x7f], 0), i64::MAX);
    assert_eq!(read_i64_le(&[0xc4, 0xff, 0xff, 0xff, 0xff, 0xff, 0xff, 0xff], 0), -60);
}

#[test]
fn integers_are_written_as_the_standard_library_writes_them() {
    for value in [0u64, 1, 255, 256, 0x0123_4567_89ab_cdef, u64::MAX] {
        let mut out = vec![7];
        push_u64_le(&mut out, value);
        assert_eq!(&out[1..], &value.to_le_bytes()[..]);
        assert_eq!(out[0], 7);
        assert_eq!(read_u64_le(&out, 1), value);
    }
    for value in [0u32, 1, 0x0102_0304, u32::MAX] {
        let mut out = vec![];
        push_u32_le(&mut out, value);
        assert_eq!(out, value.to_le_bytes());
        assert_eq!(read_u32_le(&out, 0), value);
    }
    for value in [0u16, 1, 1000, 0x1234, u16::MAX] {
        let mut out = vec![];
        push_u16_le(&mut out, value);
        assert_eq!(out, value.to_le_bytes());
        assert_eq!(read_u16_le(&out, 0), value);
    }
    for value in [i64::MIN, -61, -1, 0, 1, 60, i64::MAX] {
        let mut out = vec![];
        push_i64_le(&mut out, value);
        assert_eq!(out, value.to_le_bytes());
        assert_eq!(read_i64_le(&out, 0), value);
    }
}

#[test]
fn booleans_and_bytes_are_appended() {
    let mut out = vec![];
    push_bool(&mut out, true);
    push_bool(&mut out, false);
    push_bytes(&mut out, &[5, 6]);
    push_bytes(&mut out, &[]);
    assert_eq!(out, vec![1, 0, 5, 6]);
}

#[test]
fn identifiers_are_copied_byte_for_byte() {
    let mut id = [0u8; 32];
    for (i, byte) in id.iter_mut().enumerate() {
        *byte = 200u8.wrapping_add(i as u8);
    }
    let mut out = vec![9];
    push_bytes32(&mut out, &id);
    out.push(9);
    assert_eq!(out.len(), 34);
    assert_eq!(read_bytes32(&out, 1), id);
    assert_eq!(&out[1..33], &id[..]);
}

#[test]
fn identifiers_are_equal_when_every_byte_is() {
    let a = [4u8; 32];
    let mut b = a;
    assert!(bytes32_eq(&a, &b));
    b[31] = 5;
    assert!(!bytes32_eq(&a, &b));
    b[31] = 4;
    b[0] = 0;
    assert!(!bytes32_eq(&a, &b));
}
