use multisig::address::{address_eq, empty_address, is_empty_address, read_address};
use multisig::codec::{put_bytes, put_flag, put_flags, put_u64_le, read_u64_le, u64_to_le};

#[test]
fn u64_is_written_least_significant_byte_first() {
    assert_eq!(u64_to_le(0), [0u8; 8]);
    assert_eq!(u64_to_le(1), [1, 0, 0, 0, 0, 0, 0, 0]);
    assert_eq!(u64_to_le(1000), [232, 3, 0, 0, 0, 0, 0, 0]);
    assert_eq!(u64_to_le(0x0102_0304_0506_0708), [8, 7, 6, 5, 4, 3, 2, 1]);
    assert_eq!(u64_to_le(u64::MAX), [255u8; 8]);
}

#[test]
fn u64_is_read_least_significant_byte_first() {
    assert_eq!(read_u64_le(&[0, 0, 0, 0, 0, 0, 0, 0], 0), 0);
    assert_eq!(read_u64_le(&[232, 3, 0, 0, 0, 0, 0, 0], 0), 1000);
    assert_eq!(read_u64_le(&[8, 7, 6, 5, 4, 3, 2, 1], 0), 0x0102_0304_0506_0708);
    assert_eq!(read_u64_le(&[255u8; 8], 0), u64::MAX);
}

#[test]
fn u64_is_read_at_an_offset() {
    let data = [9u8, 9, 1, 2, 0, 0, 0, 0, 0, 0, 9];
    assert_eq!(read_u64_le(&data, 2), 513);
    assert_eq!(read_u64_le(&data, 3), 2 + (9 << 56));
    assert_eq!(read_u64_le(&data, 0), 9 + (9 << 8) + (1 << 16) + (2 << 24));
}

#[test]
fn u64_agrees_with_the_standard_encoding() {
    for x in [0u64, 1, 255, 256, 65_535, 65_536, 1 << 32, (1 << 56) + 3, u64::MAX - 1, u64::MAX] {
        assert_eq!(u64_to_le(x), x.to_le_bytes());
        assert_eq!(read_u64_le(&x.to_le_bytes(), 0), x);
    }
}

#[test]
fn put_helpers_append() {
    let mut out = vec![7u8];
    put_bytes(&mut out, &[1, 2, 3]);
    assert_eq!(out, vec![7, 1, 2, 3]);
    put_u64_le(&mut out, 258);
    assert_eq!(out, vec![7, 1, 2, 3, 2, 1, 0, 0, 0, 0, 0, 0]);
    put_flag(&mut out, true);
    put_flag(&mut out, false);
    put_flags(&mut out, &[false, true, true]);
    assert_eq!(&out[12..], &[1, 0, 0, 1, 1]);
    put_bytes(&mut out, &[]);
    assert_eq!(out.len(), 17);
}

#[test]
fn addresses_are_compared_by_value() {
    let a = [3u8; 32];
    let mut b = [3u8; 32];
    assert!(address_eq(&a, &b));
    b[31] = 4;
    assert!(!address_eq(&a, &b));
    b[31] = 3;
    b[0] = 0;
    assert!(!address_eq(&a, &b));
}

#[test]
fn the_sentinel_is_all_zero() {
    assert_eq!(empty_address(), [0u8; 32]);
    assert!(is_empty_address(&[0u8; 32]));
    let mut a = [0u8; 32];
    a[17] = 1;
    assert!(!is_empty_address(&a));
}

#[test]
fn an_address_is_read_at_an_offset() {
    let mut data = vec![0u8; 40];
    for (i, byte) in data.iter_mut().enumerate() {
        *byte = i as u8;
    }
    let a = read_address(&data, 5);
    for i in 0..32 {
        assert_eq!(a[i], (i + 5) as u8);
    }
    assert_eq!(read_address(&data, 8)[31], 39);
}
