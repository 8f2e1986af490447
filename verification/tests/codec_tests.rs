use echors::codec::bytes_of;
use echors::codec::decimal;
use echors::codec::i32_from_le;
use echors::codec::i32_to_le;
use echors::codec::push_all;
use echors::codec::u16_from_le;
use echors::codec::u32_from_le;
use echors::codec::u32_to_le;
use echors::codec::u64_from_le;
use echors::codec::u64_to_le;

#[test]
fn int_bytes_round_trip() {
    for n in [0i32, 1, -1, 255, 256, i32::MAX, i32::MIN, -123456, 0x01020304] {
        let b = i32_to_le(n);
        assert_eq!(b, n.to_le_bytes());
        assert_eq!(i32_from_le(b[0], b[1], b[2], b[3]), n);
    }
}

#[test]
fn int_bytes_exact() {
    assert_eq!(i32_to_le(1), [1, 0, 0, 0]);
    assert_eq!(i32_to_le(-1), [255, 255, 255, 255]);
    assert_eq!(i32_to_le(i32::MIN), [0, 0, 0, 128]);
    assert_eq!(i32_to_le(0x01020304), [4, 3, 2, 1]);
    assert_eq!(i32_from_le(0xFE, 0xFF, 0xFF, 0xFF), -2);
}

#[test]
fn word_bytes_exact() {
    assert_eq!(u32_to_le(0), [0, 0, 0, 0]);
    assert_eq!(u32_to_le(0xDEADBEEF), [0xEF, 0xBE, 0xAD, 0xDE]);
    assert_eq!(u32_from_le(0xEF, 0xBE, 0xAD, 0xDE), 0xDEADBEEF);
    assert_eq!(u32_from_le(255, 255, 255, 255), u32::MAX);
    assert_eq!(u16_from_le(0x34, 0x12), 0x1234);
    assert_eq!(u16_from_le(255, 255), u16::MAX);
}

#[test]
fn long_bytes_exact() {
    assert_eq!(u64_to_le(0x0102030405060708), [8, 7, 6, 5, 4, 3, 2, 1]);
    assert_eq!(u64_to_le(u64::MAX), [255; 8]);
    assert_eq!(u64_from_le(&[8, 7, 6, 5, 4, 3, 2, 1]), 0x0102030405060708);
    for x in [0u64, 1, 1 << 32, u64::MAX, 1_700_000_000_000] {
        assert_eq!(u64_to_le(x), x.to_le_bytes());
        assert_eq!(u64_from_le(&u64_to_le(x)), x);
    }
}

#[test]
fn bytes_are_copied_and_appended() {
    let v = bytes_of(&[1, 2, 3]);
    assert_eq!(v, vec![1, 2, 3]);
    let mut w = vec![9u8];
    push_all(&mut w, &v);
    push_all(&mut w, &[]);
    assert_eq!(w, vec![9, 1, 2, 3]);
}

#[test]
fn decimal_text_exact() {
    assert_eq!(decimal(0), "0");
    assert_eq!(decimal(7), "7");
    assert_eq!(decimal(10), "10");
    assert_eq!(decimal(1234567890), "1234567890");
    assert_eq!(decimal(u64::MAX), "18446744073709551615");
}
