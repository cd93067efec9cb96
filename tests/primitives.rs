use qcow::bytes::{
    read_exact_at, read_string_at, read_u16_at, read_u32_at, read_u64_at, read_u8_at,
};
use qcow::ParseError;

#[test]
fn big_endian_reads() {
    let d = [0x01u8, 0x02, 0x03, 0x04, 0x05, 0x06, 0x07, 0x08, 0x09];
    assert_eq!(read_u8_at(&d, 8), Ok(0x09));
    assert_eq!(read_u16_at(&d, 1), Ok(0x0203));
    assert_eq!(read_u32_at(&d, 0), Ok(0x01020304));
    assert_eq!(read_u64_at(&d, 1), Ok(0x0203040506070809));
    assert_eq!(read_u64_at(&d, 2), Err(ParseError::Truncated));
    assert_eq!(read_u8_at(&d, 9), Err(ParseError::Truncated));
    assert_eq!(read_u32_at(&d, u64::MAX), Err(ParseError::Truncated));
}

#[test]
fn exact_and_string_reads() {
    let d = b"xxhello\0\0yy";
    assert_eq!(read_exact_at(d, 2, 5), Ok(b"hello".to_vec()));
    assert_eq!(read_exact_at(d, 8, 4), Err(ParseError::Truncated));
    assert_eq!(read_string_at(d, 2, 7), Ok("hello".to_string()));
    assert_eq!(read_string_at(d, 7, 2), Ok(String::new()));
    assert_eq!(read_string_at(b"a\xffb", 0, 3), Ok("a\u{fffd}b".to_string()));
}
