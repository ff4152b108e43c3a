use fleascope_rs::text::{parse_hex_u32, parse_i32, push_decimal, push_hex2, push_signed_decimal};

#[test]
fn decimal_rendering() {
    let mut s = String::new();
    push_decimal(&mut s, 0);
    s.push(' ');
    push_decimal(&mut s, 1_048_560);
    s.push(' ');
    push_signed_decimal(&mut s, -38);
    s.push(' ');
    push_signed_decimal(&mut s, i64::MIN);
    assert_eq!(s, "0 1048560 -38 -9223372036854775808");
}

#[test]
fn hex_rendering_pads_to_two_digits() {
    let mut s = String::new();
    push_hex2(&mut s, 1);
    s.push(' ');
    push_hex2(&mut s, 0xab);
    s.push(' ');
    push_hex2(&mut s, 0x1ff);
    assert_eq!(s, "01 ab 1ff");
}

#[test]
fn integer_responses() {
    assert_eq!(parse_i32(&b" 1234\r\n".to_vec()), Some(1234));
    assert_eq!(parse_i32(&b"-7".to_vec()), Some(-7));
    assert_eq!(parse_i32(&b"+5".to_vec()), Some(5));
    assert_eq!(parse_i32(&b"2147483647".to_vec()), Some(i32::MAX));
    assert_eq!(parse_i32(&b"-2147483648".to_vec()), Some(i32::MIN));
    assert_eq!(parse_i32(&b"2147483648".to_vec()), None);
    assert_eq!(parse_i32(&b"99999999999999999999".to_vec()), None);
    assert_eq!(parse_i32(&b"".to_vec()), None);
    assert_eq!(parse_i32(&b"  \r\n".to_vec()), None);
    assert_eq!(parse_i32(&b"-".to_vec()), None);
    assert_eq!(parse_i32(&b"12 3".to_vec()), None);
    assert_eq!(parse_i32(&b"error: unknown var".to_vec()), None);
}

#[test]
fn hexadecimal_bitmaps() {
    assert_eq!(parse_hex_u32(b"0x1f"), Some(31));
    assert_eq!(parse_hex_u32(b"0x0x1F"), Some(31));
    assert_eq!(parse_hex_u32(b"+ff"), Some(255));
    assert_eq!(parse_hex_u32(b"ffffffff"), Some(u32::MAX));
    assert_eq!(parse_hex_u32(b"100000000"), None);
    assert_eq!(parse_hex_u32(b"0x"), None);
    assert_eq!(parse_hex_u32(b""), None);
    assert_eq!(parse_hex_u32(b"0xg1"), None);
    assert_eq!(parse_hex_u32(b"-1"), None);
}
