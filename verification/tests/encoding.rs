use session_auth::encoding::{
    constant_time_eq, decimal_decode, decimal_encode, hex_decode, hex_encode, split_first,
    unsigned_decode, unsigned_encode,
};

#[test]
fn hex_encode_is_lowercase_two_digits_per_byte() {
    assert_eq!(hex_encode(&[]), b"".to_vec());
    assert_eq!(hex_encode(&[0x00, 0x0f, 0xa5, 0xff]), b"000fa5ff".to_vec());
    assert_eq!(hex_encode(b"user-1"), b"757365722d31".to_vec());
}

#[test]
fn hex_decode_inverts_hex_encode() {
    let bytes: Vec<u8> = (0u8..=255).collect();
    assert_eq!(hex_decode(&hex_encode(&bytes)), Some(bytes));
}

#[test]
fn hex_decode_rejects_what_is_not_canonical() {
    assert_eq!(hex_decode(b"0"), None);
    assert_eq!(hex_decode(b"0g"), None);
    assert_eq!(hex_decode(b"0A"), None);
    assert_eq!(hex_decode(b"a."), None);
    assert_eq!(hex_decode(b" 0"), None);
    assert_eq!(hex_decode(b""), Some(vec![]));
    assert_eq!(hex_decode(b"0a"), Some(vec![10]));
}

#[test]
fn decimal_encode_writes_sign_and_digits() {
    assert_eq!(decimal_encode(0), b"0".to_vec());
    assert_eq!(decimal_encode(7), b"7".to_vec());
    assert_eq!(decimal_encode(-12), b"-12".to_vec());
    assert_eq!(decimal_encode(1_700_003_600), b"1700003600".to_vec());
    assert_eq!(decimal_encode(i64::MAX), b"9223372036854775807".to_vec());
    assert_eq!(decimal_encode(i64::MIN), b"-9223372036854775808".to_vec());
}

#[test]
fn decimal_decode_inverts_decimal_encode() {
    for n in [0i64, 1, -1, 9, 10, -10, 1234567890, i64::MAX, i64::MIN, i64::MAX - 1, i64::MIN + 1] {
        assert_eq!(decimal_decode(&decimal_encode(n)), Some(n));
    }
}

#[test]
fn decimal_decode_rejects_what_is_not_canonical() {
    assert_eq!(decimal_decode(b""), None);
    assert_eq!(decimal_decode(b"-"), None);
    assert_eq!(decimal_decode(b"-0"), None);
    assert_eq!(decimal_decode(b"00"), None);
    assert_eq!(decimal_decode(b"007"), None);
    assert_eq!(decimal_decode(b"+7"), None);
    assert_eq!(decimal_decode(b"7 "), None);
    assert_eq!(decimal_decode(b"12a"), None);
    assert_eq!(decimal_decode(b"1.5"), None);
    assert_eq!(decimal_decode(b"9223372036854775808"), None);
    assert_eq!(decimal_decode(b"-9223372036854775809"), None);
    assert_eq!(decimal_decode(b"99999999999999999999999"), None);
}

#[test]
fn unsigned_decode_honours_its_limit() {
    assert_eq!(unsigned_decode(b"64", 64), Some(64));
    assert_eq!(unsigned_decode(b"65", 64), None);
    assert_eq!(unsigned_decode(b"0", 0), Some(0));
    assert_eq!(unsigned_decode(b"1", 0), None);
    assert_eq!(unsigned_decode(b"18446744073709551615", u64::MAX), Some(u64::MAX));
    assert_eq!(unsigned_decode(b"18446744073709551616", u64::MAX), None);
    assert_eq!(unsigned_decode(b"01", 64), None);
    assert_eq!(unsigned_encode(19456), b"19456".to_vec());
}

#[test]
fn split_first_cuts_at_the_first_separator() {
    let text = b"ab.cd.ef";
    let (head, tail) = split_first(text, b'.').unwrap();
    assert_eq!(head, b"ab");
    assert_eq!(tail, b"cd.ef");
    let (head, tail) = split_first(b".x", b'.').unwrap();
    assert_eq!(head, b"");
    assert_eq!(tail, b"x");
    let (head, tail) = split_first(b"x.", b'.').unwrap();
    assert_eq!(head, b"x");
    assert_eq!(tail, b"");
    assert!(split_first(b"abc", b'.').is_none());
    assert!(split_first(b"", b'.').is_none());
}

#[test]
fn constant_time_eq_is_equality() {
    assert!(constant_time_eq(b"", b""));
    assert!(constant_time_eq(b"abc", b"abc"));
    assert!(!constant_time_eq(b"abc", b"abd"));
    assert!(!constant_time_eq(b"abc", b"bbc"));
    assert!(!constant_time_eq(b"abc", b"ab"));
    assert!(!constant_time_eq(b"", b"a"));
    assert!(!constant_time_eq(&[0x00], &[0x80]));
}
