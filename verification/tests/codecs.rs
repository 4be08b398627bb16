use plutus::bigint::bigint_text;
use plutus::fields::{
    check_bounds_unsigned,
    check_bounds, flag_get, flag_set, from_fixed_bytes, set_bytes, to_fixed_bytes, truncate_to, BoundError,
    BytesError,
};
use plutus::hex::{from_hex, hex, hex_pairs_readable, HexError};
use plutus::ipv4::{ipv4_from_str, ipv4_string};
use plutus::text::{dec_string, parse_unsigned_exec, str_eq};
use plutus::validate::phone_validator;

#[test]
fn hex_is_lowercase_two_digits_per_byte() {
    assert_eq!(hex(&[0xde, 0xad, 0x01, 0x00]), "dead0100");
    assert_eq!(hex(&[]), "");
}

#[test]
fn hex_reads_either_case_and_plus() {
    assert_eq!(from_hex("DEad01", 3), Ok(vec![0xde, 0xad, 0x01]));
    assert_eq!(from_hex("+f0a", 2), Ok(vec![0x0f, 0x0a]));
    assert_eq!(from_hex("", 0), Ok(vec![]));
}

#[test]
fn hex_errors() {
    assert_eq!(from_hex("abc", 2), Err(HexError::InvalidLength));
    assert_eq!(from_hex("abcd", 1), Err(HexError::InvalidLength));
    assert_eq!(from_hex("zz", 1), Err(HexError::InvalidHex));
    assert_eq!(from_hex("-1", 1), Err(HexError::InvalidHex));
    assert_eq!(from_hex("+-", 1), Err(HexError::InvalidHex));
    assert_eq!(from_hex("é", 1), Err(HexError::InvalidHex));
}

#[test]
fn hex_roundtrip_values() {
    let data: Vec<u8> = (0..=255u8).collect();
    let text = hex(&data);
    assert!(hex_pairs_readable(&text));
    assert_eq!(from_hex(&text, data.len()), Ok(data));
}

#[test]
fn hex_readability() {
    assert!(hex_pairs_readable("é1"));
    assert!(!hex_pairs_readable("1é"));
}

#[test]
fn ipv4_text_and_roundtrip() {
    assert_eq!(ipv4_string(&[192, 168, 0, 1]), "192.168.0.1");
    assert_eq!(ipv4_from_str("192.168.0.1"), Some([192, 168, 0, 1]));
    for ip in [[0u8, 0, 0, 0], [255, 255, 255, 255], [10, 0, 200, 7]] {
        assert_eq!(ipv4_from_str(&ipv4_string(&ip)), Some(ip));
    }
}

#[test]
fn ipv4_parsing_edges() {
    assert_eq!(ipv4_from_str("+1.2.3.4"), Some([1, 2, 3, 4]));
    assert_eq!(ipv4_from_str("001.002.003.004"), Some([1, 2, 3, 4]));
    assert_eq!(ipv4_from_str("1.2.3"), None);
    assert_eq!(ipv4_from_str("1.2.3.4.5"), None);
    assert_eq!(ipv4_from_str("1.2.3.256"), None);
    assert_eq!(ipv4_from_str("1..2.3"), None);
    assert_eq!(ipv4_from_str("a.b.c.d"), None);
    assert_eq!(ipv4_from_str(""), None);
    // seventeen bytes are refused before any part is read
    assert_eq!(ipv4_from_str("0001.0002.0003.04"), None);
}

#[test]
fn number_bounds() {
    assert_eq!(check_bounds(97, None, Some(97)), Ok(()));
    assert_eq!(check_bounds(98, None, Some(97)), Err(BoundError::AboveMax));
    assert_eq!(check_bounds(-1, Some(0), Some(-5)), Err(BoundError::BelowMin));
    assert_eq!(check_bounds(5, None, None), Ok(()));
}

#[test]
fn flags_set_and_get() {
    let f = flag_set(0, 4, true);
    assert_eq!(f, 4);
    assert!(flag_get(f, 4));
    assert!(!flag_get(f, 1));
    let g = flag_set(0b111, 2, false);
    assert_eq!(g, 0b101);
    assert!(!flag_get(g, 2));
    assert!(flag_get(g, 0));
    assert!(flag_get(flag_set(0, 0, false), 0));
}

#[test]
fn bytes_member_length() {
    assert_eq!(set_bytes(&[1, 2, 3], 3), Ok(vec![1, 2, 3]));
    assert_eq!(set_bytes(&[1, 2], 3), Err(BytesError::InvalidLength));
}

#[test]
fn string_member_truncation() {
    assert_eq!(truncate_to("héllo", 2), "h");
    assert_eq!(truncate_to("héllo", 3), "hé");
    assert_eq!(truncate_to("abc", 10), "abc");
    assert_eq!(truncate_to("abc", 0), "");
}

#[test]
fn string_member_bytes() {
    assert_eq!(to_fixed_bytes("ab", 4), vec![97, 98, 0, 0]);
    assert_eq!(to_fixed_bytes("abcdef", 3), vec![97, 98, 99]);
    assert_eq!(from_fixed_bytes(&[97, 98, 0, 0]), "ab\0\0");
    assert_eq!(from_fixed_bytes(&[97, 0xff, 98]), "a");
    // a character cut by the fixed length is dropped
    assert_eq!(from_fixed_bytes(&to_fixed_bytes("aé", 2)), "a");
}

#[test]
fn string_member_roundtrip_value() {
    let kept = truncate_to("hé", 12);
    assert_eq!(from_fixed_bytes(&to_fixed_bytes(&kept, 12)), "hé\0\0\0\0\0\0\0\0\0");
}

#[test]
fn phone_numbers() {
    assert_eq!(phone_validator("0123456789".to_string()).unwrap(), "0123456789");
    let e = phone_validator("01a3b".to_string()).unwrap_err();
    assert_eq!((e.ch, e.index), ('a', 2));
    let e = phone_validator("é1".to_string()).unwrap_err();
    assert_eq!((e.ch, e.index), ('é', 0));
    assert!(phone_validator(String::new()).is_ok());
}

#[test]
fn big_integers_in_decimal() {
    assert_eq!(bigint_text(&[1, 1]), "257");
    assert_eq!(bigint_text(&[]), "0");
    assert_eq!(bigint_text(&[0, 0, 0]), "0");
    let mut b = vec![0u8; 64];
    b[8] = 1;
    assert_eq!(bigint_text(&b), "18446744073709551616");
}

#[test]
fn decimal_text_and_parsing() {
    assert_eq!(dec_string(0), "0");
    assert_eq!(dec_string(1234567890123), "1234567890123");
    let digits: Vec<char> = "255".chars().collect();
    assert_eq!(parse_unsigned_exec(&digits, 255), Some(255));
    let digits: Vec<char> = "256".chars().collect();
    assert_eq!(parse_unsigned_exec(&digits, 255), None);
    let digits: Vec<char> = "+7".chars().collect();
    assert_eq!(parse_unsigned_exec(&digits, 255), Some(7));
    let digits: Vec<char> = "+".chars().collect();
    assert_eq!(parse_unsigned_exec(&digits, 255), None);
    assert!(str_eq("abc", "abc"));
    assert!(!str_eq("abc", "abd"));
}

#[test]
fn unsigned_bounds_beyond_signed_range() {
    let big = u128::MAX - 1;
    assert_eq!(check_bounds_unsigned(big, Some(1), Some(u128::MAX)), Ok(()));
    assert_eq!(check_bounds_unsigned(u128::MAX, None, Some(big)), Err(BoundError::AboveMax));
    assert_eq!(check_bounds_unsigned(0, Some(1), None), Err(BoundError::BelowMin));
}
