use fefix::text::{
    bytes_eq, copy_range, parse_i64, parse_u32, parse_u32_text, parse_u64, push_bytes, push_int, push_nat,
    str_eq,
};

fn rendered_nat(n: u64) -> String {
    let mut out = Vec::new();
    push_nat(&mut out, n);
    String::from_utf8(out).unwrap()
}

fn rendered_int(i: i64) -> String {
    let mut out = Vec::new();
    push_int(&mut out, i);
    String::from_utf8(out).unwrap()
}

#[test]
fn numbers_render_in_decimal() {
    assert_eq!(rendered_nat(0), "0");
    assert_eq!(rendered_nat(7), "7");
    assert_eq!(rendered_nat(10), "10");
    assert_eq!(rendered_nat(4567), "4567");
    assert_eq!(rendered_nat(u64::MAX), "18446744073709551615");
    assert_eq!(rendered_int(0), "0");
    assert_eq!(rendered_int(-1), "-1");
    assert_eq!(rendered_int(i64::MAX), "9223372036854775807");
    assert_eq!(rendered_int(i64::MIN), "-9223372036854775808");
}

#[test]
fn numbers_parse_from_digits_only() {
    assert_eq!(parse_u64(b"0"), Some(0));
    assert_eq!(parse_u64(b"007"), Some(7));
    assert_eq!(parse_u64(b"18446744073709551615"), Some(u64::MAX));
    assert_eq!(parse_u64(b"18446744073709551616"), None);
    assert_eq!(parse_u64(b""), None);
    assert_eq!(parse_u64(b"+5"), None);
    assert_eq!(parse_u64(b"5 "), None);
    assert_eq!(parse_u32(b"4294967295"), Some(u32::MAX));
    assert_eq!(parse_u32(b"4294967296"), None);
    assert_eq!(parse_i64(b"-9223372036854775808"), Some(i64::MIN));
    assert_eq!(parse_i64(b"9223372036854775807"), Some(i64::MAX));
    assert_eq!(parse_i64(b"9223372036854775808"), None);
    assert_eq!(parse_i64(b"-9223372036854775809"), None);
    assert_eq!(parse_i64(b"-"), None);
    assert_eq!(parse_i64(b"--1"), None);
    assert_eq!(parse_i64(b"-0"), Some(0));
}

#[test]
fn rendering_then_parsing_gives_the_number_back() {
    for n in [0u64, 1, 9, 10, 99, 100, 12345, u64::MAX] {
        assert_eq!(parse_u64(rendered_nat(n).as_bytes()), Some(n));
    }
    for i in [i64::MIN, -100, -1, 0, 1, 100, i64::MAX] {
        assert_eq!(parse_i64(rendered_int(i).as_bytes()), Some(i));
    }
}

#[test]
fn byte_helpers_copy_and_compare() {
    let mut out = b"ab".to_vec();
    push_bytes(&mut out, b"cd");
    assert_eq!(out, b"abcd");
    assert_eq!(copy_range(&out, 1, 3), b"bc");
    assert!(bytes_eq(b"abc", b"abc"));
    assert!(!bytes_eq(b"abc", b"abd"));
    assert!(!bytes_eq(b"abc", b"ab"));
}

#[test]
fn numbers_in_attributes_may_carry_a_plus_sign() {
    assert_eq!(parse_u32_text(b"8"), Some(8));
    assert_eq!(parse_u32_text(b"+8"), Some(8));
    assert_eq!(parse_u32_text(b"+0035"), Some(35));
    assert_eq!(parse_u32_text(b"4294967295"), Some(u32::MAX));
    assert_eq!(parse_u32_text(b"+4294967295"), Some(u32::MAX));
    assert_eq!(parse_u32_text(b"+4294967296"), None);
    assert_eq!(parse_u32_text(b""), None);
    assert_eq!(parse_u32_text(b"+"), None);
    assert_eq!(parse_u32_text(b"++8"), None);
    assert_eq!(parse_u32_text(b"-8"), None);
    assert_eq!(parse_u32_text(b"8+"), None);
    assert_eq!(parse_u32_text(b" 8"), None);
    assert_eq!(parse_u32(b"+8"), None);
}

#[test]
fn strings_compare_by_their_characters() {
    assert!(str_eq("", ""));
    assert!(str_eq("StandardHeader", "StandardHeader"));
    assert!(!str_eq("StandardHeader", "StandardTrailer"));
    assert!(!str_eq("a", "ab"));
    assert!(str_eq("héllo", "héllo"));
    assert!(!str_eq("héllo", "hello"));
}
