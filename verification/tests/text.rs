use bcdn::text::{
    glue, contains_char, find_char, parse_u64, push_decimal, push_hex, rfind_char, same_text,
    starts_with,
};

#[test]
fn parse_u64_reads_plain_numbers() {
    assert_eq!(parse_u64("0"), Some(0));
    assert_eq!(parse_u64("5"), Some(5));
    assert_eq!(parse_u64("007"), Some(7));
    assert_eq!(parse_u64("1048576"), Some(1_048_576));
    assert_eq!(parse_u64("18446744073709551615"), Some(u64::MAX));
}

#[test]
fn parse_u64_refuses_everything_else() {
    assert_eq!(parse_u64(""), None);
    assert_eq!(parse_u64("+5"), None);
    assert_eq!(parse_u64("-5"), None);
    assert_eq!(parse_u64("5 "), None);
    assert_eq!(parse_u64("1_000"), None);
    assert_eq!(parse_u64("12a"), None);
    assert_eq!(parse_u64("٣"), None);
    assert_eq!(parse_u64("18446744073709551616"), None);
    assert_eq!(parse_u64("99999999999999999999999"), None);
}

#[test]
fn push_decimal_writes_without_leading_zeros() {
    let mut s = String::from("n=");
    push_decimal(&mut s, 0);
    assert_eq!(s, "n=0");
    let mut s = String::new();
    push_decimal(&mut s, 1234567890);
    assert_eq!(s, "1234567890");
    let mut s = String::new();
    push_decimal(&mut s, u64::MAX);
    assert_eq!(s, "18446744073709551615");
}

#[test]
fn push_hex_writes_lower_case() {
    let mut s = String::new();
    push_hex(&mut s, 0);
    assert_eq!(s, "0");
    let mut s = String::from("x");
    push_hex(&mut s, 255);
    assert_eq!(s, "xff");
    let mut s = String::new();
    push_hex(&mut s, 0xDEADBEEF);
    assert_eq!(s, "deadbeef");
    let mut s = String::new();
    push_hex(&mut s, u64::MAX);
    assert_eq!(s, "ffffffffffffffff");
}

#[test]
fn decimal_digits_read_back() {
    for n in [0u64, 9, 10, 99, 100, 65_536, u64::MAX] {
        let mut s = String::new();
        push_decimal(&mut s, n);
        assert_eq!(parse_u64(&s), Some(n));
    }
}

#[test]
fn searching_characters() {
    assert!(contains_char("a/b", '/'));
    assert!(!contains_char("a.txt", '/'));
    assert!(!contains_char("", '/'));
    assert_eq!(find_char("a-b-c", '-'), Some(1));
    assert_eq!(rfind_char("a-b-c", '-'), Some(3));
    assert_eq!(find_char("abc", '-'), None);
    assert_eq!(rfind_char("abc", '-'), None);
    assert_eq!(find_char("é-", '-'), Some(1));
    assert_eq!(rfind_char("-", '-'), Some(0));
}

#[test]
fn prefixes_and_equality() {
    assert!(starts_with("bytes=0-1", "bytes="));
    assert!(starts_with("bytes=", "bytes="));
    assert!(starts_with("x", ""));
    assert!(!starts_with("byte", "bytes="));
    assert!(!starts_with("Bytes=0-1", "bytes="));
    assert!(same_text("pkg", "pkg"));
    assert!(same_text("", ""));
    assert!(!same_text("pkg", "pkh"));
    assert!(!same_text("pkg", "pkg2"));
    assert_eq!(glue("a", "b"), "ab");
    assert_eq!(glue("", ""), "");
}
