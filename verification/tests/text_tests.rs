use wasm_wiretap::filter::{status_code_from_header, timestamp_from_property};
use wasm_wiretap::text::{char_prefix, decimal_string, join_with_commas, le_u64, parse_u32};

#[test]
fn decimal_string_writes_digits() {
    assert_eq!(decimal_string(0), "0");
    assert_eq!(decimal_string(7), "7");
    assert_eq!(decimal_string(42), "42");
    assert_eq!(decimal_string(1_000_000), "1000000");
    assert_eq!(decimal_string(u64::MAX), u64::MAX.to_string());
}

#[test]
fn parse_u32_matches_std() {
    for s in [
        "", "+", "-", "0", "7", "200", "+404", "-1", "++1", "007", "4294967295",
        "4294967296", "99999999999", "12a", " 200", "200 ", "٣",
    ] {
        assert_eq!(parse_u32(s), s.parse::<u32>().ok(), "input {:?}", s);
    }
}

#[test]
fn status_code_round_trip_on_samples() {
    for n in [0u32, 1, 9, 10, 99, 100, 200, 404, 503, 65535, u32::MAX] {
        let text = decimal_string(n as u64);
        assert_eq!(status_code_from_header(&Some(text)), n);
    }
}

#[test]
fn status_code_from_header_defaults_to_zero() {
    assert_eq!(status_code_from_header(&None), 0);
    assert_eq!(status_code_from_header(&Some("abc".to_string())), 0);
    assert_eq!(status_code_from_header(&Some("200".to_string())), 200);
}

#[test]
fn le_u64_matches_std() {
    let b: [u8; 10] = [1, 2, 3, 4, 5, 6, 7, 8, 9, 10];
    assert_eq!(le_u64(&b), u64::from_le_bytes([1, 2, 3, 4, 5, 6, 7, 8]));
    assert_eq!(le_u64(&[0xff; 8]), u64::MAX);
}

#[test]
fn timestamp_from_property_cases() {
    assert_eq!(timestamp_from_property(&None), 0);
    assert_eq!(timestamp_from_property(&Some(vec![1, 2, 3])), 0);
    let ts: u64 = 1_700_000_000_123_456_789;
    assert_eq!(timestamp_from_property(&Some(ts.to_le_bytes().to_vec())), ts);
}

#[test]
fn join_with_commas_cases() {
    assert_eq!(join_with_commas(&vec![]), "");
    assert_eq!(join_with_commas(&vec!["a".to_string()]), "a");
    assert_eq!(
        join_with_commas(&vec!["a".to_string(), "bc".to_string(), "".to_string()]),
        "a,bc,"
    );
}

#[test]
fn char_prefix_never_splits_a_character() {
    assert_eq!(char_prefix("hello", 3), "hel");
    assert_eq!(char_prefix("hello", 10), "hello");
    assert_eq!(char_prefix("", 4), "");
    assert_eq!(char_prefix("a→b", 2), "a");
    assert_eq!(char_prefix("a→b", 4), "a→");
    let long = "é".repeat(200);
    let p = char_prefix(&long, 256);
    assert_eq!(p.len(), 256);
    let odd = format!("x{}", long);
    assert_eq!(char_prefix(&odd, 256).len(), 255);
}
