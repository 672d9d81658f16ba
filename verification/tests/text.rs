use signal_store::bytes::{begins_with, same_bytes};
use signal_store::text::{append_decimal, append_zero_padded, decimal_len, parse_u32_from};

#[test]
fn append_decimal_writes_the_number_after_the_text() {
    let mut text = String::from("n=");
    append_decimal(&mut text, 0);
    assert_eq!(text, "n=0");
    append_decimal(&mut text, 1905);
    assert_eq!(text, "n=01905");
    append_decimal(&mut text, u32::MAX);
    assert_eq!(text, "n=019054294967295");
}

#[test]
fn append_zero_padded_fills_up_to_the_width() {
    let mut text = String::new();
    append_zero_padded(&mut text, 7, 3);
    assert_eq!(text, "007");
    append_zero_padded(&mut text, 1234, 3);
    assert_eq!(text, "0071234");
    append_zero_padded(&mut text, 5, 0);
    assert_eq!(text, "00712345");
    append_zero_padded(&mut text, 0, 12);
    assert_eq!(text, "00712345000000000000");
}

#[test]
fn decimal_len_counts_the_digits() {
    assert_eq!(decimal_len(0), 1);
    assert_eq!(decimal_len(9), 1);
    assert_eq!(decimal_len(10), 2);
    assert_eq!(decimal_len(999_999_999), 9);
    assert_eq!(decimal_len(1_000_000_000), 10);
    assert_eq!(decimal_len(u32::MAX), 10);
}

#[test]
fn parse_u32_from_reads_from_the_given_place() {
    assert_eq!(parse_u32_from(b"abc123", 3), Some(123));
    assert_eq!(parse_u32_from(b"abc123", 0), None);
    assert_eq!(parse_u32_from(b"abc123", 5), Some(3));
    assert_eq!(parse_u32_from(b"abc123", 6), None);
    assert_eq!(parse_u32_from(b"abc123", 7), None);
    assert_eq!(parse_u32_from(b"", usize::MAX), None);
    assert_eq!(parse_u32_from(b"+0", 0), Some(0));
    assert_eq!(parse_u32_from(b"+0", 1), Some(0));
    assert_eq!(parse_u32_from(b"4294967295", 0), Some(u32::MAX));
    assert_eq!(parse_u32_from(b"4294967296", 0), None);
    assert_eq!(parse_u32_from(b"42949672950", 0), None);
}

#[test]
fn begins_with_compares_the_beginning() {
    assert!(begins_with(b"session-alice.1", b"session-alice."));
    assert!(begins_with(b"session-alice.", b"session-alice."));
    assert!(begins_with(b"anything", b""));
    assert!(!begins_with(b"session-alice", b"session-alice."));
    assert!(!begins_with(b"session-alicf.1", b"session-alice."));
    assert!(!begins_with(b"", b"s"));
}

#[test]
fn same_bytes_compares_byte_for_byte() {
    assert!(same_bytes(b"", b""));
    assert!(same_bytes(&[5, 1, 2], &[5, 1, 2]));
    assert!(!same_bytes(&[5, 1, 2], &[5, 1, 3]));
    assert!(!same_bytes(&[5, 1, 2], &[5, 1]));
    assert!(!same_bytes(&[5, 1], &[5, 1, 2]));
}
