use wnfs_adapter::decimal::{parse_decimal, print_decimal, push_decimal};

#[test]
fn zero_is_one_digit() {
    assert_eq!(print_decimal(0), b"0".to_vec());
}

#[test]
fn digits_come_most_significant_first() {
    assert_eq!(print_decimal(7), b"7".to_vec());
    assert_eq!(print_decimal(10), b"10".to_vec());
    assert_eq!(print_decimal(1700000000), b"1700000000".to_vec());
    assert_eq!(print_decimal(9007199254740993), b"9007199254740993".to_vec());
}

#[test]
fn negative_numbers_have_a_minus_sign() {
    assert_eq!(print_decimal(-1), b"-1".to_vec());
    assert_eq!(print_decimal(-120), b"-120".to_vec());
}

#[test]
fn the_ends_of_the_range_are_written() {
    assert_eq!(print_decimal(i64::MAX), b"9223372036854775807".to_vec());
    assert_eq!(print_decimal(i64::MIN), b"-9223372036854775808".to_vec());
}

#[test]
fn push_decimal_appends() {
    let mut out = b"t=".to_vec();
    push_decimal(&mut out, -42);
    assert_eq!(out, b"t=-42".to_vec());
}

#[test]
fn numbers_are_read() {
    assert_eq!(parse_decimal(b"0"), Some(0));
    assert_eq!(parse_decimal(b"7"), Some(7));
    assert_eq!(parse_decimal(b"1700000000"), Some(1700000000));
    assert_eq!(parse_decimal(b"-1"), Some(-1));
    assert_eq!(parse_decimal(b"9223372036854775807"), Some(i64::MAX));
    assert_eq!(parse_decimal(b"-9223372036854775808"), Some(i64::MIN));
}

#[test]
fn numbers_out_of_range_are_refused() {
    assert_eq!(parse_decimal(b"9223372036854775808"), None);
    assert_eq!(parse_decimal(b"-9223372036854775809"), None);
    assert_eq!(parse_decimal(b"18446744073709551616"), None);
    assert_eq!(parse_decimal(b"99999999999999999999999999"), None);
}

#[test]
fn other_texts_are_refused() {
    assert_eq!(parse_decimal(b""), None);
    assert_eq!(parse_decimal(b"-"), None);
    assert_eq!(parse_decimal(b"+5"), None);
    assert_eq!(parse_decimal(b"-0"), None);
    assert_eq!(parse_decimal(b"007"), None);
    assert_eq!(parse_decimal(b"00"), None);
    assert_eq!(parse_decimal(b"-01"), None);
    assert_eq!(parse_decimal(b"12a"), None);
    assert_eq!(parse_decimal(b"a12"), None);
    assert_eq!(parse_decimal(b"1 2"), None);
    assert_eq!(parse_decimal(b" 12"), None);
    assert_eq!(parse_decimal(b"12 "), None);
    assert_eq!(parse_decimal(b"1-2"), None);
    assert_eq!(parse_decimal(b"--1"), None);
    assert_eq!(parse_decimal(b"1.5"), None);
    assert_eq!(parse_decimal(&[0x31, 0xff]), None);
}

#[test]
fn reading_a_number_inverts_writing_it() {
    let numbers = [
        0,
        1,
        -1,
        9,
        10,
        -10,
        99,
        100,
        12345,
        -98765,
        1700000000,
        i64::MAX,
        i64::MIN,
        i64::MAX - 1,
        i64::MIN + 1,
    ];
    for n in numbers {
        assert_eq!(parse_decimal(&print_decimal(n)), Some(n));
    }
}

#[test]
fn writing_a_number_inverts_reading_it() {
    for text in ["0", "5", "-5", "10", "1234567890", "-9223372036854775808"] {
        let n = parse_decimal(text.as_bytes()).unwrap();
        assert_eq!(print_decimal(n), text.as_bytes().to_vec());
    }
}
