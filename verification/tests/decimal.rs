use window_restore::decimal::push_decimal;

fn digits(n: u64) -> Vec<u8> {
    let mut out = Vec::new();
    push_decimal(&mut out, n);
    out
}

#[test]
fn zero_is_one_digit() {
    assert_eq!(digits(0), b"0".to_vec());
}

#[test]
fn single_digits() {
    assert_eq!(digits(7), b"7".to_vec());
    assert_eq!(digits(9), b"9".to_vec());
}

#[test]
fn ten_has_two_digits() {
    assert_eq!(digits(10), b"10".to_vec());
}

#[test]
fn common_widths() {
    assert_eq!(digits(768), b"768".to_vec());
    assert_eq!(digits(1024), b"1024".to_vec());
    assert_eq!(digits(1280), b"1280".to_vec());
}

#[test]
fn inner_and_trailing_zeros_are_kept() {
    assert_eq!(digits(1000), b"1000".to_vec());
    assert_eq!(digits(10203), b"10203".to_vec());
}

#[test]
fn largest_number() {
    assert_eq!(digits(u64::MAX), b"18446744073709551615".to_vec());
}

#[test]
fn digits_are_appended_behind_what_is_there() {
    let mut out = b"w=".to_vec();
    push_decimal(&mut out, 42);
    assert_eq!(out, b"w=42".to_vec());
}

#[test]
fn digits_read_back_as_the_number() {
    for n in [0u64, 5, 10, 99, 100, 1024, 65535, 4294967296, u64::MAX] {
        let text = String::from_utf8(digits(n)).unwrap();
        assert_eq!(text.parse::<u64>().unwrap(), n);
        assert_eq!(text, n.to_string());
    }
}
