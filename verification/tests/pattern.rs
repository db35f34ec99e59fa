use window_restore::pattern::{
    find_size_pair, has_key, pair_end_at, scan_digits, Span, HEIGHT_KEY, WIDTH_KEY,
};

#[test]
fn keys_spell_the_two_names() {
    assert_eq!(&WIDTH_KEY[..], br#""width":"#);
    assert_eq!(&HEIGHT_KEY[..], br#","height":"#);
}

#[test]
fn has_key_at_the_key() {
    let text = br#"{"width":800}"#;
    assert!(has_key(text, 1, &WIDTH_KEY));
    assert!(!has_key(text, 0, &WIDTH_KEY));
    assert!(!has_key(text, 2, &WIDTH_KEY));
}

#[test]
fn has_key_needs_the_whole_key() {
    let text = br#"{"width"#;
    assert!(!has_key(text, 1, &WIDTH_KEY));
    assert!(!has_key(text, 7, &WIDTH_KEY));
    assert!(!has_key(text, 8, &WIDTH_KEY));
    assert!(!has_key(text, usize::MAX, &WIDTH_KEY));
}

#[test]
fn has_key_with_an_empty_key() {
    assert!(has_key(b"abc", 3, b""));
    assert!(!has_key(b"abc", 4, b""));
}

#[test]
fn scan_digits_stops_at_the_first_other_byte() {
    let text = b"ab123,45";
    assert_eq!(scan_digits(text, 2), 5);
    assert_eq!(scan_digits(text, 3), 5);
    assert_eq!(scan_digits(text, 5), 5);
    assert_eq!(scan_digits(text, 0), 0);
}

#[test]
fn scan_digits_stops_at_the_end() {
    let text = b"ab123,45";
    assert_eq!(scan_digits(text, 6), 8);
    assert_eq!(scan_digits(text, 8), 8);
    assert_eq!(scan_digits(text, 20), 20);
}

#[test]
fn scan_digits_takes_ascii_digits_only() {
    assert_eq!(scan_digits(b"0123456789/", 0), 10);
    assert_eq!(scan_digits(b"/", 0), 0);
    assert_eq!(scan_digits(b":", 0), 0);
    assert_eq!(scan_digits("\u{0663}".as_bytes(), 0), 0);
}

#[test]
fn pair_end_at_a_pair() {
    let text = br#"{"width":800,"height":600,"title":"x"}"#;
    assert_eq!(pair_end_at(text, 1), Some(25));
    assert_eq!(pair_end_at(text, 0), None);
    assert_eq!(pair_end_at(text, 13), None);
}

#[test]
fn pair_needs_digits_in_both_numbers() {
    assert_eq!(pair_end_at(br#""width":,"height":600"#, 0), None);
    assert_eq!(pair_end_at(br#""width":800,"height":"#, 0), None);
    assert_eq!(pair_end_at(br#""width":800,"height":x"#, 0), None);
    assert_eq!(pair_end_at(br#""width":8,"height":6"#, 0), Some(20));
}

#[test]
fn pair_needs_the_exact_spelling() {
    assert_eq!(pair_end_at(br#""width": 800,"height":600"#, 0), None);
    assert_eq!(pair_end_at(br#""width":800, "height":600"#, 0), None);
    assert_eq!(pair_end_at(br#""width":800,"Height":600"#, 0), None);
    assert_eq!(pair_end_at(br#""width":-800,"height":600"#, 0), None);
    assert_eq!(pair_end_at(br#""width":800.5,"height":600"#, 0), None);
    assert_eq!(pair_end_at(br#""height":600,"width":800"#, 0), None);
}

#[test]
fn second_number_runs_on_while_digits_follow() {
    assert_eq!(pair_end_at(br#""width":800,"height":600.25"#, 0), Some(24));
    assert_eq!(pair_end_at(br#""width":800,"height":60012345}"#, 0), Some(29));
}

#[test]
fn find_gives_the_first_pair() {
    let text = br#"{"width":800,"height":600,"inner":{"width":1,"height":2}}"#;
    assert_eq!(find_size_pair(text), Some(Span { start: 1, end: 25 }));
}

#[test]
fn find_passes_over_what_is_no_pair() {
    let text = br#"{"minWidth":400,"width":"wide","width":1,"height":x,"width":12,"height":34}"#;
    assert_eq!(find_size_pair(text), Some(Span { start: 52, end: 74 }));
}

#[test]
fn find_in_a_text_without_a_pair() {
    assert_eq!(find_size_pair(b""), None);
    assert_eq!(find_size_pair(b"{}"), None);
    assert_eq!(find_size_pair(br#"{"width":800}"#), None);
    assert_eq!(find_size_pair(br#"{"height":600,"width":800}"#), None);
    assert_eq!(find_size_pair(b"WINDOWCONFIG"), None);
}

#[test]
fn find_a_pair_that_is_the_whole_text() {
    let text = br#""width":1,"height":2"#;
    assert_eq!(find_size_pair(text), Some(Span { start: 0, end: 20 }));
}
