use window_restore::size::{check_number, WindowSize};

#[test]
fn whole_numbers_are_numbers() {
    for text in ["0", "7", "1024", "007", "18446744073709551616000"] {
        assert!(check_number(text.as_bytes()), "{}", text);
    }
}

#[test]
fn numbers_with_a_point_and_digits_are_numbers() {
    for text in ["1024.5", "0.5", "768.25", "1024.0", "0.0000001"] {
        assert!(check_number(text.as_bytes()), "{}", text);
    }
}

#[test]
fn other_texts_are_no_numbers() {
    for text in ["", ".", "1.", ".5", "-1", "+1", "1.2.3", "1e3", "1E3", "1 ", " 1", "1,5", "abc", "1.5x", "NaN", "inf"] {
        assert!(!check_number(text.as_bytes()), "{}", text);
    }
}

#[test]
fn pixels_are_written_in_digits() {
    let size = WindowSize::from_pixels(1280, 720);
    assert_eq!(size.width, b"1280".to_vec());
    assert_eq!(size.height, b"720".to_vec());
    let size = WindowSize::from_pixels(0, u64::MAX);
    assert_eq!(size.width, b"0".to_vec());
    assert_eq!(size.height, b"18446744073709551615".to_vec());
}

#[test]
fn pixels_write_numbers() {
    let size = WindowSize::from_pixels(1, 4294967295);
    assert!(check_number(&size.width));
    assert!(check_number(&size.height));
}
