use window_restore::patch::{patch_template, push_size_pair};
use window_restore::size::WindowSize;

const TEMPLATE: &str = r#"{"label":"main","title":"Pake","url":"https://example.com/","width":800,"height":600,"minWidth":400,"minHeight":300,"resizable":true,"decorations":true}"#;

fn patch(template: &str, width: u64, height: u64) -> String {
    let out = patch_template(template.as_bytes(), &WindowSize::from_pixels(width, height));
    String::from_utf8(out).unwrap()
}

fn patch_text(template: &str, width: &str, height: &str) -> String {
    let size = WindowSize { width: width.as_bytes().to_vec(), height: height.as_bytes().to_vec() };
    String::from_utf8(patch_template(template.as_bytes(), &size)).unwrap()
}

#[test]
fn size_pair_is_spelled_as_in_the_template() {
    let mut out = Vec::new();
    push_size_pair(&mut out, &WindowSize::from_pixels(1024, 768));
    assert_eq!(out, br#""width":1024,"height":768"#.to_vec());
}

#[test]
fn size_pair_is_appended() {
    let mut out = b"{".to_vec();
    push_size_pair(&mut out, &WindowSize::from_pixels(0, 5));
    assert_eq!(out, br#"{"width":0,"height":5"#.to_vec());
}

#[test]
fn persisted_size_replaces_the_pair() {
    assert_eq!(
        patch(TEMPLATE, 1024, 768),
        r#"{"label":"main","title":"Pake","url":"https://example.com/","width":1024,"height":768,"minWidth":400,"minHeight":300,"resizable":true,"decorations":true}"#
    );
}

#[test]
fn shorter_numbers_shrink_the_text() {
    assert_eq!(
        patch(r#"{"width":1920,"height":1080}"#, 1, 2),
        r#"{"width":1,"height":2}"#
    );
}

#[test]
fn same_size_gives_the_same_text() {
    assert_eq!(patch(TEMPLATE, 800, 600), TEMPLATE);
}

#[test]
fn largest_size_is_written_in_full() {
    assert_eq!(
        patch(r#"{"width":1,"height":2}"#, u64::MAX, 0),
        r#"{"width":18446744073709551615,"height":0}"#
    );
}

#[test]
fn template_without_a_pair_is_copied() {
    assert_eq!(patch("WINDOWCONFIG", 1024, 768), "WINDOWCONFIG");
    assert_eq!(patch("", 1024, 768), "");
    assert_eq!(
        patch(r#"{"height":600,"width":800}"#, 1024, 768),
        r#"{"height":600,"width":800}"#
    );
}

#[test]
fn only_the_first_pair_is_replaced() {
    assert_eq!(
        patch(
            r#"{"width":800,"height":600,"windowEffects":{"width":10,"height":20}}"#,
            1024,
            768
        ),
        r#"{"width":1024,"height":768,"windowEffects":{"width":10,"height":20}}"#
    );
}

#[test]
fn other_fields_named_width_or_height_are_kept() {
    assert_eq!(
        patch(
            r#"{"inner":{"width":5},"height":7,"width":800,"height":600,"extra":{"height":9,"width":3}}"#,
            1280,
            720
        ),
        r#"{"inner":{"width":5},"height":7,"width":1280,"height":720,"extra":{"height":9,"width":3}}"#
    );
}

#[test]
fn bytes_that_are_no_text_are_kept() {
    let mut template = vec![0xff, 0x00, 0xc3];
    template.extend_from_slice(br#""width":1,"height":2"#);
    template.extend_from_slice(&[0x80, 0xfe]);
    let out = patch_template(&template, &WindowSize::from_pixels(30, 40));
    let mut expected = vec![0xff, 0x00, 0xc3];
    expected.extend_from_slice(br#""width":30,"height":40"#);
    expected.extend_from_slice(&[0x80, 0xfe]);
    assert_eq!(out, expected);
}

#[test]
fn text_beyond_ascii_is_kept() {
    assert_eq!(
        patch(r#"{"title":"窗口 – größe","width":800,"height":600}"#, 1024, 768),
        r#"{"title":"窗口 – größe","width":1024,"height":768}"#
    );
}

#[test]
fn patching_twice_gives_the_same_text() {
    let once = patch(TEMPLATE, 1280, 720);
    let again = patch(TEMPLATE, 1280, 720);
    assert_eq!(once.as_bytes(), again.as_bytes());
}

#[test]
fn patching_the_patched_text_changes_nothing() {
    let once = patch(TEMPLATE, 1280, 720);
    let twice = patch(&once, 1280, 720);
    assert_eq!(once, twice);
}

#[test]
fn last_patch_stands() {
    let once = patch(TEMPLATE, 1280, 720);
    let twice = patch(&once, 5, 123456);
    assert_eq!(twice, patch(TEMPLATE, 5, 123456));
}

#[test]
fn numbers_with_a_fraction_are_written_as_they_are() {
    assert_eq!(
        patch_text(TEMPLATE, "1024.5", "768"),
        r#"{"label":"main","title":"Pake","url":"https://example.com/","width":1024.5,"height":768,"minWidth":400,"minHeight":300,"resizable":true,"decorations":true}"#
    );
    assert_eq!(
        patch_text(r#"{"width":1,"height":2}"#, "0.25", "1080.125"),
        r#"{"width":0.25,"height":1080.125}"#
    );
}

#[test]
fn fraction_leaves_a_nested_pair_untouched() {
    assert_eq!(
        patch_text(
            r#"{"width":800,"height":600,"preventOverflow":{"width":10,"height":20}}"#,
            "1024.5",
            "768.25"
        ),
        r#"{"width":1024.5,"height":768.25,"preventOverflow":{"width":10,"height":20}}"#
    );
}

#[test]
fn size_pair_with_a_fraction() {
    let mut out = Vec::new();
    let size = WindowSize { width: b"1.5".to_vec(), height: b"2".to_vec() };
    push_size_pair(&mut out, &size);
    assert_eq!(out, br#""width":1.5,"height":2"#.to_vec());
}
