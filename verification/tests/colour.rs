use tauri_utils::config::WindowConfig;
use window_restore::colour::is_admitted;
use window_restore::config::{parse_window_config, NOT_ADMITTED};
use window_restore::error::ConfigError;

const CHARACTERS: [char; 14] = [
    'f', '0', 'z', '#', ' ', '+', '-', '\t', '\u{e9}', '\u{20ac}', '\u{1f600}', '\u{a0}',
    '\u{3000}', '\u{2028}',
];

/// Whether the parser of a colour cuts `colour` inside a character: the steps
/// of the parser, with a look at each cut before it is made.
fn is_cut_inside_a_character(colour: &str) -> bool {
    let cut = colour.trim().strip_prefix('#').unwrap_or(colour);
    let cut: String = match cut.len() {
        3 => cut
            .chars()
            .flat_map(|c| std::iter::repeat(c).take(2))
            .chain(std::iter::repeat('f').take(2))
            .collect(),
        6 => format!("{}FF", cut),
        8 => cut.to_string(),
        _ => return false,
    };
    for pair in 0..4 {
        let (from, to) = (2 * pair, 2 * pair + 2);
        if !cut.is_char_boundary(from) || !cut.is_char_boundary(to) {
            return true;
        }
        if u8::from_str_radix(&cut[from..to], 16).is_err() {
            return false;
        }
    }
    false
}

fn escaped(colour: &str) -> String {
    let mut out = String::from("\"");
    for character in colour.chars() {
        let mut units = [0u16; 2];
        for unit in character.encode_utf16(&mut units) {
            out.push_str(&format!("\\u{:04x}", unit));
        }
    }
    out.push('"');
    out
}

fn check(colour: &str) {
    let written = serde_json::to_string(colour).unwrap();
    let texts = [
        format!("{{\"title\":\"\u{7a97}\",\"backgroundColor\":{}}}", written),
        format!("{{\"backgroundColor\":{}}}", escaped(colour)),
        format!("{{\"windowEffects\":{{\"effects\":[],\"color\":{}}}}}", written),
        format!("{{\"windowEffects\":[[],null,null,{}]}}", written),
    ];
    let stops = is_cut_inside_a_character(colour);
    for text in texts {
        assert_eq!(is_admitted(text.as_bytes()), !stops, "{}", text);
        let ours = parse_window_config(text.as_bytes());
        if stops {
            assert_eq!(ours, Err(ConfigError::ConfigParseError(NOT_ADMITTED.to_string())));
        } else {
            let theirs = serde_json::from_str::<WindowConfig>(&text)
                .map_err(|error| ConfigError::ConfigParseError(error.to_string()));
            assert_eq!(ours, theirs, "{}", text);
        }
    }
}

fn colours_of(length: usize, from: usize, step: usize) -> Vec<String> {
    let mut colours = Vec::new();
    let total = CHARACTERS.len().pow(length as u32);
    let mut number = from;
    while number < total {
        let mut rest = number;
        let mut colour = String::new();
        for _ in 0..length {
            colour.push(CHARACTERS[rest % CHARACTERS.len()]);
            rest /= CHARACTERS.len();
        }
        colours.push(colour);
        number += step;
    }
    colours
}

#[test]
fn every_short_colour_is_admitted_unless_it_is_cut_inside_a_character() {
    for length in 0..=3 {
        for colour in colours_of(length, 0, 1) {
            check(&colour);
        }
    }
}

#[test]
fn colours_of_four_characters() {
    for colour in colours_of(4, 0, 3) {
        check(&colour);
    }
}

#[test]
fn colours_of_five_and_six_characters() {
    for colour in colours_of(5, 1, 97) {
        check(&colour);
    }
    for colour in colours_of(6, 2, 1009) {
        check(&colour);
    }
}

#[test]
fn colours_of_seven_to_nine_characters() {
    for colour in colours_of(7, 3, 14009) {
        check(&colour);
    }
    for colour in colours_of(8, 5, 200003) {
        check(&colour);
    }
    for colour in colours_of(9, 7, 3000017) {
        check(&colour);
    }
}

#[test]
fn colours_that_the_parser_reads() {
    for colour in ["#fff", "fff", "#102030", "10203040", " #abc\u{a0}", "\u{3000}#ABCDEF12 "] {
        assert!(!is_cut_inside_a_character(colour));
        let text = format!("{{\"backgroundColor\":{}}}", serde_json::to_string(colour).unwrap());
        assert!(parse_window_config(text.as_bytes()).unwrap().background_color.is_some());
    }
}

#[test]
fn colours_that_are_cut_inside_a_character() {
    for colour in ["\u{20ac}", "\u{7a97}\u{53e3}", "#\u{20ac}", "f\u{20ac}ff", "ff\u{1f600}", "\u{3000}"] {
        assert!(is_cut_inside_a_character(colour), "{}", colour);
        check(colour);
    }
}

#[test]
fn colours_beyond_ascii_that_are_cut_between_characters() {
    for colour in ["a\u{e9}", "\u{e9}a", "\u{e9}\u{e9}\u{e9}", "zz\u{1f600}", "ff\u{e9}\u{20ac}z"] {
        assert!(!is_cut_inside_a_character(colour), "{}", colour);
        check(colour);
    }
}

#[test]
fn white_space_is_what_the_parser_takes_off() {
    let mut characters: Vec<char> = Vec::new();
    for number in 0u32..0x3100 {
        if let Some(character) = char::from_u32(number) {
            let near = number < 0x100
                || (0x1670..0x1690).contains(&number)
                || (0x180a..0x1810).contains(&number)
                || (0x1ff0..0x2070).contains(&number)
                || number >= 0x2ff0;
            if character.is_whitespace() || near {
                characters.push(character);
            }
        }
    }
    characters.push('\u{feff}');
    for character in characters {
        for colour in [
            format!("{}#\u{20ac}", character),
            format!("#\u{20ac}{}", character),
            format!("{}#fff{}", character, character),
            format!("{}\u{20ac}", character),
            format!("#ff{}\u{20ac}", character),
            format!("{}", character),
            format!("{}{}{}", character, character, character),
            format!("#f{}f{}", character, character),
        ] {
            check(&colour);
        }
    }
}
