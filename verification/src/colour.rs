//! Where a colour stands in the text of a window configuration.
//!
//! The parser of a colour cuts the colour's text at fixed byte offsets, and
//! stops the program where such an offset falls inside a character. This
//! module walks over the JSON text, byte by byte, and finds every string that
//! stands where a colour is read: under the name `backgroundColor`, under the
//! name `color` among the window effects, or at the place of one of these
//! where a configuration or its window effects are written as a list. A text
//! is admitted to the parser unless one of these strings is cut inside a
//! character.
//!
//! What is cut is the string as it is, or, where the string begins with `#`
//! once the white space around it is taken off, what stands between the `#`
//! and the white space at the end. The cuts are made where this has 3, 6 or 8
//! bytes: of 3 bytes each character is doubled, and then, as with 6 and 8
//! bytes, one pair of bytes after the other is cut off and read as a number
//! of two hex digits, until one is none.

use vstd::prelude::*;

verus! {

/// The name of the background colour, and the other way to write it.
pub const BACKGROUND: [u8; 15] = [
    0x62, 0x61, 0x63, 0x6b, 0x67, 0x72, 0x6f, 0x75, 0x6e, 0x64, 0x43, 0x6f, 0x6c, 0x6f, 0x72,
];

pub const BACKGROUND_DASHED: [u8; 16] = [
    0x62, 0x61, 0x63, 0x6b, 0x67, 0x72, 0x6f, 0x75, 0x6e, 0x64, 0x2d, 0x63, 0x6f, 0x6c, 0x6f, 0x72,
];

/// The name of the window effects, and the other way to write it.
pub const EFFECTS: [u8; 13] = [
    0x77, 0x69, 0x6e, 0x64, 0x6f, 0x77, 0x45, 0x66, 0x66, 0x65, 0x63, 0x74, 0x73,
];

pub const EFFECTS_DASHED: [u8; 14] = [
    0x77, 0x69, 0x6e, 0x64, 0x6f, 0x77, 0x2d, 0x65, 0x66, 0x66, 0x65, 0x63, 0x74, 0x73,
];

/// The name of the colour among the window effects.
pub const TINT: [u8; 5] = [0x63, 0x6f, 0x6c, 0x6f, 0x72];

/// The place of the window effects in a configuration that is written as a list.
pub const EFFECTS_PLACE: usize = 42;

/// The place of the background colour in a configuration that is written as a list.
pub const BACKGROUND_PLACE: usize = 50;

/// The place of the colour in window effects that are written as a list.
pub const TINT_PLACE: usize = 3;

/// What a name says of the value that follows it.
#[derive(Clone, Copy, Debug, PartialEq, Eq, Structural)]
pub enum Name {
    /// A name that is none of the others.
    Other,
    /// `backgroundColor` or `background-color`.
    Background,
    /// `windowEffects` or `window-effects`.
    Effects,
    /// `color`.
    Tint,
}

/// What of a string the parser of a colour cuts.
#[derive(Clone, Copy, Debug, PartialEq, Eq, Structural)]
pub enum Mode {
    /// Not known yet: only white space so far.
    Lead,
    /// What stands behind the `#` that came first after the white space.
    Hash,
    /// The string as it is.
    Whole,
}

/// What is known of the cuts through a run of characters.
#[derive(Clone, Copy, Debug, PartialEq, Eq, Structural)]
pub struct Pairs {
    /// The number of bytes of the characters, up to nine.
    pub length: u8,
    /// Whether the pairs so far were numbers, so that the next is cut off.
    pub live: bool,
    /// Whether the first byte of a pair has come, and not the second.
    pub half: bool,
    /// Whether that first byte can begin a number.
    pub first: bool,
    /// Whether the first character has three bytes.
    pub triple: bool,
    /// Whether one of the first three pairs is cut inside a character.
    pub cut6: bool,
    /// Whether one of the first four pairs is cut inside a character.
    pub cut8: bool,
}

/// How far the characters of a name, read so far, agree with the names that
/// matter: their number, and for each of those names whether they are its
/// first characters.
#[derive(Clone, Copy, Debug, PartialEq, Eq, Structural)]
pub struct Spelling {
    pub count: usize,
    pub background: bool,
    pub background_dashed: bool,
    pub effects: bool,
    pub effects_dashed: bool,
    pub tint: bool,
}

/// What is known of the record or list that the walk is in, at one depth.
#[derive(Clone, Copy, Debug, PartialEq, Eq, Structural)]
pub struct Level {
    /// Whether it is a record of named fields, and not a list.
    pub fields: bool,
    /// Whether the next string is a name, and not a value.
    pub naming: bool,
    /// The name that was read last.
    pub name: Name,
    /// The number of commas passed: the place of the value in a list.
    pub index: usize,
}

/// The state of the walk before a byte.
#[derive(Clone, Copy, Debug, PartialEq, Eq, Structural)]
pub struct Walk {
    /// Whether a colour was found that the parser is not to be given.
    pub refused: bool,
    /// How many records and lists are open.
    pub depth: usize,
    /// Whether the walk is inside a string.
    pub in_string: bool,
    /// Whether the byte before was a backslash that begins an escape.
    pub escaped: bool,
    /// How many hex digits of an escaped character are still to come.
    pub digits: u8,
    /// How many bytes of a character of more than one byte are still to come.
    pub pending: u8,
    /// The number that the hex digits or the bytes of the character give so
    /// far.
    pub code: u32,
    /// What of the string the parser of a colour cuts.
    pub mode: Mode,
    /// The cuts through the string from its begin.
    pub whole: Pairs,
    /// The cuts through what stands behind the `#`.
    pub behind: Pairs,
    /// The number of bytes behind the `#` up to the last character that is no
    /// white space.
    pub kept: u8,
    /// Whether the string is a name.
    pub naming: bool,
    /// What the characters of the string have spelled so far.
    pub spelling: Spelling,
    /// Whether the string stands where a colour is read.
    pub colour: bool,
    /// The record or list at depth one: the configuration.
    pub outer: Level,
    /// The record or list at depth two.
    pub inner: Level,
    /// Whether what is open at depth two stands where window effects are read.
    pub effects: bool,
}

/// A record or list that has just been opened by `byte`.
pub open spec fn opened(byte: u8) -> Level {
    Level { fields: byte == 0x7b, naming: byte == 0x7b, name: Name::Other, index: 0 }
}

/// The spelling of a string of which no character has been read.
pub open spec fn unspelled() -> Spelling {
    Spelling {
        count: 0,
        background: true,
        background_dashed: true,
        effects: true,
        effects_dashed: true,
        tint: true,
    }
}

/// The cuts through no characters.
pub open spec fn uncut() -> Pairs {
    Pairs {
        length: 0,
        live: true,
        half: false,
        first: false,
        triple: false,
        cut6: false,
        cut8: false,
    }
}

/// The state of the walk before the first byte.
pub open spec fn start() -> Walk {
    Walk {
        refused: false,
        depth: 0,
        in_string: false,
        escaped: false,
        digits: 0,
        pending: 0,
        code: 0,
        mode: Mode::Lead,
        whole: uncut(),
        behind: uncut(),
        kept: 0,
        naming: false,
        spelling: unspelled(),
        colour: false,
        outer: opened(0),
        inner: opened(0),
        effects: false,
    }
}

/// Whether the character with the number `code` is the one of `name` at `at`.
pub open spec fn agrees(name: Seq<u8>, at: int, code: u32) -> bool {
    0 <= at < name.len() && name[at] == code
}

/// `spelling` after one more character, with the number `code`.
pub open spec fn spelled(spelling: Spelling, code: u32) -> Spelling {
    let at = spelling.count as int;
    Spelling {
        count: if spelling.count < usize::MAX {
            (spelling.count + 1) as usize
        } else {
            spelling.count
        },
        background: spelling.background && agrees(BACKGROUND@, at, code),
        background_dashed: spelling.background_dashed && agrees(BACKGROUND_DASHED@, at, code),
        effects: spelling.effects && agrees(EFFECTS@, at, code),
        effects_dashed: spelling.effects_dashed && agrees(EFFECTS_DASHED@, at, code),
        tint: spelling.tint && agrees(TINT@, at, code),
    }
}

/// What a name with the spelling `spelling` says, now that it has ended.
pub open spec fn name_of(spelling: Spelling) -> Name {
    if (spelling.background && spelling.count == BACKGROUND@.len()) || (
    spelling.background_dashed && spelling.count == BACKGROUND_DASHED@.len()) {
        Name::Background
    } else if (spelling.effects && spelling.count == EFFECTS@.len()) || (spelling.effects_dashed
        && spelling.count == EFFECTS_DASHED@.len()) {
        Name::Effects
    } else if spelling.tint && spelling.count == TINT@.len() {
        Name::Tint
    } else {
        Name::Other
    }
}

/// The number that the hex digit `byte` stands for, or 16 where it is none.
pub open spec fn hex_of(byte: u8) -> u32 {
    if 0x30 <= byte <= 0x39 {
        (byte - 0x30) as u32
    } else if 0x41 <= byte <= 0x46 {
        (byte - 0x41 + 10) as u32
    } else if 0x61 <= byte <= 0x66 {
        (byte - 0x61 + 10) as u32
    } else {
        16
    }
}

/// Whether the character with the number `code` is white space, which is
/// taken off at both ends of a colour that begins with `#`.
pub open spec fn is_space(code: u32) -> bool {
    ||| 0x09 <= code <= 0x0d
    ||| code == 0x20
    ||| code == 0x85
    ||| code == 0xa0
    ||| code == 0x1680
    ||| 0x2000 <= code <= 0x200a
    ||| code == 0x2028
    ||| code == 0x2029
    ||| code == 0x202f
    ||| code == 0x205f
    ||| code == 0x3000
}

/// The number of bytes of the character with the number `code`. The first
/// half of a character that is escaped in two halves counts for both.
pub open spec fn width_of(code: u32) -> u8 {
    if code < 0x80 {
        1
    } else if code < 0x800 {
        2
    } else if 0xd800 <= code <= 0xdbff {
        4
    } else if 0xdc00 <= code <= 0xdfff {
        0
    } else if code < 0x10000 {
        3
    } else {
        4
    }
}

/// Whether the character with the number `code` is a hex digit.
pub open spec fn is_hex(code: u32) -> bool {
    (0x30 <= code <= 0x39) || (0x41 <= code <= 0x46) || (0x61 <= code <= 0x66)
}

/// The cuts through a run of characters and one more, with the number `code`.
/// A pair is cut off while the pairs before it were numbers. It is cut inside
/// a character unless it is two characters of one byte or one of two bytes.
pub open spec fn grown(pairs: Pairs, code: u32) -> Pairs {
    let width = width_of(code);
    let at = pairs.length;
    let inside = pairs.live && at < 8 && (if pairs.half {
        width >= 2
    } else {
        width >= 3
    });
    Pairs {
        length: if at + width > 9 {
            9
        } else {
            (at + width) as u8
        },
        live: pairs.live && at < 8 && width == 1 && (!pairs.half || (pairs.first && is_hex(code))),
        half: pairs.live && at < 8 && width == 1 && !pairs.half,
        first: is_hex(code) || code == 0x2b,
        triple: if at == 0 {
            width == 3
        } else {
            pairs.triple
        },
        cut6: pairs.cut6 || (inside && at < 6),
        cut8: pairs.cut8 || inside,
    }
}

/// Whether a run of characters with the cuts `pairs`, of which the first
/// `length` bytes are cut, is cut inside a character.
pub open spec fn cut_inside(pairs: Pairs, length: u8) -> bool {
    (length == 3 && pairs.triple) || (length == 6 && pairs.cut6) || (length == 8 && pairs.cut8)
}

/// Whether the string that ends in state `walk` is cut inside a character.
pub open spec fn breaks(walk: Walk) -> bool {
    if walk.mode == Mode::Hash {
        cut_inside(walk.behind, walk.kept)
    } else {
        cut_inside(walk.whole, walk.whole.length)
    }
}

/// The state of the walk after one more character of a string has been read,
/// with the number `code`: a name is spelled on, and what the parser of a
/// colour cuts is followed.
pub open spec fn read(code: u32, walk: Walk) -> Walk {
    let space = is_space(code);
    let behind = grown(walk.behind, code);
    Walk {
        spelling: spelled(walk.spelling, code),
        whole: grown(walk.whole, code),
        mode: if walk.mode == Mode::Lead {
            if space {
                Mode::Lead
            } else if code == 0x23 {
                Mode::Hash
            } else {
                Mode::Whole
            }
        } else {
            walk.mode
        },
        behind: if walk.mode == Mode::Hash {
            behind
        } else {
            uncut()
        },
        kept: if walk.mode == Mode::Hash {
            if space {
                walk.kept
            } else {
                behind.length
            }
        } else {
            0
        },
        ..walk
    }
}

/// The state of the walk after a hex digit of an escaped character. With the
/// fourth digit the character is read. A byte that is no hex digit ends the
/// escape; the parser reads no further than this.
pub open spec fn step_in_code(byte: u8, walk: Walk) -> Walk {
    if hex_of(byte) >= 16 {
        Walk { digits: 0, ..walk }
    } else {
        let code = ((walk.code % 0x1000) * 16 + hex_of(byte)) as u32;
        if walk.digits == 1 {
            read(code, Walk { digits: 0, code, ..walk })
        } else {
            Walk { digits: (walk.digits - 1) as u8, code, ..walk }
        }
    }
}

/// The number of the character that a backslash and `byte` stand for; 0 for
/// a byte that the parser takes after no backslash.
pub open spec fn escape_of(byte: u8) -> u32 {
    if byte == 0x62 {
        0x08
    } else if byte == 0x66 {
        0x0c
    } else if byte == 0x6e {
        0x0a
    } else if byte == 0x72 {
        0x0d
    } else if byte == 0x74 {
        0x09
    } else if byte == 0x22 || byte == 0x5c || byte == 0x2f {
        byte as u32
    } else {
        0
    }
}

/// The state of the walk after the byte that follows a backslash: `u` begins
/// the four hex digits of a character, and every other byte stands for one
/// character of ASCII.
pub open spec fn step_escaped(byte: u8, walk: Walk) -> Walk {
    if byte == 0x75 {
        Walk { escaped: false, digits: 4, code: 0, ..walk }
    } else {
        read(escape_of(byte), Walk { escaped: false, ..walk })
    }
}

/// The state of the walk after a byte of a character of more than one byte.
/// With the last byte the character is read. A byte that continues no
/// character ends it; the parser takes no such string.
pub open spec fn step_in_character(byte: u8, walk: Walk) -> Walk {
    if 0x80 <= byte <= 0xbf {
        let code = ((walk.code % 0x10000) * 64 + (byte - 0x80)) as u32;
        if walk.pending == 1 {
            read(code, Walk { pending: 0, code, ..walk })
        } else {
            Walk { pending: (walk.pending - 1) as u8, code, ..walk }
        }
    } else {
        Walk { pending: 0, ..walk }
    }
}

/// The state of the walk after a byte beyond ASCII that begins a character.
/// A byte that begins none is read as a character of one byte; the parser
/// takes no such string, and cuts nothing of it.
pub open spec fn step_beyond(byte: u8, walk: Walk) -> Walk {
    if 0xc0 <= byte <= 0xdf {
        Walk { pending: 1, code: (byte - 0xc0) as u32, ..walk }
    } else if 0xe0 <= byte <= 0xef {
        Walk { pending: 2, code: (byte - 0xe0) as u32, ..walk }
    } else if 0xf0 <= byte <= 0xf7 {
        Walk { pending: 3, code: (byte - 0xf0) as u32, ..walk }
    } else {
        read(0, walk)
    }
}

/// The state of the walk after the quote that ends a string: a name is kept
/// for the value that follows it, and the text is refused where the string is
/// a colour that is cut inside a character.
pub open spec fn ended(walk: Walk) -> Walk {
    let name = name_of(walk.spelling);
    if walk.naming && walk.depth == 1 {
        Walk { in_string: false, outer: Level { name, ..walk.outer }, ..walk }
    } else if walk.naming && walk.depth == 2 {
        Walk { in_string: false, inner: Level { name, ..walk.inner }, ..walk }
    } else {
        Walk { in_string: false, refused: walk.refused || (walk.colour && breaks(walk)), ..walk }
    }
}

/// The state of the walk after `byte` inside a string.
pub open spec fn step_in_string(byte: u8, walk: Walk) -> Walk {
    if walk.digits > 0 {
        step_in_code(byte, walk)
    } else if walk.escaped {
        step_escaped(byte, walk)
    } else if walk.pending > 0 {
        step_in_character(byte, walk)
    } else if byte == 0x5c {
        Walk { escaped: true, ..walk }
    } else if byte == 0x22 {
        ended(walk)
    } else if byte < 0x80 {
        read(byte as u32, walk)
    } else {
        step_beyond(byte, walk)
    }
}

/// Whether a string that begins in state `walk` is a name.
pub open spec fn at_name(walk: Walk) -> bool {
    if walk.depth == 1 {
        walk.outer.fields && walk.outer.naming
    } else if walk.depth == 2 {
        walk.inner.fields && walk.inner.naming
    } else {
        false
    }
}

/// Whether a value that begins in state `walk` stands where a colour is read.
pub open spec fn at_colour(walk: Walk) -> bool {
    if walk.depth == 1 {
        if walk.outer.fields {
            walk.outer.name == Name::Background
        } else {
            walk.outer.index == BACKGROUND_PLACE
        }
    } else if walk.depth == 2 && walk.effects {
        if walk.inner.fields {
            walk.inner.name == Name::Tint
        } else {
            walk.inner.index == TINT_PLACE
        }
    } else {
        false
    }
}

/// Whether a value that begins in state `walk`, at depth one, stands where
/// window effects are read.
pub open spec fn at_effects(walk: Walk) -> bool {
    if walk.outer.fields {
        walk.outer.name == Name::Effects
    } else {
        walk.outer.index == EFFECTS_PLACE
    }
}

/// `level` after a comma: the next value has the next place, and in a record
/// a name comes first.
pub open spec fn after_comma(level: Level) -> Level {
    Level {
        fields: level.fields,
        naming: level.fields,
        name: Name::Other,
        index: if level.index < usize::MAX {
            (level.index + 1) as usize
        } else {
            level.index
        },
    }
}

/// The state of the walk after the quote that begins a string.
pub open spec fn begun(walk: Walk) -> Walk {
    Walk {
        in_string: true,
        escaped: false,
        digits: 0,
        pending: 0,
        code: 0,
        mode: Mode::Lead,
        whole: uncut(),
        behind: uncut(),
        kept: 0,
        naming: at_name(walk),
        spelling: unspelled(),
        colour: !at_name(walk) && at_colour(walk),
        ..walk
    }
}

/// The state of the walk after `byte` has opened a record or a list.
pub open spec fn deeper(byte: u8, walk: Walk) -> Walk {
    if walk.depth == 0 {
        Walk { depth: 1, outer: opened(byte), ..walk }
    } else if walk.depth == 1 {
        Walk { depth: 2, inner: opened(byte), effects: at_effects(walk), ..walk }
    } else if walk.depth < usize::MAX {
        Walk { depth: (walk.depth + 1) as usize, ..walk }
    } else {
        walk
    }
}

/// The state of the walk after a record or a list has been closed.
pub open spec fn higher(walk: Walk) -> Walk {
    if walk.depth > 0 {
        Walk { depth: (walk.depth - 1) as usize, ..walk }
    } else {
        walk
    }
}

/// The state of the walk after a colon: a value follows.
pub open spec fn named(walk: Walk) -> Walk {
    if walk.depth == 1 {
        Walk { outer: Level { naming: false, ..walk.outer }, ..walk }
    } else if walk.depth == 2 {
        Walk { inner: Level { naming: false, ..walk.inner }, ..walk }
    } else {
        walk
    }
}

/// The state of the walk after a comma.
pub open spec fn parted(walk: Walk) -> Walk {
    if walk.depth == 1 {
        Walk { outer: after_comma(walk.outer), ..walk }
    } else if walk.depth == 2 {
        Walk { inner: after_comma(walk.inner), ..walk }
    } else {
        walk
    }
}

/// The state of the walk after `byte` outside a string.
pub open spec fn step_between(byte: u8, walk: Walk) -> Walk {
    if byte == 0x22 {
        begun(walk)
    } else if byte == 0x7b || byte == 0x5b {
        deeper(byte, walk)
    } else if byte == 0x7d || byte == 0x5d {
        higher(walk)
    } else if byte == 0x3a {
        named(walk)
    } else if byte == 0x2c {
        parted(walk)
    } else {
        walk
    }
}

/// The state of the walk after `byte`.
pub open spec fn step(byte: u8, walk: Walk) -> Walk {
    if walk.in_string {
        step_in_string(byte, walk)
    } else {
        step_between(byte, walk)
    }
}

/// The state of the walk after the first `count` bytes of `text`.
pub open spec fn walked(text: Seq<u8>, count: int) -> Walk
    decreases count,
{
    if count <= 0 {
        start()
    } else {
        step(text[count - 1], walked(text, count - 1))
    }
}

/// The texts that are handed to the parser: those in which no string that
/// stands where a colour is read is cut inside a character.
pub open spec fn admitted(text: Seq<u8>) -> bool {
    !walked(text, text.len() as int).refused
}

/// Whether no cut through the characters so far lies inside a character.
pub open spec fn uncut_so_far(walk: Walk) -> bool {
    &&& !walk.whole.triple && !walk.whole.cut6 && !walk.whole.cut8
    &&& !walk.behind.triple && !walk.behind.cut6 && !walk.behind.cut8
}

/// After bytes of ASCII without a backslash nothing is refused, no escape and
/// no character is open, and no cut lies inside a character.
pub proof fn lemma_plain_walk(text: Seq<u8>, count: int)
    requires
        0 <= count <= text.len(),
        forall|i: int| 0 <= i < count ==> text[i] < 0x80 && text[i] != 0x5c,
    ensures
        !walked(text, count).refused,
        !walked(text, count).escaped,
        walked(text, count).digits == 0,
        walked(text, count).pending == 0,
        uncut_so_far(walked(text, count)),
    decreases count,
{
    if count > 0 {
        lemma_plain_walk(text, count - 1);
    }
}

/// A text of ASCII without a backslash is admitted, whatever it holds: every
/// character of every string in it has one byte.
pub proof fn lemma_plain_text_is_admitted(text: Seq<u8>)
    requires
        forall|i: int| 0 <= i < text.len() ==> text[i] < 0x80 && text[i] != 0x5c,
    ensures
        admitted(text),
{
    lemma_plain_walk(text, text.len() as int);
}

/// Whether the numbers of `walk` are within the first `count` bytes.
pub open spec fn within(walk: Walk, count: int) -> bool {
    &&& walk.depth <= count
    &&& walk.outer.index <= count
    &&& walk.inner.index <= count
    &&& walk.spelling.count <= count
    &&& walk.digits <= 4
    &&& walk.pending <= 3
    &&& walk.whole.length <= 9
    &&& walk.behind.length <= 9
}

/// Whether the character with the number `code` is the one of `name` at `at`.
fn is_agreed(name: &[u8], at: usize, code: u32) -> (r: bool)
    ensures
        r == agrees(name@, at as int, code),
{
    at < name.len() && name[at] as u32 == code
}

/// `spelling` after one more character, with the number `code`.
fn spell(spelling: Spelling, code: u32) -> (r: Spelling)
    requires
        spelling.count < usize::MAX,
    ensures
        r == spelled(spelling, code),
        r.count == spelling.count + 1,
{
    let at = spelling.count;
    Spelling {
        count: at + 1,
        background: spelling.background && is_agreed(BACKGROUND.as_slice(), at, code),
        background_dashed: spelling.background_dashed && is_agreed(
            BACKGROUND_DASHED.as_slice(),
            at,
            code,
        ),
        effects: spelling.effects && is_agreed(EFFECTS.as_slice(), at, code),
        effects_dashed: spelling.effects_dashed && is_agreed(EFFECTS_DASHED.as_slice(), at, code),
        tint: spelling.tint && is_agreed(TINT.as_slice(), at, code),
    }
}

/// What a name with the spelling `spelling` says, now that it has ended.
fn read_name(spelling: &Spelling) -> (r: Name)
    ensures
        r == name_of(*spelling),
{
    if (spelling.background && spelling.count == BACKGROUND.len()) || (spelling.background_dashed
        && spelling.count == BACKGROUND_DASHED.len()) {
        Name::Background
    } else if (spelling.effects && spelling.count == EFFECTS.len()) || (spelling.effects_dashed
        && spelling.count == EFFECTS_DASHED.len()) {
        Name::Effects
    } else if spelling.tint && spelling.count == TINT.len() {
        Name::Tint
    } else {
        Name::Other
    }
}

/// The number that the hex digit `byte` stands for, or 16 where it is none.
fn hex_value(byte: u8) -> (r: u32)
    ensures
        r == hex_of(byte),
        r <= 16,
{
    if 0x30 <= byte && byte <= 0x39 {
        (byte - 0x30) as u32
    } else if 0x41 <= byte && byte <= 0x46 {
        (byte - 0x41 + 10) as u32
    } else if 0x61 <= byte && byte <= 0x66 {
        (byte - 0x61 + 10) as u32
    } else {
        16
    }
}

/// Whether the character with the number `code` is white space.
fn is_white(code: u32) -> (r: bool)
    ensures
        r == is_space(code),
{
    (0x09 <= code && code <= 0x0d) || code == 0x20 || code == 0x85 || code == 0xa0 || code
        == 0x1680 || (0x2000 <= code && code <= 0x200a) || code == 0x2028 || code == 0x2029
        || code == 0x202f || code == 0x205f || code == 0x3000
}

/// The number of bytes of the character with the number `code`.
fn width(code: u32) -> (r: u8)
    ensures
        r == width_of(code),
        r <= 4,
{
    if code < 0x80 {
        1
    } else if code < 0x800 {
        2
    } else if 0xd800 <= code && code <= 0xdbff {
        4
    } else if 0xdc00 <= code && code <= 0xdfff {
        0
    } else if code < 0x10000 {
        3
    } else {
        4
    }
}

/// Whether the character with the number `code` is a hex digit.
fn is_hex_digit(code: u32) -> (r: bool)
    ensures
        r == is_hex(code),
{
    (0x30 <= code && code <= 0x39) || (0x41 <= code && code <= 0x46) || (0x61 <= code && code
        <= 0x66)
}

/// The cuts through a run of characters and one more, with the number `code`.
fn grow(pairs: Pairs, code: u32) -> (r: Pairs)
    requires
        pairs.length <= 9,
    ensures
        r == grown(pairs, code),
        r.length <= 9,
{
    let wide = width(code);
    let at = pairs.length;
    let open = pairs.live && at < 8;
    let inside = open && (if pairs.half {
        wide >= 2
    } else {
        wide >= 3
    });
    let hex = is_hex_digit(code);
    Pairs {
        length: if at + wide > 9 {
            9
        } else {
            at + wide
        },
        live: open && wide == 1 && (!pairs.half || (pairs.first && hex)),
        half: open && wide == 1 && !pairs.half,
        first: hex || code == 0x2b,
        triple: if at == 0 {
            wide == 3
        } else {
            pairs.triple
        },
        cut6: pairs.cut6 || (inside && at < 6),
        cut8: pairs.cut8 || inside,
    }
}

/// Whether the string that ends in state `walk` is cut inside a character.
fn is_broken(walk: &Walk) -> (r: bool)
    ensures
        r == breaks(*walk),
{
    if walk.mode == Mode::Hash {
        (walk.kept == 3 && walk.behind.triple) || (walk.kept == 6 && walk.behind.cut6) || (
        walk.kept == 8 && walk.behind.cut8)
    } else {
        let length = walk.whole.length;
        (length == 3 && walk.whole.triple) || (length == 6 && walk.whole.cut6) || (length == 8
            && walk.whole.cut8)
    }
}

/// The cuts through no characters.
fn no_cuts() -> (r: Pairs)
    ensures
        r == uncut(),
{
    Pairs {
        length: 0,
        live: true,
        half: false,
        first: false,
        triple: false,
        cut6: false,
        cut8: false,
    }
}

/// Reads one more character of a string, with the number `code`.
fn read_character(code: u32, at: usize, walk: Walk) -> (r: Walk)
    requires
        at < usize::MAX,
        within(walk, at as int),
    ensures
        r == read(code, walk),
        within(r, at + 1),
{
    let space = is_white(code);
    let spelling = spell(walk.spelling, code);
    let whole = grow(walk.whole, code);
    if walk.mode == Mode::Hash {
        let behind = grow(walk.behind, code);
        let kept = if space {
            walk.kept
        } else {
            behind.length
        };
        Walk { spelling, whole, behind, kept, ..walk }
    } else {
        let mode = if walk.mode == Mode::Lead {
            if space {
                Mode::Lead
            } else if code == 0x23 {
                Mode::Hash
            } else {
                Mode::Whole
            }
        } else {
            walk.mode
        };
        Walk { spelling, whole, mode, behind: no_cuts(), kept: 0, ..walk }
    }
}

/// Takes a hex digit of an escaped character.
fn take_in_code(byte: u8, at: usize, walk: Walk) -> (r: Walk)
    requires
        at < usize::MAX,
        within(walk, at as int),
        walk.digits > 0,
    ensures
        r == step_in_code(byte, walk),
        within(r, at + 1),
{
    let digit = hex_value(byte);
    if digit >= 16 {
        Walk { digits: 0, ..walk }
    } else {
        let code: u32 = (walk.code % 0x1000) * 16 + digit;
        if walk.digits == 1 {
            read_character(code, at, Walk { digits: 0, code, ..walk })
        } else {
            Walk { digits: walk.digits - 1, code, ..walk }
        }
    }
}

/// The number of the character that a backslash and `byte` stand for.
fn escape_value(byte: u8) -> (r: u32)
    ensures
        r == escape_of(byte),
{
    if byte == 0x62 {
        0x08
    } else if byte == 0x66 {
        0x0c
    } else if byte == 0x6e {
        0x0a
    } else if byte == 0x72 {
        0x0d
    } else if byte == 0x74 {
        0x09
    } else if byte == 0x22 || byte == 0x5c || byte == 0x2f {
        byte as u32
    } else {
        0
    }
}

/// Takes the byte that follows a backslash.
fn take_escaped(byte: u8, at: usize, walk: Walk) -> (r: Walk)
    requires
        at < usize::MAX,
        within(walk, at as int),
    ensures
        r == step_escaped(byte, walk),
        within(r, at + 1),
{
    if byte == 0x75 {
        Walk { escaped: false, digits: 4, code: 0, ..walk }
    } else {
        read_character(escape_value(byte), at, Walk { escaped: false, ..walk })
    }
}

/// Takes a byte of a character of more than one byte.
fn take_in_character(byte: u8, at: usize, walk: Walk) -> (r: Walk)
    requires
        at < usize::MAX,
        within(walk, at as int),
        walk.pending > 0,
    ensures
        r == step_in_character(byte, walk),
        within(r, at + 1),
{
    if 0x80 <= byte && byte <= 0xbf {
        let code: u32 = (walk.code % 0x10000) * 64 + (byte - 0x80) as u32;
        if walk.pending == 1 {
            read_character(code, at, Walk { pending: 0, code, ..walk })
        } else {
            Walk { pending: walk.pending - 1, code, ..walk }
        }
    } else {
        Walk { pending: 0, ..walk }
    }
}

/// Takes a byte beyond ASCII that begins a character.
fn take_beyond(byte: u8, at: usize, walk: Walk) -> (r: Walk)
    requires
        at < usize::MAX,
        within(walk, at as int),
        byte >= 0x80,
    ensures
        r == step_beyond(byte, walk),
        within(r, at + 1),
{
    if 0xc0 <= byte && byte <= 0xdf {
        Walk { pending: 1, code: (byte - 0xc0) as u32, ..walk }
    } else if 0xe0 <= byte && byte <= 0xef {
        Walk { pending: 2, code: (byte - 0xe0) as u32, ..walk }
    } else if 0xf0 <= byte && byte <= 0xf7 {
        Walk { pending: 3, code: (byte - 0xf0) as u32, ..walk }
    } else {
        read_character(0, at, walk)
    }
}

/// Ends a string at its closing quote.
fn end_string(at: usize, walk: Walk) -> (r: Walk)
    requires
        within(walk, at as int),
    ensures
        r == ended(walk),
        within(r, at + 1),
{
    let name = read_name(&walk.spelling);
    if walk.naming && walk.depth == 1 {
        Walk { in_string: false, outer: Level { name, ..walk.outer }, ..walk }
    } else if walk.naming && walk.depth == 2 {
        Walk { in_string: false, inner: Level { name, ..walk.inner }, ..walk }
    } else {
        let broken = is_broken(&walk);
        Walk { in_string: false, refused: walk.refused || (walk.colour && broken), ..walk }
    }
}

/// Takes `byte` inside a string.
fn take_in_string(byte: u8, at: usize, walk: Walk) -> (r: Walk)
    requires
        at < usize::MAX,
        within(walk, at as int),
    ensures
        r == step_in_string(byte, walk),
        within(r, at + 1),
{
    if walk.digits > 0 {
        take_in_code(byte, at, walk)
    } else if walk.escaped {
        take_escaped(byte, at, walk)
    } else if walk.pending > 0 {
        take_in_character(byte, at, walk)
    } else if byte == 0x5c {
        Walk { escaped: true, ..walk }
    } else if byte == 0x22 {
        end_string(at, walk)
    } else if byte < 0x80 {
        read_character(byte as u32, at, walk)
    } else {
        take_beyond(byte, at, walk)
    }
}

/// Whether a string that begins in state `walk` is a name.
fn is_at_name(walk: &Walk) -> (r: bool)
    ensures
        r == at_name(*walk),
{
    if walk.depth == 1 {
        walk.outer.fields && walk.outer.naming
    } else if walk.depth == 2 {
        walk.inner.fields && walk.inner.naming
    } else {
        false
    }
}

/// Whether a value that begins in state `walk` stands where a colour is read.
fn is_at_colour(walk: &Walk) -> (r: bool)
    ensures
        r == at_colour(*walk),
{
    if walk.depth == 1 {
        if walk.outer.fields {
            walk.outer.name == Name::Background
        } else {
            walk.outer.index == BACKGROUND_PLACE
        }
    } else if walk.depth == 2 && walk.effects {
        if walk.inner.fields {
            walk.inner.name == Name::Tint
        } else {
            walk.inner.index == TINT_PLACE
        }
    } else {
        false
    }
}

/// Whether a value that begins in state `walk`, at depth one, stands where
/// window effects are read.
fn is_at_effects(walk: &Walk) -> (r: bool)
    ensures
        r == at_effects(*walk),
{
    if walk.outer.fields {
        walk.outer.name == Name::Effects
    } else {
        walk.outer.index == EFFECTS_PLACE
    }
}

/// `level` after a comma.
fn pass_comma(level: Level, count: usize) -> (r: Level)
    requires
        level.index <= count < usize::MAX,
    ensures
        r == after_comma(level),
        r.index <= count + 1,
{
    Level { fields: level.fields, naming: level.fields, name: Name::Other, index: level.index + 1 }
}

/// Begins a string at its opening quote.
fn begin_string(at: usize, walk: Walk) -> (r: Walk)
    requires
        within(walk, at as int),
    ensures
        r == begun(walk),
        within(r, at + 1),
{
    let naming = is_at_name(&walk);
    let colour = is_at_colour(&walk);
    Walk {
        in_string: true,
        escaped: false,
        digits: 0,
        pending: 0,
        code: 0,
        mode: Mode::Lead,
        whole: no_cuts(),
        behind: no_cuts(),
        kept: 0,
        naming,
        spelling: Spelling {
            count: 0,
            background: true,
            background_dashed: true,
            effects: true,
            effects_dashed: true,
            tint: true,
        },
        colour: !naming && colour,
        ..walk
    }
}

/// Opens the record or list that `byte` begins.
fn go_deeper(byte: u8, at: usize, walk: Walk) -> (r: Walk)
    requires
        at < usize::MAX,
        within(walk, at as int),
    ensures
        r == deeper(byte, walk),
        within(r, at + 1),
{
    let fresh = Level { fields: byte == 0x7b, naming: byte == 0x7b, name: Name::Other, index: 0 };
    if walk.depth == 0 {
        Walk { depth: 1, outer: fresh, ..walk }
    } else if walk.depth == 1 {
        let effects = is_at_effects(&walk);
        Walk { depth: 2, inner: fresh, effects, ..walk }
    } else {
        Walk { depth: walk.depth + 1, ..walk }
    }
}

/// Closes a record or a list.
fn go_higher(at: usize, walk: Walk) -> (r: Walk)
    requires
        within(walk, at as int),
    ensures
        r == higher(walk),
        within(r, at + 1),
{
    if walk.depth > 0 {
        Walk { depth: walk.depth - 1, ..walk }
    } else {
        walk
    }
}

/// Passes a colon.
fn pass_colon(at: usize, walk: Walk) -> (r: Walk)
    requires
        within(walk, at as int),
    ensures
        r == named(walk),
        within(r, at + 1),
{
    if walk.depth == 1 {
        Walk { outer: Level { naming: false, ..walk.outer }, ..walk }
    } else if walk.depth == 2 {
        Walk { inner: Level { naming: false, ..walk.inner }, ..walk }
    } else {
        walk
    }
}

/// Passes a comma.
fn part(at: usize, walk: Walk) -> (r: Walk)
    requires
        at < usize::MAX,
        within(walk, at as int),
    ensures
        r == parted(walk),
        within(r, at + 1),
{
    if walk.depth == 1 {
        Walk { outer: pass_comma(walk.outer, at), ..walk }
    } else if walk.depth == 2 {
        Walk { inner: pass_comma(walk.inner, at), ..walk }
    } else {
        walk
    }
}

/// Takes `byte` outside a string.
fn take_between(byte: u8, at: usize, walk: Walk) -> (r: Walk)
    requires
        at < usize::MAX,
        within(walk, at as int),
    ensures
        r == step_between(byte, walk),
        within(r, at + 1),
{
    if byte == 0x22 {
        begin_string(at, walk)
    } else if byte == 0x7b || byte == 0x5b {
        go_deeper(byte, at, walk)
    } else if byte == 0x7d || byte == 0x5d {
        go_higher(at, walk)
    } else if byte == 0x3a {
        pass_colon(at, walk)
    } else if byte == 0x2c {
        part(at, walk)
    } else {
        walk
    }
}

/// Whether `text` is admitted to the parser.
pub fn is_admitted(text: &[u8]) -> (r: bool)
    ensures
        r == admitted(text@),
{
    let fresh = Level { fields: false, naming: false, name: Name::Other, index: 0 };
    let mut walk = Walk {
        refused: false,
        depth: 0,
        in_string: false,
        escaped: false,
        digits: 0,
        pending: 0,
        code: 0,
        mode: Mode::Lead,
        whole: no_cuts(),
        behind: no_cuts(),
        kept: 0,
        naming: false,
        spelling: Spelling {
            count: 0,
            background: true,
            background_dashed: true,
            effects: true,
            effects_dashed: true,
            tint: true,
        },
        colour: false,
        outer: fresh,
        inner: fresh,
        effects: false,
    };
    let mut at: usize = 0;
    while at < text.len()
        invariant
            at <= text.len(),
            walk == walked(text@, at as int),
            within(walk, at as int),
        decreases text.len() - at,
    {
        let byte = text[at];
        walk = if walk.in_string {
            take_in_string(byte, at, walk)
        } else {
            take_between(byte, at, walk)
        };
        at += 1;
    }
    !walk.refused
}

} // verus!
