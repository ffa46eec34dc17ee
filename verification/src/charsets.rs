//! Character-set lookup tables.
//!
//! A decoding session owns one active table out of four: Kana, Kanji, Latin
//! and Button.  Each table is a pure byte-to-glyph mapping; a byte without a
//! mapping yields `None`, and the decoders surface such bytes as tagged
//! unknown markers instead of characters.  The Button table resolves a byte
//! to one of a small closed set of controller buttons.

use vstd::prelude::*;

verus! {

/// Which of the four byte-to-glyph mappings is active.
#[derive(Clone, Copy, Debug, PartialEq, Eq)]
pub enum LookupTable {
    Kana,
    Kanji,
    Latin,
    Button,
}

/// The closed set of controller buttons the Button table can name.
#[derive(Clone, Copy, Debug, PartialEq, Eq)]
pub enum Button {
    A,
    B,
    Start,
    CDown,
    CLeft,
    Z,
}

/// The Kana table: one hiragana glyph per mapped byte.
pub open spec fn kana_spec(b: u8) -> Option<char> {
    match b {
        0x01 => Some('\u{3042}'),
        0x02 => Some('\u{3044}'),
        0x03 => Some('\u{3046}'),
        0x04 => Some('\u{3048}'),
        0x05 => Some('\u{304A}'),
        0x06 => Some('\u{304B}'),
        0x07 => Some('\u{304D}'),
        0x08 => Some('\u{304F}'),
        0x09 => Some('\u{3051}'),
        0x0A => Some('\u{3053}'),
        0x0B => Some('\u{3055}'),
        0x0C => Some('\u{3057}'),
        0x0D => Some('\u{3059}'),
        0x0E => Some('\u{305B}'),
        0x0F => Some('\u{305D}'),
        0x10 => Some('\u{305F}'),
        0x11 => Some('\u{3061}'),
        0x12 => Some('\u{3064}'),
        0x13 => Some('\u{3066}'),
        0x14 => Some('\u{3068}'),
        0x15 => Some('\u{306A}'),
        0x16 => Some('\u{306B}'),
        0x17 => Some('\u{306C}'),
        0x18 => Some('\u{306D}'),
        0x19 => Some('\u{306E}'),
        0x1A => Some('\u{306F}'),
        0x1B => Some('\u{3072}'),
        0x1C => Some('\u{3075}'),
        0x1D => Some('\u{3078}'),
        0x1E => Some('\u{307B}'),
        0x1F => Some('\u{307E}'),
        0x20 => Some('\u{307F}'),
        0x21 => Some('\u{3080}'),
        0x22 => Some('\u{3081}'),
        0x23 => Some('\u{3082}'),
        0x24 => Some('\u{3084}'),
        0x25 => Some('\u{3086}'),
        0x26 => Some('\u{3088}'),
        0x27 => Some('\u{3089}'),
        0x28 => Some('\u{308A}'),
        0x29 => Some('\u{308B}'),
        0x2A => Some('\u{308C}'),
        0x2B => Some('\u{308D}'),
        0x2C => Some('\u{308F}'),
        0x2D => Some('\u{3092}'),
        0x2E => Some('\u{3093}'),
        _ => None,
    }
}

pub fn kana(b: u8) -> (r: Option<char>)
    ensures
        r == kana_spec(b),
{
    match b {
        0x01 => Some('\u{3042}'),
        0x02 => Some('\u{3044}'),
        0x03 => Some('\u{3046}'),
        0x04 => Some('\u{3048}'),
        0x05 => Some('\u{304A}'),
        0x06 => Some('\u{304B}'),
        0x07 => Some('\u{304D}'),
        0x08 => Some('\u{304F}'),
        0x09 => Some('\u{3051}'),
        0x0A => Some('\u{3053}'),
        0x0B => Some('\u{3055}'),
        0x0C => Some('\u{3057}'),
        0x0D => Some('\u{3059}'),
        0x0E => Some('\u{305B}'),
        0x0F => Some('\u{305D}'),
        0x10 => Some('\u{305F}'),
        0x11 => Some('\u{3061}'),
        0x12 => Some('\u{3064}'),
        0x13 => Some('\u{3066}'),
        0x14 => Some('\u{3068}'),
        0x15 => Some('\u{306A}'),
        0x16 => Some('\u{306B}'),
        0x17 => Some('\u{306C}'),
        0x18 => Some('\u{306D}'),
        0x19 => Some('\u{306E}'),
        0x1A => Some('\u{306F}'),
        0x1B => Some('\u{3072}'),
        0x1C => Some('\u{3075}'),
        0x1D => Some('\u{3078}'),
        0x1E => Some('\u{307B}'),
        0x1F => Some('\u{307E}'),
        0x20 => Some('\u{307F}'),
        0x21 => Some('\u{3080}'),
        0x22 => Some('\u{3081}'),
        0x23 => Some('\u{3082}'),
        0x24 => Some('\u{3084}'),
        0x25 => Some('\u{3086}'),
        0x26 => Some('\u{3088}'),
        0x27 => Some('\u{3089}'),
        0x28 => Some('\u{308A}'),
        0x29 => Some('\u{308B}'),
        0x2A => Some('\u{308C}'),
        0x2B => Some('\u{308D}'),
        0x2C => Some('\u{308F}'),
        0x2D => Some('\u{3092}'),
        0x2E => Some('\u{3093}'),
        _ => None,
    }
}

/// The Kanji table: one ideograph per mapped byte.
pub open spec fn kanji_spec(b: u8) -> Option<char> {
    match b {
        0x00 => Some('\u{4EBA}'),
        0x01 => Some('\u{65E5}'),
        0x02 => Some('\u{6708}'),
        0x03 => Some('\u{706B}'),
        0x04 => Some('\u{6C34}'),
        0x05 => Some('\u{6728}'),
        0x06 => Some('\u{91D1}'),
        0x07 => Some('\u{571F}'),
        0x08 => Some('\u{5927}'),
        0x09 => Some('\u{5C0F}'),
        _ => None,
    }
}

pub fn kanji(b: u8) -> (r: Option<char>)
    ensures
        r == kanji_spec(b),
{
    match b {
        0x00 => Some('\u{4EBA}'),
        0x01 => Some('\u{65E5}'),
        0x02 => Some('\u{6708}'),
        0x03 => Some('\u{706B}'),
        0x04 => Some('\u{6C34}'),
        0x05 => Some('\u{6728}'),
        0x06 => Some('\u{91D1}'),
        0x07 => Some('\u{571F}'),
        0x08 => Some('\u{5927}'),
        0x09 => Some('\u{5C0F}'),
        _ => None,
    }
}

/// The Latin table: digits, then the upper-case and the lower-case alphabet,
/// in three consecutive byte ranges.
pub open spec fn latin_spec(b: u8) -> Option<char> {
    if b <= 0x09 {
        Some(((b + 0x30) as u8) as char)
    } else if b <= 0x23 {
        Some(((b + 0x37) as u8) as char)
    } else if b <= 0x3D {
        Some(((b + 0x3D) as u8) as char)
    } else {
        None
    }
}

pub fn latin(b: u8) -> (r: Option<char>)
    ensures
        r == latin_spec(b),
{
    if b <= 0x09 {
        Some((b + 0x30) as char)
    } else if b <= 0x23 {
        Some((b + 0x37) as char)
    } else if b <= 0x3D {
        Some((b + 0x3D) as char)
    } else {
        None
    }
}

/// The Button table: resolves a byte to a controller button.
pub open spec fn button_spec(b: u8) -> Option<Button> {
    match b {
        0x00 => Some(Button::A),
        0x01 => Some(Button::B),
        0x02 => Some(Button::Start),
        0x03 => Some(Button::CDown),
        0x04 => Some(Button::CLeft),
        0x05 => Some(Button::Z),
        _ => None,
    }
}

pub fn button(b: u8) -> (r: Option<Button>)
    ensures
        r == button_spec(b),
{
    match b {
        0x00 => Some(Button::A),
        0x01 => Some(Button::B),
        0x02 => Some(Button::Start),
        0x03 => Some(Button::CDown),
        0x04 => Some(Button::CLeft),
        0x05 => Some(Button::Z),
        _ => None,
    }
}

} // verus!
