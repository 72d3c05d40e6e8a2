//! Glyphs and colors of one grid cell.
//!
//! A glyph is a byte index into the fixed glyph atlas. Characters are
//! representable when they are printable ASCII or one of the box-drawing
//! characters the atlas provides; everything else is a per-character
//! encoding error.

use vstd::prelude::*;

verus! {

/// A glyph: one byte indexing the fixed glyph atlas.
#[derive(Debug, Clone, Copy, PartialEq, Eq, Structural)]
pub struct VGAChar(pub u8);

/// The atlas byte a character encodes to, or `None` when the character is
/// outside the representable set. Printable ASCII maps to its own code;
/// the box-drawing characters map to their traditional atlas slots.
pub open spec fn spec_glyph_of_char(c: char) -> Option<u8> {
    if 0x20 <= c as u32 && c as u32 <= 0x7e {
        Some(c as u8)
    } else if c == '─' {
        Some(0xc4)
    } else if c == '│' {
        Some(0xb3)
    } else if c == '┌' {
        Some(0xda)
    } else if c == '┐' {
        Some(0xbf)
    } else if c == '└' {
        Some(0xc0)
    } else if c == '┘' {
        Some(0xd9)
    } else if c == '├' {
        Some(0xc3)
    } else if c == '┤' {
        Some(0xb4)
    } else if c == '┬' {
        Some(0xc2)
    } else if c == '┴' {
        Some(0xc1)
    } else if c == '┼' {
        Some(0xc5)
    } else {
        None
    }
}

/// Whether a character has a glyph in the atlas.
pub open spec fn spec_char_representable(c: char) -> bool {
    spec_glyph_of_char(c) is Some
}

impl VGAChar {
    /// The blank glyph: a space.
    pub open spec fn spec_blank() -> VGAChar {
        VGAChar(0x20)
    }

    /// The blank glyph: a space.
    pub fn blank() -> (r: VGAChar)
        ensures
            r == VGAChar::spec_blank(),
    {
        VGAChar(0x20)
    }

    /// Encode a character as a glyph; the offending character comes back as
    /// the error when it has no glyph.
    pub fn from_char(c: char) -> (r: Result<VGAChar, char>)
        ensures
            match r {
                Ok(g) => spec_glyph_of_char(c) == Some(g.0),
                Err(e) => e == c && spec_glyph_of_char(c) is None,
            },
    {
        let code: u32 = c as u32;
        if 0x20 <= code && code <= 0x7e {
            Ok(VGAChar(code as u8))
        } else if c == '─' {
            Ok(VGAChar(0xc4))
        } else if c == '│' {
            Ok(VGAChar(0xb3))
        } else if c == '┌' {
            Ok(VGAChar(0xda))
        } else if c == '┐' {
            Ok(VGAChar(0xbf))
        } else if c == '└' {
            Ok(VGAChar(0xc0))
        } else if c == '┘' {
            Ok(VGAChar(0xd9))
        } else if c == '├' {
            Ok(VGAChar(0xc3))
        } else if c == '┤' {
            Ok(VGAChar(0xb4))
        } else if c == '┬' {
            Ok(VGAChar(0xc2))
        } else if c == '┴' {
            Ok(VGAChar(0xc1))
        } else if c == '┼' {
            Ok(VGAChar(0xc5))
        } else {
            Err(c)
        }
    }
}

/// The fixed palette a cell's glyph can be tinted with.
#[derive(Debug, Clone, Copy, PartialEq, Eq, Structural)]
pub enum CharacterColor {
    Black,
    Red,
    Green,
    Blue,
    Yellow,
    Cyan,
    Magenta,
    Gray,
    White,
    BrightWhite,
}

/// The RGB triple a palette color is rendered with.
pub open spec fn spec_color_rgb(c: CharacterColor) -> (u8, u8, u8) {
    match c {
        CharacterColor::Black => (0u8, 0u8, 0u8),
        CharacterColor::Red => (170u8, 0u8, 0u8),
        CharacterColor::Green => (0u8, 170u8, 0u8),
        CharacterColor::Blue => (0u8, 0u8, 170u8),
        CharacterColor::Yellow => (170u8, 170u8, 0u8),
        CharacterColor::Cyan => (0u8, 170u8, 170u8),
        CharacterColor::Magenta => (170u8, 0u8, 170u8),
        CharacterColor::Gray => (170u8, 170u8, 170u8),
        CharacterColor::White => (220u8, 220u8, 220u8),
        CharacterColor::BrightWhite => (255u8, 255u8, 255u8),
    }
}

impl CharacterColor {
    /// The RGB triple this color is rendered with.
    pub fn rgb(&self) -> (r: (u8, u8, u8))
        ensures
            r == spec_color_rgb(*self),
    {
        match self {
            CharacterColor::Black => (0, 0, 0),
            CharacterColor::Red => (170, 0, 0),
            CharacterColor::Green => (0, 170, 0),
            CharacterColor::Blue => (0, 0, 170),
            CharacterColor::Yellow => (170, 170, 0),
            CharacterColor::Cyan => (0, 170, 170),
            CharacterColor::Magenta => (170, 0, 170),
            CharacterColor::Gray => (170, 170, 170),
            CharacterColor::White => (220, 220, 220),
            CharacterColor::BrightWhite => (255, 255, 255),
        }
    }
}

/// One cell's content: a glyph and the color it is tinted with.
pub type Cell = (VGAChar, CharacterColor);

/// The cell every clear operation writes: a blank glyph in gray.
pub open spec fn spec_blank_cell() -> Cell {
    (VGAChar::spec_blank(), CharacterColor::Gray)
}

/// The cell every clear operation writes: a blank glyph in gray.
pub fn blank_cell() -> (r: Cell)
    ensures
        r == spec_blank_cell(),
{
    (VGAChar(0x20), CharacterColor::Gray)
}

} // verus!
