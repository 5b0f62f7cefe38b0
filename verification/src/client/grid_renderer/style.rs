//! Decoding of packed style fields into colours and text attributes.

use vstd::prelude::*;

verus! {

/// A colour a packed colour field names.
#[derive(Clone, Copy, Debug, PartialEq, Eq, Structural)]
pub enum ColorSpec {
    /// One of the 256 indexed terminal colours.
    Indexed(u8),
    /// A true colour.
    Rgb(u8, u8, u8),
}

/// The colour of a packed field: its top byte is the kind (1 indexed, 2 RGB,
/// anything else the default colour), its low bytes the index or the red,
/// green and blue parts.
pub open spec fn spec_decode_color(packed: u32) -> Option<ColorSpec> {
    let kind = packed / 0x100_0000;
    if kind == 1 {
        Some(ColorSpec::Indexed((packed % 0x100) as u8))
    } else if kind == 2 {
        Some(ColorSpec::Rgb(((packed / 0x1_0000) % 0x100) as u8, ((packed / 0x100) % 0x100) as u8, (packed % 0x100) as u8))
    } else {
        None
    }
}

/// The colour of a packed field: see `spec_decode_color`.
pub fn decode_color(packed: u32) -> (res: Option<ColorSpec>)
    ensures
        res == spec_decode_color(packed),
{
    let kind = packed / 0x100_0000;
    if kind == 1 {
        Some(ColorSpec::Indexed((packed % 0x100) as u8))
    } else if kind == 2 {
        Some(ColorSpec::Rgb(((packed / 0x1_0000) % 0x100) as u8, ((packed / 0x100) % 0x100) as u8, (packed % 0x100) as u8))
    } else {
        None
    }
}

/// The text attributes of a packed attribute byte.
#[derive(Clone, Copy, Debug, PartialEq, Eq, Structural)]
pub struct ModifierFlags {
    pub bold: bool,
    pub italic: bool,
    pub underlined: bool,
    pub crossed_out: bool,
    pub reversed: bool,
    pub slow_blink: bool,
    pub dim: bool,
    pub hidden: bool,
}

/// The text attributes of a packed attribute byte: bit 0 bold, 1 italic,
/// 2 underlined, 3 crossed out, 4 reversed, 5 slow blink, 6 dim, 7 hidden.
pub fn decode_modifiers(attrs: u8) -> (res: ModifierFlags)
    ensures
        res.bold == ((attrs / 1) % 2 == 1),
        res.italic == ((attrs / 2) % 2 == 1),
        res.underlined == ((attrs / 4) % 2 == 1),
        res.crossed_out == ((attrs / 8) % 2 == 1),
        res.reversed == ((attrs / 16) % 2 == 1),
        res.slow_blink == ((attrs / 32) % 2 == 1),
        res.dim == ((attrs / 64) % 2 == 1),
        res.hidden == ((attrs / 128) % 2 == 1),
{
    ModifierFlags {
        bold: (attrs / 1) % 2 == 1,
        italic: (attrs / 2) % 2 == 1,
        underlined: (attrs / 4) % 2 == 1,
        crossed_out: (attrs / 8) % 2 == 1,
        reversed: (attrs / 16) % 2 == 1,
        slow_blink: (attrs / 32) % 2 == 1,
        dim: (attrs / 64) % 2 == 1,
        hidden: (attrs / 128) % 2 == 1,
    }
}

} // verus!
