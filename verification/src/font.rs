//! The built-in hexadecimal font: sixteen glyphs of five rows each, one byte
//! per row, of which the high nibble holds the four pixels.

use vstd::prelude::*;

verus! {

/// Address of the first glyph in memory.
pub const FONT_START: u16 = 0x050;

/// Number of bytes that one glyph takes.
pub const GLYPH_SIZE: u16 = 5;

/// Number of bytes that the whole font takes.
pub const FONT_SIZE: usize = 80;

/// The glyphs for the digits `0` to `F`, in that order.
pub const FONT: [u8; 80] = [
    0xF0, 0x90, 0x90, 0x90, 0xF0,
    0x20, 0x60, 0x20, 0x20, 0x70,
    0xF0, 0x10, 0xF0, 0x80, 0xF0,
    0xF0, 0x10, 0xF0, 0x10, 0xF0,
    0x90, 0x90, 0xF0, 0x10, 0x10,
    0xF0, 0x80, 0xF0, 0x10, 0xF0,
    0xF0, 0x80, 0xF0, 0x90, 0xF0,
    0xF0, 0x10, 0x20, 0x40, 0x40,
    0xF0, 0x90, 0xF0, 0x90, 0xF0,
    0xF0, 0x90, 0xF0, 0x10, 0xF0,
    0xF0, 0x90, 0xF0, 0x90, 0x90,
    0xE0, 0x90, 0xE0, 0x90, 0xE0,
    0xF0, 0x80, 0x80, 0x80, 0xF0,
    0xE0, 0x90, 0x90, 0x90, 0xE0,
    0xF0, 0x80, 0xF0, 0x80, 0xF0,
    0xF0, 0x80, 0xF0, 0x80, 0x80,
];

/// Where the glyph for `digit` starts in memory.
pub open spec fn glyph_address(digit: u8) -> u16 {
    (FONT_START + GLYPH_SIZE * digit) as u16
}

/// Memory with the font in place: `memory` with the 80 bytes from
/// `FONT_START` on replaced by the glyphs.
pub open spec fn with_font(memory: Seq<u8>) -> Seq<u8> {
    Seq::new(
        memory.len(),
        |addr: int|
            if FONT_START <= addr < FONT_START + FONT_SIZE {
                FONT[addr - FONT_START]
            } else {
                memory[addr]
            },
    )
}

} // verus!
