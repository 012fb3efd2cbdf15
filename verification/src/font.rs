use vstd::prelude::*;

verus! {

/// The address in the reserved region at which the glyphs are installed.
pub const FONT_START: u16 = 0x50;

/// The number of bytes in one glyph.
pub const GLYPH_SIZE: u16 = 5;

/// The number of bytes in the whole font.
pub const FONT_LENGTH: usize = 80;

/// The built-in glyphs for the hexadecimal digits `0` to `F`, five bytes each.
pub const FONT_SPRITES: [u8; 80] = [
    0xF0, 0x90, 0x90, 0x90, 0xF0,  // 0
    0x20, 0x60, 0x20, 0x20, 0x70,  // 1
    0xF0, 0x10, 0xF0, 0x80, 0xF0,  // 2
    0xF0, 0x10, 0xF0, 0x10, 0xF0,  // 3
    0x90, 0x90, 0xF0, 0x10, 0x10,  // 4
    0xF0, 0x80, 0xF0, 0x10, 0xF0,  // 5
    0xF0, 0x80, 0xF0, 0x90, 0xF0,  // 6
    0xF0, 0x10, 0x20, 0x40, 0x40,  // 7
    0xF0, 0x90, 0xF0, 0x90, 0xF0,  // 8
    0xF0, 0x90, 0xF0, 0x10, 0xF0,  // 9
    0xF0, 0x90, 0xF0, 0x90, 0x90,  // A
    0xE0, 0x90, 0xE0, 0x90, 0xE0,  // B
    0xF0, 0x80, 0x80, 0x80, 0xF0,  // C
    0xE0, 0x90, 0x90, 0x90, 0xE0,  // D
    0xF0, 0x80, 0xF0, 0x80, 0xF0,  // E
    0xF0, 0x80, 0xF0, 0x80, 0x80,  // F
];

/// The address of the glyph for the low nibble of `value`.
pub open spec fn glyph_address(value: u8) -> u16 {
    (FONT_START + GLYPH_SIZE * (value as int % 16)) as u16
}

/// Memory `memory` with the font written over the cells from `FONT_START` on.
pub open spec fn with_font(memory: Seq<u8>) -> Seq<u8> {
    Seq::new(
        memory.len(),
        |a: int|
            if FONT_START <= a < FONT_START + FONT_LENGTH {
                FONT_SPRITES@[a - FONT_START]
            } else {
                memory[a]
            },
    )
}

} // verus!
