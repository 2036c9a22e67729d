//! The block font: each glyph is a 3x5 grid of cells, stored as a 15-bit mask
//! in which bit `14 - i` marks the cell at row-major position `i` as lit.

use vstd::prelude::*;

verus! {

/// Width of a glyph, in cells.
pub const W: u16 = 3;

/// Height of a glyph, in cells.
pub const H: u16 = 5;

/// Number of cells in a glyph.
pub const CELLS: u16 = 15;

/// The glyph with no lit cell.
pub const BLANK: u16 = 0;

/// The separator between hours, minutes and seconds.
pub const COLON: u16 = 0b000_010_000_010_000;

/// The glyph of the decimal digit `n`.
pub open spec fn digit_glyph(n: int) -> u16 {
    if n == 0 {
        0b111_101_101_101_111u16
    } else if n == 1 {
        0b001_001_001_001_001u16
    } else if n == 2 {
        0b111_001_111_100_111u16
    } else if n == 3 {
        0b111_001_111_001_111u16
    } else if n == 4 {
        0b101_101_111_001_001u16
    } else if n == 5 {
        0b111_100_111_001_111u16
    } else if n == 6 {
        0b111_100_111_101_111u16
    } else if n == 7 {
        0b111_001_001_001_001u16
    } else if n == 8 {
        0b111_101_111_101_111u16
    } else {
        0b111_101_111_001_111u16
    }
}

/// The mask that selects cell `i` of a glyph.
pub open spec fn cell_mask(i: int) -> u16 {
    0x4000u16 >> (i as u16)
}

/// Whether cell `i` (row-major, `0 <= i < 15`) of glyph `g` is lit.
pub open spec fn lit(g: u16, i: int) -> bool {
    0 <= i < 15 && g & cell_mask(i) != 0
}

/// Looks up the glyph of a decimal digit.
pub fn digit(n: u8) -> (g: u16)
    requires
        n < 10,
    ensures
        g == digit_glyph(n as int),
{
    match n {
        0 => 0b111_101_101_101_111,
        1 => 0b001_001_001_001_001,
        2 => 0b111_001_111_100_111,
        3 => 0b111_001_111_001_111,
        4 => 0b101_101_111_001_001,
        5 => 0b111_100_111_001_111,
        6 => 0b111_100_111_101_111,
        7 => 0b111_001_001_001_001,
        8 => 0b111_101_111_101_111,
        _ => 0b111_101_111_001_111,
    }
}

/// A cell of `a ^ b` is lit exactly where one of `a`, `b` has it lit and the
/// other does not.
pub proof fn lemma_lit_xor(a: u16, b: u16, i: int)
    requires
        0 <= i < 15,
    ensures
        lit(a ^ b, i) == (lit(a, i) != lit(b, i)),
{
    let s = i as u16;
    assert((a ^ b) & (0x4000u16 >> s) != 0 <==> ((a & (0x4000u16 >> s) != 0) != (b & (
    0x4000u16 >> s) != 0))) by (bit_vector)
        requires
            s < 15,
    ;
}

/// No cell of a glyph XOR-ed with itself is lit.
pub proof fn lemma_lit_self_xor(a: u16, i: int)
    ensures
        !lit(a ^ a, i),
{
    assert(a ^ a == 0u16) by (bit_vector);
    assert(0u16 & (0x4000u16 >> (i as u16)) == 0u16) by (bit_vector);
}

/// XOR with the blank glyph leaves a glyph as it is.
pub proof fn lemma_xor_blank(a: u16)
    ensures
        0u16 ^ a == a,
{
    assert(0u16 ^ a == a) by (bit_vector);
}

} // verus!
