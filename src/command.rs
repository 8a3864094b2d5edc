//! Single-byte opcodes accepted by the panel.
use vstd::prelude::*;

verus! {

/// Display software reset
pub fn reset() -> (r: u8)
    ensures
        r == 0xE2,
{
    0xE2
}

/// Turn on power
pub fn power_on() -> (r: u8)
    ensures
        r == 0x2F,
{
    0x2F
}

/// Turn off power
pub fn power_off() -> (r: u8)
    ensures
        r == 0x28,
{
    0x28
}

/// Turn on horizontal mirror
pub fn horizontal_flip_on() -> (r: u8)
    ensures
        r == 0xA1,
{
    0xA1
}

/// Turn off horizontal mirror
pub fn horizontal_flip_off() -> (r: u8)
    ensures
        r == 0xA0,
{
    0xA0
}

/// Turn on vertical mirror
pub fn vertical_flip_on() -> (r: u8)
    ensures
        r == 0xC8,
{
    0xC8
}

/// Turn off vertical mirror
pub fn vertical_flip_off() -> (r: u8)
    ensures
        r == 0xC0,
{
    0xC0
}

/// Enable display test (all pixels active)
pub fn display_test_on() -> (r: u8)
    ensures
        r == 0xA5,
{
    0xA5
}

/// Disable display test
pub fn display_test_off() -> (r: u8)
    ensures
        r == 0xA4,
{
    0xA4
}

/// Enable inverted pixels (negative image)
pub fn invert_on() -> (r: u8)
    ensures
        r == 0xA7,
{
    0xA7
}

/// Disable inverted pixels
pub fn invert_off() -> (r: u8)
    ensures
        r == 0xA6,
{
    0xA6
}

/// Turn on display
pub fn display_on() -> (r: u8)
    ensures
        r == 0xAF,
{
    0xAF
}

/// Turn off display
pub fn display_off() -> (r: u8)
    ensures
        r == 0xAE,
{
    0xAE
}

/// Opcode of the contrast command for `contrast` (0 - 31).
pub open spec fn contrast_opcode(contrast: u8) -> u8 {
    0x80 | (contrast & 0x1F)
}

/// Opcode of the display start line command for `line` (0 - 63).
pub open spec fn line_opcode(line: u8) -> u8 {
    0x40 | (line & 0x3F)
}

/// Opcode of the page (8-pixel band) address command for `page` (0 - 15).
pub open spec fn page_opcode(page: u8) -> u8 {
    0xB0 | (page & 0x0F)
}

/// Opcode carrying the low 4 bits of a column address.
pub open spec fn column_low_opcode(column: u8) -> u8 {
    column & 0x0F
}

/// Opcode carrying bits 4 to 6 of a column address.
pub open spec fn column_high_opcode(column: u8) -> u8 {
    0x10 | ((column >> 4u8) & 0x07)
}

/// Set display contrast (0 - 31); higher bits are dropped
pub fn set_contrast(contrast: u8) -> (r: u8)
    ensures
        r == contrast_opcode(contrast),
{
    0x80 | (contrast & 0x1F)
}

/// Set display start line (0 - 63); higher bits are dropped
pub fn set_line(line: u8) -> (r: u8)
    ensures
        r == line_opcode(line),
{
    0x40 | (line & 0x3F)
}

/// Set page (0 - 15, of which 0 - 8 are visible) - y coordinate byte
pub fn set_page(page: u8) -> (r: u8)
    ensures
        r == page_opcode(page),
{
    0xB0 | (page & 0x0F)
}

/// Set column low 4 bits - x coordinate
pub fn set_column_low(column: u8) -> (r: u8)
    ensures
        r == column_low_opcode(column),
{
    column & 0x0F
}

/// Set column high 3 bits - x coordinate
pub fn set_column_high(column: u8) -> (r: u8)
    ensures
        r == column_high_opcode(column),
{
    0x10 | ((column >> 4u8) & 0x07)
}

/// The initialization sequence: power on, contrast 30, display test off,
/// both mirrors off, inversion off, display on, then the cursor at column 0
/// of page 0.
pub open spec fn init_opcodes() -> Seq<u8> {
    seq![
        0x2Fu8,
        contrast_opcode(30),
        0xA4u8,
        0xA0u8,
        0xC0u8,
        0xA6u8,
        0xAFu8,
        column_low_opcode(0),
        column_high_opcode(0),
        page_opcode(0),
    ]
}

/// The three opcodes that address column `column` of page `page`.
pub open spec fn position_opcodes(column: u8, page: u8) -> Seq<u8> {
    seq![column_low_opcode(column), column_high_opcode(column), page_opcode(page)]
}

/// Sequence of commands to fully initialize the display
pub fn init_sequence() -> (r: [u8; 10])
    ensures
        r@ == init_opcodes(),
        r@ == seq![0x2Fu8, 0x9Eu8, 0xA4u8, 0xA0u8, 0xC0u8, 0xA6u8, 0xAFu8, 0x00u8, 0x10u8, 0xB0u8],
{
    let r = [
        power_on(),
        set_contrast(30),
        display_test_off(),
        horizontal_flip_off(),
        vertical_flip_off(),
        invert_off(),
        display_on(),
        set_column_low(0),
        set_column_high(0),
        set_page(0),
    ];
    proof {
        assert((0x80u8 | (30u8 & 0x1F)) == 0x9E && (0u8 & 0x0F) == 0 && (0x10u8 | ((0u8 >> 4u8)
            & 0x07)) == 0x10 && (0xB0u8 | (0u8 & 0x0F)) == 0xB0) by (bit_vector);
        assert(r@ =~= init_opcodes());
    }
    r
}

/// Sequence of commands to fully select position (column and page); the
/// panel latches the address once all three have arrived, in this order.
pub fn set_position(column: u8, row: u8) -> (r: [u8; 3])
    ensures
        r@ == position_opcodes(column, row),
        r@ == seq![column & 0x0F, 0x10 | ((column >> 4u8) & 0x07), 0xB0 | (row & 0x0F)],
{
    let r = [set_column_low(column), set_column_high(column), set_page(row)];
    assert(r@ =~= position_opcodes(column, row));
    r
}

/// The parameterized opcodes keep only the bits that the panel reads: a
/// value out of range gives the same opcode as the value masked to the
/// documented width.
pub proof fn lemma_opcode_masking(v: u8)
    ensures
        contrast_opcode(v) == contrast_opcode(v & 0x1F),
        line_opcode(v) == line_opcode(v & 0x3F),
        page_opcode(v) == page_opcode(v & 0x0F),
        column_low_opcode(v) == column_low_opcode(v & 0x0F),
        column_high_opcode(v) == column_high_opcode(v & 0x7F),
{
    assert((0x80u8 | (v & 0x1F)) == (0x80u8 | ((v & 0x1F) & 0x1F))) by (bit_vector);
    assert((0x40u8 | (v & 0x3F)) == (0x40u8 | ((v & 0x3F) & 0x3F))) by (bit_vector);
    assert((0xB0u8 | (v & 0x0F)) == (0xB0u8 | ((v & 0x0F) & 0x0F))) by (bit_vector);
    assert((v & 0x0F) == ((v & 0x0F) & 0x0F)) by (bit_vector);
    assert((0x10u8 | ((v >> 4u8) & 0x07)) == (0x10u8 | (((v & 0x7F) >> 4u8) & 0x07)))
        by (bit_vector);
}

} // verus!
