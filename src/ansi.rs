//! The ANSI escape sequences that the framebuffer writes, as bytes.
use vstd::prelude::*;
use crate::color::Color;

verus! {

/// The escape byte that starts every sequence.
pub const ESC: u8 = 0x1b;
/// `[`
pub const BRACKET: u8 = 0x5b;
/// `;`
pub const SEMI: u8 = 0x3b;
/// `H`, the cursor-position final byte.
pub const CUP: u8 = 0x48;
/// `m`, the graphic-rendition final byte.
pub const SGR: u8 = 0x6d;
/// `J`, the erase-in-display final byte.
pub const ED: u8 = 0x4a;
/// `0`
pub const DIGIT_ZERO: u8 = 0x30;
pub const DIGIT_TWO: u8 = 0x32;
pub const DIGIT_THREE: u8 = 0x33;
pub const DIGIT_FOUR: u8 = 0x34;
pub const DIGIT_EIGHT: u8 = 0x38;
/// ` `
pub const SPACE: u8 = 0x20;
/// `\n`
pub const NEWLINE: u8 = 0x0a;

/// Decimal digits of `n`, most significant first, in ASCII.
pub open spec fn decimal(n: nat) -> Seq<u8>
    decreases n,
{
    if n < 10 {
        seq![(DIGIT_ZERO + n) as u8]
    } else {
        decimal(n / 10).push((DIGIT_ZERO + n % 10) as u8)
    }
}

/// UTF-8 encoding of a character below U+0800 (one or two bytes).
pub open spec fn utf8(c: char) -> Seq<u8> {
    let v = c as u32 as int;
    if v < 0x80 {
        seq![v as u8]
    } else {
        seq![(0xc0 + v / 64) as u8, (0x80 + v % 64) as u8]
    }
}

/// `ESC [ row ; col H`: moves the cursor (rows and columns count from one).
pub open spec fn cursor_to(row: nat, col: nat) -> Seq<u8> {
    seq![ESC, BRACKET] + decimal(row) + seq![SEMI] + decimal(col) + seq![CUP]
}

/// `ESC [ kind 8 ; 2 ; r ; g ; b m`: a 24-bit colour, with `kind` the digit
/// `4` for the background and `3` for the foreground.
pub open spec fn rgb_sequence(kind: u8, c: Color) -> Seq<u8> {
    seq![ESC, BRACKET, kind, DIGIT_EIGHT, SEMI, DIGIT_TWO, SEMI] + decimal(c.r as nat) + seq![SEMI] + decimal(
        c.g as nat,
    ) + seq![SEMI] + decimal(c.b as nat) + seq![SGR]
}

/// The 24-bit background colour sequence.
pub open spec fn background(c: Color) -> Seq<u8> {
    rgb_sequence(DIGIT_FOUR, c)
}

/// The 24-bit foreground colour sequence.
pub open spec fn foreground(c: Color) -> Seq<u8> {
    rgb_sequence(DIGIT_THREE, c)
}

/// `ESC [ 0 m`: resets all attributes.
pub open spec fn reset() -> Seq<u8> {
    seq![ESC, BRACKET, DIGIT_ZERO, SGR]
}

/// `ESC [ 2 J` followed by the cursor moved home.
pub open spec fn clear_screen() -> Seq<u8> {
    seq![ESC, BRACKET, DIGIT_TWO, ED] + cursor_to(1, 1)
}

/// Appends the decimal digits of `n`.
pub fn push_decimal(out: &mut Vec<u8>, n: u128)
    ensures
        final(out)@ == old(out)@ + decimal(n as nat),
    decreases n,
{
    if n >= 10 {
        push_decimal(out, n / 10);
    }
    out.push((DIGIT_ZERO as u128 + n % 10) as u8);
}

/// Appends the UTF-8 encoding of `c`.
pub fn push_utf8(out: &mut Vec<u8>, c: char)
    requires
        (c as u32) < 0x800,
    ensures
        final(out)@ == old(out)@ + utf8(c),
{
    let v = c as u32;
    if v < 0x80 {
        out.push(v as u8);
    } else {
        out.push((0xc0 + v / 64) as u8);
        out.push((0x80 + v % 64) as u8);
    }
}

/// Appends `ESC [ row ; col H`.
pub fn push_cursor_to(out: &mut Vec<u8>, row: u128, col: u128)
    ensures
        final(out)@ == old(out)@ + cursor_to(row as nat, col as nat),
{
    out.push(ESC);
    out.push(BRACKET);
    push_decimal(out, row);
    out.push(SEMI);
    push_decimal(out, col);
    out.push(CUP);
}

/// Appends a 24-bit colour sequence of the given kind.
pub fn push_rgb_sequence(out: &mut Vec<u8>, kind: u8, c: Color)
    ensures
        final(out)@ == old(out)@ + rgb_sequence(kind, c),
{
    out.push(ESC);
    out.push(BRACKET);
    out.push(kind);
    out.push(DIGIT_EIGHT);
    out.push(SEMI);
    out.push(DIGIT_TWO);
    out.push(SEMI);
    push_decimal(out, c.r as u128);
    out.push(SEMI);
    push_decimal(out, c.g as u128);
    out.push(SEMI);
    push_decimal(out, c.b as u128);
    out.push(SGR);
}

/// Appends `ESC [ 0 m`.
pub fn push_reset(out: &mut Vec<u8>)
    ensures
        final(out)@ == old(out)@ + reset(),
{
    out.push(ESC);
    out.push(BRACKET);
    out.push(DIGIT_ZERO);
    out.push(SGR);
}

/// Appends the clear-screen sequence and moves the cursor home.
pub fn push_clear_screen(out: &mut Vec<u8>)
    ensures
        final(out)@ == old(out)@ + clear_screen(),
{
    out.push(ESC);
    out.push(BRACKET);
    out.push(DIGIT_TWO);
    out.push(ED);
    push_cursor_to(out, 1, 1);
}

} // verus!
