//! Choosing how a cell looks: a glyph from a density ramp by lightness, and
//! an ink colour that keeps the hue and saturation at mid lightness.
use vstd::prelude::*;
use crate::color::{hsl_of, hsl_to_rgb, rgb_of, rgb_to_hsl, Color, Hsl};

verus! {

/// Number of glyphs in the ramp.
pub const RAMP_LEN: usize = 12;

/// The glyph ramp, from the densest glyph to a non-breaking space.
pub open spec fn ramp() -> Seq<char> {
    seq!['@', '#', 'S', '%', '?', '*', '+', ';', ':', ',', '.', '\u{a0}']
}

/// Ramp index for lightness `light_num / light_den`: `floor((1 - l) * 11)`.
pub open spec fn glyph_index_of(light_num: int, light_den: int) -> int {
    ((light_den - light_num) * (RAMP_LEN - 1)) / light_den
}

/// Picks the ramp index for lightness `light_num / light_den`.
pub fn select_glyph(light_num: u16, light_den: u16) -> (i: usize)
    requires
        0 < light_den,
        light_num <= light_den,
    ensures
        i == glyph_index_of(light_num as int, light_den as int),
        i < RAMP_LEN,
{
    let scaled: u32 = (light_den - light_num) as u32 * 11;
    assert(scaled as int / light_den as int <= 11) by (nonlinear_arith)
        requires
            scaled == (light_den - light_num) * 11,
            light_num <= light_den,
            0 < light_den,
    {
        vstd::arithmetic::div_mod::lemma_div_is_ordered(scaled as int, 11 * light_den as int, light_den as int);
        vstd::arithmetic::div_mod::lemma_div_multiples_vanish(11, light_den as int);
    }
    (scaled / light_den as u32) as usize
}

/// The glyph at a ramp index.
pub fn glyph(i: usize) -> (c: char)
    requires
        i < RAMP_LEN,
    ensures
        c == ramp()[i as int],
{
    match i {
        0 => '@',
        1 => '#',
        2 => 'S',
        3 => '%',
        4 => '?',
        5 => '*',
        6 => '+',
        7 => ';',
        8 => ':',
        9 => ',',
        10 => '.',
        _ => '\u{a0}',
    }
}

/// Every lightness in `[0, 1]` selects an index inside the ramp.
pub proof fn lemma_glyph_index_in_ramp(light_num: int, light_den: int)
    requires
        0 < light_den,
        0 <= light_num <= light_den,
    ensures
        0 <= glyph_index_of(light_num, light_den) < RAMP_LEN,
{
    let scaled = (light_den - light_num) * 11;
    assert(0 <= scaled <= 11 * light_den) by (nonlinear_arith)
        requires
            scaled == (light_den - light_num) * 11,
            0 <= light_num <= light_den,
    ;
    vstd::arithmetic::div_mod::lemma_div_is_ordered(scaled, 11 * light_den, light_den);
    vstd::arithmetic::div_mod::lemma_div_is_ordered(0, scaled, light_den);
    vstd::arithmetic::div_mod::lemma_div_multiples_vanish(11, light_den);
}

/// Lightness zero selects the last glyph of the ramp and lightness one the
/// first; as the lightness grows the index never grows.
pub proof fn lemma_select_glyph_ends_and_order(n1: int, d1: int, n2: int, d2: int)
    requires
        0 < d1,
        0 < d2,
        0 <= n1 <= d1,
        0 <= n2 <= d2,
        n1 * d2 <= n2 * d1,
    ensures
        glyph_index_of(0, d1) == RAMP_LEN - 1,
        glyph_index_of(d1, d1) == 0,
        glyph_index_of(n2, d2) <= glyph_index_of(n1, d1),
{
    vstd::arithmetic::div_mod::lemma_div_multiples_vanish(11, d1);
    assert(d1 * 11 == 11 * d1) by (nonlinear_arith);
    let i1 = glyph_index_of(n1, d1);
    let i2 = glyph_index_of(n2, d2);
    // i2 <= (d2 - n2) * 11 / d2 <= (d1 - n1) * 11 / d1 as fractions, so floors are ordered
    vstd::arithmetic::div_mod::lemma_fundamental_div_mod((d1 - n1) * 11, d1);
    vstd::arithmetic::div_mod::lemma_fundamental_div_mod((d2 - n2) * 11, d2);
    assert(i2 <= i1) by (nonlinear_arith)
        requires
            (d1 - n1) * 11 == d1 * i1 + ((d1 - n1) * 11) % d1,
            0 <= ((d1 - n1) * 11) % d1 < d1,
            (d2 - n2) * 11 == d2 * i2 + ((d2 - n2) * 11) % d2,
            0 <= ((d2 - n2) * 11) % d2 < d2,
            n1 * d2 <= n2 * d1,
            0 < d1,
            0 < d2,
    ;
}

/// Glyph and ink colour of a cell showing colour `c`: the glyph by the
/// colour's lightness, the ink with its hue and saturation at lightness 1/2.
pub open spec fn appearance(c: Color) -> (char, Color) {
    let h = hsl_of(c.r, c.g, c.b);
    (ramp()[glyph_index_of(h.light_num as int, h.light_den as int)], rgb_of(mid_light(h)))
}

/// The same hue and saturation at lightness 1/2.
pub open spec fn mid_light(h: Hsl) -> Hsl {
    Hsl {
        sextant: h.sextant,
        hue_num: h.hue_num,
        hue_den: h.hue_den,
        sat_num: h.sat_num,
        sat_den: h.sat_den,
        light_num: 1,
        light_den: 2,
    }
}

/// Chooses the glyph and the ink colour for a cell showing `c`.
pub fn pick_cell_appearance(c: Color) -> (r: (char, Color))
    ensures
        r == appearance(c),
{
    let h = rgb_to_hsl(c.r, c.g, c.b);
    let g = glyph(select_glyph(h.light_num, h.light_den));
    let ink = hsl_to_rgb(
        Hsl {
            sextant: h.sextant,
            hue_num: h.hue_num,
            hue_den: h.hue_den,
            sat_num: h.sat_num,
            sat_den: h.sat_den,
            light_num: 1,
            light_den: 2,
        },
    );
    (g, ink)
}

} // verus!
