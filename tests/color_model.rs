use ascii_render::color::{hsl_to_rgb, pack, rgb_to_hsl, unpack, Color, Hsl};
use ascii_render::glyph::{glyph, pick_cell_appearance, select_glyph, RAMP_LEN};

fn rgb(r: u8, g: u8, b: u8) -> Color {
    Color { r, g, b }
}

#[test]
fn pack_puts_red_high() {
    assert_eq!(pack(rgb(0x12, 0x34, 0x56)), 0x123456);
    assert_eq!(pack(rgb(255, 0, 0)), 0xff0000);
    let c = unpack(0xab_cd_ef);
    assert_eq!((c.r, c.g, c.b), (0xab, 0xcd, 0xef));
}

#[test]
fn unpack_ignores_high_bits() {
    let c = unpack(0xff00_0102);
    assert_eq!((c.r, c.g, c.b), (0, 1, 2));
}

#[test]
fn red_in_hsl() {
    let h = rgb_to_hsl(255, 0, 0);
    assert_eq!(
        h,
        Hsl { sextant: 0, hue_num: 0, hue_den: 255, sat_num: 255, sat_den: 255, light_num: 255, light_den: 510 }
    );
}

#[test]
fn grey_has_no_hue_or_saturation() {
    let h = rgb_to_hsl(100, 100, 100);
    assert_eq!((h.sextant, h.hue_num, h.sat_num), (0, 0, 0));
    assert_eq!((h.light_num, h.light_den), (200, 510));
}

#[test]
fn hue_below_red_wraps_into_last_sextant() {
    // red dominant with more blue than green: hue just under 360 degrees
    let h = rgb_to_hsl(255, 0, 10);
    assert_eq!(h.sextant, 5);
    assert_eq!((h.hue_num, h.hue_den), (245, 255));
}

#[test]
fn hue_of_green_and_blue() {
    let g = rgb_to_hsl(0, 255, 0);
    assert_eq!((g.sextant, g.hue_num), (2, 0));
    let b = rgb_to_hsl(0, 0, 255);
    assert_eq!((b.sextant, b.hue_num), (4, 0));
    let yellow = rgb_to_hsl(255, 255, 0);
    assert_eq!((yellow.sextant, yellow.hue_num), (1, 0));
}

#[test]
fn round_trip_reproduces_every_sampled_colour() {
    let steps = [0u8, 1, 7, 10, 63, 64, 127, 128, 200, 254, 255];
    for &r in steps.iter() {
        for &g in steps.iter() {
            for &b in steps.iter() {
                let back = hsl_to_rgb(rgb_to_hsl(r, g, b));
                assert_eq!((back.r, back.g, back.b), (r, g, b));
            }
        }
    }
}

#[test]
fn round_trip_keeps_greys_exact() {
    for v in 0..=255u8 {
        let back = hsl_to_rgb(rgb_to_hsl(v, v, v));
        assert_eq!((back.r, back.g, back.b), (v, v, v));
    }
}

#[test]
fn mid_lightness_grey_truncates() {
    let h = Hsl { sextant: 0, hue_num: 0, hue_den: 1, sat_num: 0, sat_den: 1, light_num: 1, light_den: 2 };
    let c = hsl_to_rgb(h);
    assert_eq!((c.r, c.g, c.b), (127, 127, 127));
}

#[test]
fn hsl_to_rgb_middle_component() {
    // hue 30 degrees, full saturation, lightness 1/2: (255, 127.5, 0) truncated
    let h = Hsl { sextant: 0, hue_num: 1, hue_den: 2, sat_num: 1, sat_den: 1, light_num: 1, light_den: 2 };
    let c = hsl_to_rgb(h);
    assert_eq!((c.r, c.g, c.b), (255, 127, 0));
    // hue 90 degrees: odd sextant takes 1 - fraction
    let h = Hsl { sextant: 1, hue_num: 1, hue_den: 2, sat_num: 1, sat_den: 1, light_num: 1, light_den: 2 };
    let c = hsl_to_rgb(h);
    assert_eq!((c.r, c.g, c.b), (127, 255, 0));
}

#[test]
fn glyph_ends_of_the_ramp() {
    assert_eq!(select_glyph(0, 1), RAMP_LEN - 1);
    assert_eq!(glyph(select_glyph(0, 1)), '\u{a0}');
    assert_eq!(select_glyph(1, 1), 0);
    assert_eq!(glyph(select_glyph(1, 1)), '@');
    assert_eq!(select_glyph(255, 510), 5);
}

#[test]
fn glyph_index_never_grows_with_lightness() {
    let mut last = RAMP_LEN;
    for n in 0..=510u16 {
        let i = select_glyph(n, 510);
        assert!(i <= last);
        last = i;
    }
}

#[test]
fn appearance_of_red() {
    let (g, ink) = pick_cell_appearance(rgb(255, 0, 0));
    assert_eq!(g, '*');
    assert_eq!((ink.r, ink.g, ink.b), (255, 0, 0));
}

#[test]
fn appearance_keeps_hue_at_mid_lightness() {
    // dark red: lightness 128/510, ink is pure red at lightness 1/2
    let (g, ink) = pick_cell_appearance(rgb(128, 0, 0));
    assert_eq!(g, ':');
    assert_eq!((ink.r, ink.g, ink.b), (255, 0, 0));
    let (g, ink) = pick_cell_appearance(rgb(255, 255, 255));
    assert_eq!(g, '@');
    assert_eq!((ink.r, ink.g, ink.b), (127, 127, 127));
}
