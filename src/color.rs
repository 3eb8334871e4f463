//! Colours: the packed cell value, and the exact conversion between RGB and
//! hue / saturation / lightness.
use vstd::prelude::*;

verus! {

/// An RGB colour with eight bits per channel.
#[derive(Clone, Copy, Debug, PartialEq, Eq, Structural)]
pub struct Color {
    pub r: u8,
    pub g: u8,
    pub b: u8,
}

/// The packed cell value of a colour: `r << 16 | g << 8 | b`.
pub open spec fn packed(c: Color) -> u32 {
    (c.r as int * 65536 + c.g as int * 256 + c.b as int) as u32
}

/// The colour that a packed cell value stands for (bits above 24 ignored).
pub open spec fn unpacked(v: u32) -> Color {
    Color { r: ((v as int / 65536) % 256) as u8, g: ((v as int / 256) % 256) as u8, b: (v as int % 256) as u8 }
}

/// Packs a colour into one cell value.
pub fn pack(c: Color) -> (v: u32)
    ensures
        v == packed(c),
        v < 0x100_0000,
{
    let r = c.r as u32;
    let g = c.g as u32;
    let b = c.b as u32;
    let v = (r << 16u32) | (g << 8u32) | b;
    assert(v == r * 65536 + g * 256 + b && v < 0x100_0000) by (bit_vector)
        requires
            r < 256,
            g < 256,
            b < 256,
            v == (r << 16u32) | (g << 8u32) | b,
    ;
    v
}

/// Reads the colour back out of a packed cell value.
pub fn unpack(v: u32) -> (c: Color)
    ensures
        c == unpacked(v),
{
    let r = (v >> 16u32) & 0xffu32;
    let g = (v >> 8u32) & 0xffu32;
    let b = v & 0xffu32;
    assert(r == (v / 65536) % 256 && g == (v / 256) % 256 && b == v % 256) by (bit_vector)
        requires
            r == (v >> 16u32) & 0xffu32,
            g == (v >> 8u32) & 0xffu32,
            b == v & 0xffu32,
    ;
    Color { r: r as u8, g: g as u8, b: b as u8 }
}

/// Unpacking a packed colour gives the colour back, so two colours are
/// equal exactly when their packed values are.
pub proof fn lemma_unpack_pack(c: Color)
    ensures
        unpacked(packed(c)) == c,
        packed(c) < 0x100_0000,
{
    let v = c.r as int * 65536 + c.g as int * 256 + c.b as int;
    assert(v / 65536 == c.r as int) by (nonlinear_arith)
        requires
            v == c.r as int * 65536 + c.g as int * 256 + c.b as int,
            0 <= c.g < 256,
            0 <= c.b < 256,
    ;
    assert(v / 256 == c.r as int * 256 + c.g as int) by (nonlinear_arith)
        requires
            v == c.r as int * 65536 + c.g as int * 256 + c.b as int,
            0 <= c.b < 256,
    ;
    assert((c.r as int * 256 + c.g as int) % 256 == c.g as int) by (nonlinear_arith)
        requires
            0 <= c.g < 256,
            0 <= c.r,
    ;
    assert(v % 256 == c.b as int) by (nonlinear_arith)
        requires
            v == c.r as int * 65536 + c.g as int * 256 + c.b as int,
            0 <= c.b < 256,
            0 <= c.r,
            0 <= c.g,
    ;
}

/// A colour as hue, saturation and lightness, each held as an exact fraction.
///
/// The hue is `60 * (sextant + hue_num / hue_den)` degrees, in `[0, 360)`;
/// the saturation is `sat_num / sat_den` and the lightness
/// `light_num / light_den`, both in `[0, 1]`.
#[derive(Clone, Copy, Debug, PartialEq, Eq, Structural)]
pub struct Hsl {
    pub sextant: u8,
    pub hue_num: u16,
    pub hue_den: u16,
    pub sat_num: u16,
    pub sat_den: u16,
    pub light_num: u16,
    pub light_den: u16,
}

impl Hsl {
    /// Every fraction has a positive denominator and lies in its range.
    pub open spec fn wf(self) -> bool {
        &&& self.sextant < 6
        &&& self.hue_num < self.hue_den
        &&& self.sat_num <= self.sat_den
        &&& 0 < self.sat_den
        &&& self.light_num <= self.light_den
        &&& 0 < self.light_den
    }
}

pub open spec fn max3(a: int, b: int, c: int) -> int {
    if a >= b && a >= c {
        a
    } else if b >= c {
        b
    } else {
        c
    }
}

pub open spec fn min3(a: int, b: int, c: int) -> int {
    if a <= b && a <= c {
        a
    } else if b <= c {
        b
    } else {
        c
    }
}

/// The hue of a colour whose channels are not all equal, as a sextant and a
/// numerator over `max - min`: the hue in sextants is `((g - b) / d) mod 6`
/// when red holds the maximum, `(b - r) / d + 2` when green does, and
/// `(r - g) / d + 4` otherwise, the channels tested in the order r, g, b.
pub open spec fn hue_position(r: int, g: int, b: int) -> (int, int) {
    let hi = max3(r, g, b);
    let d = hi - min3(r, g, b);
    if r == hi {
        if g < b {
            (5, d - (b - g))
        } else if g - b < d {
            (0, g - b)
        } else {
            (1, 0)
        }
    } else if g == hi {
        if b < r {
            (1, d - (r - b))
        } else if b - r < d {
            (2, b - r)
        } else {
            (3, 0)
        }
    } else {
        if r < g {
            (3, d - (g - r))
        } else {
            (4, r - g)
        }
    }
}

/// HSL form of the colour with channels `r / 255`, `g / 255`, `b / 255`:
/// lightness `(max + min) / 2`, saturation `delta / (1 - |2l - 1|)`, and for a
/// grey (`delta == 0`) hue and saturation zero.
pub open spec fn hsl_of(r: u8, g: u8, b: u8) -> Hsl {
    let (r, g, b) = (r as int, g as int, b as int);
    let hi = max3(r, g, b);
    let lo = min3(r, g, b);
    let d = hi - lo;
    let sum = hi + lo;
    if d == 0 {
        Hsl {
            sextant: 0,
            hue_num: 0,
            hue_den: 1,
            sat_num: 0,
            sat_den: 1,
            light_num: sum as u16,
            light_den: 510,
        }
    } else {
        Hsl {
            sextant: hue_position(r, g, b).0 as u8,
            hue_num: hue_position(r, g, b).1 as u16,
            hue_den: d as u16,
            sat_num: d as u16,
            sat_den: (if sum <= 255 { sum } else { 510 - sum }) as u16,
            light_num: sum as u16,
            light_den: 510,
        }
    }
}

pub open spec fn abs(a: int) -> int {
    if a < 0 { -a } else { a }
}

/// `1 - |2l - 1|`, over `light_den`.
pub open spec fn light_span(h: Hsl) -> int {
    h.light_den - abs(2 * h.light_num - h.light_den)
}

/// The common denominator of `chroma`, `second` and `offset`.
pub open spec fn hsl_den(h: Hsl) -> int {
    2 * h.light_den * h.sat_den * h.hue_den
}

/// The chroma `c = (1 - |2l - 1|) * s`, over `hsl_den`.
pub open spec fn chroma(h: Hsl) -> int {
    2 * light_span(h) * h.sat_num * h.hue_den
}

/// The middle component `x = c * (1 - |(h / 60 mod 2) - 1|)`, over `hsl_den`.
pub open spec fn second(h: Hsl) -> int {
    2 * light_span(h) * h.sat_num * (if h.sextant % 2 == 0 {
        h.hue_num as int
    } else {
        h.hue_den - h.hue_num
    })
}

/// The offset `m = l - c / 2` added to each component, over `hsl_den`.
pub open spec fn offset(h: Hsl) -> int {
    (2 * h.light_num * h.sat_den - light_span(h) * h.sat_num) * h.hue_den
}

/// A component `v` (over `hsl_den`) offset by `m`, scaled by 255 and truncated.
pub open spec fn channel(h: Hsl, v: int) -> int {
    (255 * (v + offset(h))) / hsl_den(h)
}

/// RGB form of an HSL colour: the permutation of `(c, x, 0)` that the hue's
/// sextant selects, each component offset by `m`, scaled and truncated.
pub open spec fn rgb_of(h: Hsl) -> Color {
    let c = chroma(h);
    let x = second(h);
    let (r, g, b) = if h.sextant == 0 {
        (c, x, 0)
    } else if h.sextant == 1 {
        (x, c, 0)
    } else if h.sextant == 2 {
        (0, c, x)
    } else if h.sextant == 3 {
        (0, x, c)
    } else if h.sextant == 4 {
        (x, 0, c)
    } else {
        (c, 0, x)
    };
    Color { r: channel(h, r) as u8, g: channel(h, g) as u8, b: channel(h, b) as u8 }
}

/// Converts the colour with channels `r / 255`, `g / 255`, `b / 255` to HSL.
pub fn rgb_to_hsl(r: u8, g: u8, b: u8) -> (h: Hsl)
    ensures
        h == hsl_of(r, g, b),
        h.wf(),
{
    let hi: u8 = if r >= g && r >= b {
        r
    } else if g >= b {
        g
    } else {
        b
    };
    let lo: u8 = if r <= g && r <= b {
        r
    } else if g <= b {
        g
    } else {
        b
    };
    let d: u16 = (hi - lo) as u16;
    let sum: u16 = hi as u16 + lo as u16;
    if d == 0 {
        return Hsl {
            sextant: 0,
            hue_num: 0,
            hue_den: 1,
            sat_num: 0,
            sat_den: 1,
            light_num: sum,
            light_den: 510,
        };
    }
    let (sextant, hue_num): (u8, u16) = if r == hi {
        if g < b {
            (5, d - (b - g) as u16)
        } else if ((g - b) as u16) < d {
            (0, (g - b) as u16)
        } else {
            (1, 0)
        }
    } else if g == hi {
        if b < r {
            (1, d - (r - b) as u16)
        } else if ((b - r) as u16) < d {
            (2, (b - r) as u16)
        } else {
            (3, 0)
        }
    } else {
        if r < g {
            (3, d - (g - r) as u16)
        } else {
            (4, (r - g) as u16)
        }
    };
    let sat_den: u16 = if sum <= 255 {
        sum
    } else {
        510 - sum
    };
    Hsl { sextant, hue_num, hue_den: d, sat_num: d, sat_den, light_num: sum, light_den: 510 }
}

/// The HSL form of every colour is well formed.
pub proof fn lemma_hsl_wf(r: u8, g: u8, b: u8)
    ensures
        hsl_of(r, g, b).wf(),
{
}

/// The fractions of `hsl_of` are the textbook quantities: with channels
/// over 255, `cmax`, `cmin` and `delta = cmax - cmin`, the lightness is
/// `(cmax + cmin) / 2`; for a colour that is not grey the saturation is
/// `delta / (1 - |2l - 1|)` and the hue, in sextants and scaled by `delta`,
/// is `(g - b) mod 6 delta`, `(b - r) + 2 delta` or `(r - g) + 4 delta` by the
/// channel that holds the maximum (red first, then green).
pub proof fn lemma_hsl_of_formulas(r: u8, g: u8, b: u8)
    ensures
        ({
            let h = hsl_of(r, g, b);
            let (ri, gi, bi) = (r as int, g as int, b as int);
            let hi = max3(ri, gi, bi);
            let lo = min3(ri, gi, bi);
            let d = hi - lo;
            &&& h.light_num * 510 == (hi + lo) * h.light_den
            &&& d == 0 ==> h.sextant == 0 && h.hue_num == 0 && h.sat_num == 0
            &&& d > 0 ==> {
                &&& h.sat_num * (255 - abs(hi + lo - 255)) == d * h.sat_den
                &&& h.hue_den == d
                &&& ri == hi ==> h.sextant * d + h.hue_num == (gi - bi) % (6 * d)
                &&& ri < hi && gi == hi ==> h.sextant * d + h.hue_num == (bi - ri) + 2 * d
                &&& ri < hi && gi < hi ==> h.sextant * d + h.hue_num == (ri - gi) + 4 * d
            }
        }),
{
    let h = hsl_of(r, g, b);
    let (ri, gi, bi) = (r as int, g as int, b as int);
    let hi = max3(ri, gi, bi);
    let lo = min3(ri, gi, bi);
    let d = hi - lo;
    if d > 0 {
        let k = h.sextant as int;
        if ri == hi {
            if gi < bi {
                vstd::arithmetic::div_mod::lemma_fundamental_div_mod_converse_mod(gi - bi, 6 * d, -1, 6 * d + gi - bi);
                assert(k * d == 5 * d) by (nonlinear_arith)
                    requires
                        k == 5,
                ;
            } else if gi - bi < d {
                vstd::arithmetic::div_mod::lemma_fundamental_div_mod_converse_mod(gi - bi, 6 * d, 0, gi - bi);
                assert(k * d == 0) by (nonlinear_arith)
                    requires
                        k == 0,
                ;
            } else {
                vstd::arithmetic::div_mod::lemma_fundamental_div_mod_converse_mod(gi - bi, 6 * d, 0, gi - bi);
                assert(k * d == d) by (nonlinear_arith)
                    requires
                        k == 1,
                ;
            }
        } else if gi == hi {
            assert(k == 1 || k == 2 || k == 3);
            assert(k * d == (if k == 1 { d } else if k == 2 { 2 * d } else { 3 * d })) by (nonlinear_arith)
                requires
                    k == 1 || k == 2 || k == 3,
            ;
        } else {
            assert(k == 3 || k == 4);
            assert(k * d == (if k == 3 { 3 * d } else { 4 * d })) by (nonlinear_arith)
                requires
                    k == 3 || k == 4,
            ;
        }
    }
}

proof fn lemma_exact_channel(t: int, k: int)
    requires
        t > 0,
        k >= 0,
    ensures
        (255 * (4 * t * k)) / (1020 * t) == k,
{
    assert(255 * (4 * t * k) == (1020 * t) * k) by (nonlinear_arith);
    vstd::arithmetic::div_mod::lemma_div_multiples_vanish(k, 1020 * t);
    assert((1020 * t) * k == k * (1020 * t)) by (nonlinear_arith);
}

/// Converting an RGB colour to HSL and back gives the same colour, for
/// every colour, greys included.
pub proof fn lemma_rgb_hsl_round_trip(r: u8, g: u8, b: u8)
    ensures
        rgb_of(hsl_of(r, g, b)) == (Color { r, g, b }),
{
    let h = hsl_of(r, g, b);
    let (ri, gi, bi) = (r as int, g as int, b as int);
    let hi = max3(ri, gi, bi);
    let lo = min3(ri, gi, bi);
    let d = hi - lo;
    let sum = hi + lo;
    if d == 0 {
        assert(chroma(h) == 0 && second(h) == 0) by (nonlinear_arith)
            requires
                h.sat_num == 0,
                chroma(h) == 2 * light_span(h) * h.sat_num * h.hue_den,
                second(h) == 2 * light_span(h) * h.sat_num * (if h.sextant % 2 == 0 {
                    h.hue_num as int
                } else {
                    h.hue_den - h.hue_num
                }),
        ;
        assert(offset(h) == 4 * lo) by (nonlinear_arith)
            requires
                offset(h) == (2 * h.light_num * h.sat_den - light_span(h) * h.sat_num) * h.hue_den,
                h.sat_num == 0,
                h.sat_den == 1,
                h.hue_den == 1,
                h.light_num == 2 * lo,
        ;
        assert(hsl_den(h) == 1020);
        lemma_exact_channel(1, lo);
    } else {
        let sd = h.sat_den as int;
        let w: int = if h.sextant % 2 == 0 {
            h.hue_num as int
        } else {
            h.hue_den - h.hue_num
        };
        let t = sd * d;
        assert(sd > 0);
        assert(light_span(h) == 2 * sd);
        assert(t > 0) by (nonlinear_arith)
            requires
                t == sd * d,
                sd > 0,
                d > 0,
        ;
        assert(hsl_den(h) == 1020 * t) by (nonlinear_arith)
            requires
                hsl_den(h) == 2 * 510 * sd * d,
                t == sd * d,
        ;
        assert(chroma(h) == 4 * t * d) by (nonlinear_arith)
            requires
                chroma(h) == 2 * (2 * sd) * d * d,
                t == sd * d,
        ;
        assert(second(h) == 4 * t * w) by (nonlinear_arith)
            requires
                second(h) == 2 * (2 * sd) * d * w,
                t == sd * d,
        ;
        assert(offset(h) == 4 * t * lo) by (nonlinear_arith)
            requires
                offset(h) == (2 * sum * sd - (2 * sd) * d) * d,
                sum - d == 2 * lo,
                t == sd * d,
        ;
        assert(4 * t * d + 4 * t * lo == 4 * t * (d + lo)) by (nonlinear_arith);
        assert(4 * t * w + 4 * t * lo == 4 * t * (w + lo)) by (nonlinear_arith);
        assert(0 + 4 * t * lo == 4 * t * lo);
        assert(0 <= w);
        lemma_exact_channel(t, d + lo);
        lemma_exact_channel(t, w + lo);
        lemma_exact_channel(t, lo);
        assert(channel(h, chroma(h)) == hi);
        assert(channel(h, second(h)) == w + lo);
        assert(channel(h, 0) == lo);
    }
}

proof fn lemma_hsl_ranges(h: Hsl)
    requires
        h.wf(),
    ensures
        0 <= light_span(h) <= h.light_den,
        light_span(h) <= 2 * h.light_num,
        light_span(h) <= 2 * (h.light_den - h.light_num),
        light_span(h) * h.sat_num <= 2 * h.light_num * h.sat_den,
        0 <= offset(h),
        0 <= second(h) <= chroma(h),
        chroma(h) + offset(h) <= hsl_den(h),
        0 < hsl_den(h) <= 0x2_0000_0000_0000,
{
    let span = light_span(h);
    let (ld, ln, sd, sn, hd) = (
        h.light_den as int,
        h.light_num as int,
        h.sat_den as int,
        h.sat_num as int,
        h.hue_den as int,
    );
    let w: int = if h.sextant % 2 == 0 {
        h.hue_num as int
    } else {
        h.hue_den - h.hue_num
    };
    assert(span * sn <= 2 * ln * sd) by (nonlinear_arith)
        requires
            0 <= span <= 2 * ln,
            0 <= sn <= sd,
    ;
    assert(span * sn <= 2 * (ld - ln) * sd) by (nonlinear_arith)
        requires
            0 <= span <= 2 * (ld - ln),
            0 <= sn <= sd,
    ;
    assert(0 <= offset(h)) by (nonlinear_arith)
        requires
            offset(h) == (2 * ln * sd - span * sn) * hd,
            span * sn <= 2 * ln * sd,
            hd > 0,
    ;
    assert(0 <= second(h) <= chroma(h)) by (nonlinear_arith)
        requires
            second(h) == 2 * span * sn * w,
            chroma(h) == 2 * span * sn * hd,
            0 <= w <= hd,
            span >= 0,
            sn >= 0,
    ;
    assert(chroma(h) + offset(h) <= hsl_den(h)) by (nonlinear_arith)
        requires
            chroma(h) == 2 * span * sn * hd,
            offset(h) == (2 * ln * sd - span * sn) * hd,
            hsl_den(h) == 2 * ld * sd * hd,
            span * sn <= 2 * (ld - ln) * sd,
            hd > 0,
    ;
    assert(0 < hsl_den(h) <= 0x2_0000_0000_0000) by (nonlinear_arith)
        requires
            hsl_den(h) == 2 * ld * sd * hd,
            0 < ld <= 0xffff,
            0 < sd <= 0xffff,
            0 < hd <= 0xffff,
    ;
}

/// `(255 * (v + m)) / den`, which is at most 255 when `v + m <= den`.
fn scale_channel(v: u64, m: u64, den: u64) -> (r: u8)
    requires
        0 < den <= 0x2_0000_0000_0000,
        v + m <= den,
    ensures
        r == (255 * (v + m) as int) / (den as int),
{
    let scaled = 255 * (v + m);
    assert(scaled as int / den as int <= 255) by (nonlinear_arith)
        requires
            scaled == 255 * (v + m),
            v + m <= den,
            den > 0,
    {
        vstd::arithmetic::div_mod::lemma_div_is_ordered(scaled as int, 255 * den as int, den as int);
        vstd::arithmetic::div_mod::lemma_div_multiples_vanish(255, den as int);
    }
    (scaled / den) as u8
}

/// Converts an HSL colour to RGB, truncating each channel.
pub fn hsl_to_rgb(h: Hsl) -> (c: Color)
    requires
        h.wf(),
    ensures
        c == rgb_of(h),
{
    proof {
        lemma_hsl_ranges(h);
    }
    let ld = h.light_den as u64;
    let ln = h.light_num as u64;
    let sd = h.sat_den as u64;
    let sn = h.sat_num as u64;
    let hd = h.hue_den as u64;
    let hn = h.hue_num as u64;
    let span: u64 = if 2 * ln >= ld {
        ld - (2 * ln - ld)
    } else {
        ld - (ld - 2 * ln)
    };
    let w: u64 = if h.sextant % 2 == 0 {
        hn
    } else {
        hd - hn
    };
    assert(span * sn <= ld * sd && ld * sd <= 0xffff * 0xffff) by (nonlinear_arith)
        requires
            span <= ld <= 0xffff,
            sn <= sd <= 0xffff,
    ;
    let ls: u64 = ld * sd;
    let ss: u64 = span * sn;
    assert(ss <= ls && ls <= 0xffff * 0xffff) by (nonlinear_arith)
        requires
            span <= ld <= 0xffff,
            sn <= sd <= 0xffff,
            ls == ld * sd,
            ss == span * sn,
    ;
    assert(2 * ss * w <= 2 * ss * hd && 2 * ss * hd <= 2 * ls * hd && 2 * ls * hd <= 2 * (0xffff * 0xffff) * 0xffff)
        by (nonlinear_arith)
        requires
            w <= hd <= 0xffff,
            ss <= ls <= 0xffff * 0xffff,
    ;
    assert(ss <= 2 * ln * sd) by (nonlinear_arith)
        requires
            ss == span * sn,
            span * sn <= 2 * ln * sd,
    ;
    assert(2 * ln * sd <= 2 * ls) by (nonlinear_arith)
        requires
            ln <= ld,
            ls == ld * sd,
    ;
    let den: u64 = 2 * ls * hd;
    let c: u64 = 2 * ss * hd;
    let x: u64 = 2 * ss * w;
    let m: u64 = (2 * ln * sd - ss) * hd;
    assert(den == hsl_den(h) && c == chroma(h) && x == second(h) && m == offset(h)) by (nonlinear_arith)
        requires
            den == 2 * ls * hd,
            c == 2 * ss * hd,
            x == 2 * ss * w,
            m == (2 * ln * sd - ss) * hd,
            ls == ld * sd,
            ss == span * sn,
            hsl_den(h) == 2 * ld * sd * hd,
            chroma(h) == 2 * span * sn * hd,
            second(h) == 2 * span * sn * w,
            offset(h) == (2 * ln * sd - span * sn) * hd,
    ;
    let (vr, vg, vb): (u64, u64, u64) = if h.sextant == 0 {
        (c, x, 0)
    } else if h.sextant == 1 {
        (x, c, 0)
    } else if h.sextant == 2 {
        (0, c, x)
    } else if h.sextant == 3 {
        (0, x, c)
    } else if h.sextant == 4 {
        (x, 0, c)
    } else {
        (c, 0, x)
    };
    Color { r: scale_channel(vr, m, den), g: scale_channel(vg, m, den), b: scale_channel(vb, m, den) }
}

} // verus!
