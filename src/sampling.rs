//! Mapping a rendered RGBA image onto the cells of the framebuffer.
use vstd::prelude::*;
use crate::color::{packed, Color};
use crate::framebuffer::TerminalFrameBuffer;

verus! {

/// The cell that pixel `i` (row-major) of a `pixel_width` by `pixel_height`
/// image lands in, on a terminal of `columns` by `rows` characters: the
/// column scales linearly and is shifted left by a quarter of the columns,
/// stopping at zero; the row scales linearly and counts from the bottom.
pub open spec fn source_cell(i: nat, pixel_width: nat, pixel_height: nat, columns: nat, rows: nat) -> (nat, nat) {
    let sx = ((i % pixel_width) * columns) / pixel_width;
    let shift = columns / 4;
    let x: nat = if sx >= shift { (sx - shift) as nat } else { 0 };
    let y: nat = (rows - ((i / pixel_width) * rows) / pixel_height) as nat;
    (x, y)
}

/// The cell grid for a terminal of `columns` by `rows` characters: every
/// cell is printed two columns wide.
pub fn grid_for_terminal(columns: u16, rows: u16) -> (r: (usize, usize))
    ensures
        r.0 == columns / 2,
        r.1 == rows,
{
    ((columns / 2) as usize, rows as usize)
}

/// The colour of pixel `i` of RGBA data: its first three bytes.
pub open spec fn source_color(data: Seq<u8>, i: nat) -> Color {
    Color { r: data[(4 * i) as int], g: data[(4 * i + 1) as int], b: data[(4 * i + 2) as int] }
}

/// `back` with the cell `(x, y)` of a `width` by `height` grid set to `v`,
/// or unchanged when the cell lies outside the grid.
pub open spec fn write_cell(back: Seq<u32>, width: nat, height: nat, x: nat, y: nat, v: u32) -> Seq<u32> {
    if x < width && y < height {
        back.update((y * width + x) as int, v)
    } else {
        back
    }
}

/// `back` after the first `k` pixels of `data` were written in order.
pub open spec fn blitted(
    back: Seq<u32>,
    width: nat,
    height: nat,
    data: Seq<u8>,
    pixel_width: nat,
    pixel_height: nat,
    columns: nat,
    rows: nat,
    k: nat,
) -> Seq<u32>
    decreases k,
{
    if k == 0 {
        back
    } else {
        let i = (k - 1) as nat;
        let (x, y) = source_cell(i, pixel_width, pixel_height, columns, rows);
        write_cell(
            blitted(back, width, height, data, pixel_width, pixel_height, columns, rows, i),
            width,
            height,
            x,
            y,
            packed(source_color(data, i)),
        )
    }
}

/// Computes the cell that pixel `i` of the image lands in.
pub fn source_pixel_cell(i: usize, pixel_width: usize, pixel_height: usize, columns: usize, rows: usize) -> (r: (
    usize,
    usize,
))
    requires
        0 < pixel_width,
        0 < pixel_height,
        i < pixel_width * pixel_height,
    ensures
        r.0 as nat == source_cell(i as nat, pixel_width as nat, pixel_height as nat, columns as nat, rows as nat).0,
        r.1 as nat == source_cell(i as nat, pixel_width as nat, pixel_height as nat, columns as nat, rows as nat).1,
{
    let pw = pixel_width as u128;
    let ph = pixel_height as u128;
    let col = (i % pixel_width) as u128;
    let line = (i / pixel_width) as u128;
    assert(col * (columns as u128) <= pw * (columns as u128)) by (nonlinear_arith)
        requires
            col < pw,
    ;
    assert(pw * (columns as u128) <= 0xffff_ffff_ffff_ffff * 0xffff_ffff_ffff_ffff) by (nonlinear_arith)
        requires
            pw <= 0xffff_ffff_ffff_ffff,
            columns <= 0xffff_ffff_ffff_ffff,
    ;
    let scaled = col * (columns as u128);
    let sx = scaled / pw;
    assert(sx <= columns) by (nonlinear_arith)
        requires
            sx as int == scaled as int / pw as int,
            scaled <= pw * (columns as u128),
            pw > 0,
    {
        vstd::arithmetic::div_mod::lemma_multiply_divide_le(scaled as int, pw as int, columns as int);
    }
    let shift = (columns / 4) as u128;
    let x: usize = if sx >= shift {
        (sx - shift) as usize
    } else {
        0
    };
    proof {
        vstd::arithmetic::div_mod::lemma_multiply_divide_lt(i as int, pixel_width as int, pixel_height as int);
    }
    assert(line * (rows as u128) <= ph * (rows as u128)) by (nonlinear_arith)
        requires
            line < ph,
    ;
    assert(ph * (rows as u128) <= 0xffff_ffff_ffff_ffff * 0xffff_ffff_ffff_ffff) by (nonlinear_arith)
        requires
            ph <= 0xffff_ffff_ffff_ffff,
            rows <= 0xffff_ffff_ffff_ffff,
    ;
    let down = (line * (rows as u128)) / ph;
    assert(down <= rows) by (nonlinear_arith)
        requires
            down as int == (line * rows) as int / ph as int,
            line * (rows as u128) <= ph * (rows as u128),
            ph > 0,
    {
        vstd::arithmetic::div_mod::lemma_multiply_divide_le(line * rows, ph as int, rows as int);
    }
    let y: usize = rows - down as usize;
    (x, y)
}

/// Writes each pixel of RGBA `data` (four bytes a pixel, alpha ignored)
/// into the back buffer at the cell that `source_pixel_cell` gives, in
/// order; pixels whose cell lies outside the grid are dropped.
pub fn blit_rgba(
    fb: &mut TerminalFrameBuffer,
    data: &Vec<u8>,
    pixel_width: usize,
    pixel_height: usize,
    columns: usize,
    rows: usize,
)
    requires
        old(fb).wf(),
        0 < pixel_width,
        0 < pixel_height,
        data.len() / 4 <= pixel_width * pixel_height,
    ensures
        final(fb).wf(),
        final(fb).width() == old(fb).width(),
        final(fb).height() == old(fb).height(),
        final(fb).front() == old(fb).front(),
        final(fb).back() == blitted(
            old(fb).back(),
            old(fb).width(),
            old(fb).height(),
            data@,
            pixel_width as nat,
            pixel_height as nat,
            columns as nat,
            rows as nat,
            data.len() as nat / 4,
        ),
{
    let n = data.len() / 4;
    let mut i: usize = 0;
    while i < n
        invariant
            fb.wf(),
            n == data.len() / 4,
            n <= pixel_width * pixel_height,
            0 < pixel_width,
            0 < pixel_height,
            i <= n,
            fb.width() == old(fb).width(),
            fb.height() == old(fb).height(),
            fb.front() == old(fb).front(),
            fb.back() == blitted(
                old(fb).back(),
                old(fb).width(),
                old(fb).height(),
                data@,
                pixel_width as nat,
                pixel_height as nat,
                columns as nat,
                rows as nat,
                i as nat,
            ),
        decreases n - i,
    {
        let (x, y) = source_pixel_cell(i, pixel_width, pixel_height, columns, rows);
        let color = Color { r: data[4 * i], g: data[4 * i + 1], b: data[4 * i + 2] };
        fb.set_pixel(x, y, color);
        i += 1;
    }
}

} // verus!
