//! The double-buffered character framebuffer and its diff repaint.
use vstd::prelude::*;
use crate::ansi::{
    background, clear_screen, cursor_to, foreground, push_clear_screen, push_cursor_to,
    push_reset, push_rgb_sequence, push_utf8, reset, utf8, DIGIT_FOUR, DIGIT_THREE, NEWLINE,
    SPACE,
};
use crate::color::{pack, packed, unpack, unpacked, Color};
use crate::glyph::{appearance, pick_cell_appearance, ramp};

verus! {

/// Bytes that repaint cell `(x, y)` to show the packed colour `v`: the
/// cursor moved to row `y + 1`, column `2x + 1`, the background set to the
/// colour, the foreground to its ink colour, and the glyph printed twice.
pub open spec fn cell_repaint(x: nat, y: nat, v: u32) -> Seq<u8> {
    let c = unpacked(v);
    let g = appearance(c).0;
    cursor_to(y + 1, 2 * x + 1) + background(c) + foreground(appearance(c).1) + utf8(g) + utf8(g)
}

/// Repaints, in row-major order, of those of the first `k` cells whose
/// values differ between `front` and `back`.
pub open spec fn diff_repaints(front: Seq<u32>, back: Seq<u32>, width: nat, k: nat) -> Seq<u8>
    decreases k,
{
    if k == 0 {
        seq![]
    } else {
        let i = (k - 1) as nat;
        diff_repaints(front, back, width, i) + if front[i as int] != back[i as int] {
            cell_repaint(i % width, i / width, back[i as int])
        } else {
            seq![]
        }
    }
}

/// Parks the cursor below the grid and resets the attributes.
pub open spec fn end_of_frame(height: nat) -> Seq<u8> {
    cursor_to(height + 1, 1) + reset()
}

/// Everything one frame writes: a repaint for each changed cell, then the
/// end-of-frame sequence.
pub open spec fn frame_output(front: Seq<u32>, back: Seq<u32>, width: nat, height: nat) -> Seq<u8> {
    diff_repaints(front, back, width, width * height) + end_of_frame(height)
}

/// `n` copies of `s`.
pub open spec fn repeat(s: Seq<u8>, n: nat) -> Seq<u8>
    decreases n,
{
    if n == 0 {
        seq![]
    } else {
        repeat(s, (n - 1) as nat) + s
    }
}

/// One row of the initial paint: `width` cells of two spaces on the colour,
/// then a reset and a newline.
pub open spec fn paint_row(width: nat, c: Color) -> Seq<u8> {
    repeat(background(c) + seq![SPACE, SPACE], width) + reset() + seq![NEWLINE]
}

/// The initial paint: the screen cleared, then `height` rows.
pub open spec fn initial_paint(width: nat, height: nat, c: Color) -> Seq<u8> {
    clear_screen() + repeat(paint_row(width, c), height)
}

/// `s` resized to `n` cells: cut, or padded with black.
pub open spec fn resized(s: Seq<u32>, n: nat) -> Seq<u32> {
    Seq::new(n, |i: int| if i < s.len() { s[i] } else { 0u32 })
}

/// A character framebuffer of `width` by `height` cells, each printed two
/// columns wide. The front buffer holds what was last painted, the back
/// buffer what is being drawn for the next frame.
pub struct TerminalFrameBuffer {
    front_buffer: Vec<u32>,
    back_buffer: Vec<u32>,
    width: usize,
    height: usize,
}

proof fn lemma_cell_index(x: int, y: int, width: int, height: int)
    requires
        0 <= x < width,
        0 <= y < height,
    ensures
        0 <= y * width + x < width * height,
        (y * width + x) / width == y,
        (y * width + x) % width == x,
{
    assert(y * width + x < width * height) by (nonlinear_arith)
        requires
            0 <= x < width,
            0 <= y < height,
    ;
    assert(0 <= y * width) by (nonlinear_arith)
        requires
            0 <= y,
            0 <= width,
    ;
    vstd::arithmetic::div_mod::lemma_fundamental_div_mod_converse(y * width + x, width, y, x);
}

proof fn lemma_ramp_below_two_bytes(i: int)
    requires
        0 <= i < 12,
    ensures
        (ramp()[i] as u32) < 0x800,
{
    assert(ramp()[0] == '@');
    assert(ramp()[11] == '\u{a0}');
}

/// Appends the repaint of cell `(x, y)` showing the packed colour `v`.
fn push_cell_repaint(out: &mut Vec<u8>, x: usize, y: usize, v: u32)
    ensures
        final(out)@ == old(out)@ + cell_repaint(x as nat, y as nat, v),
{
    let c = unpack(v);
    let (g, ink) = pick_cell_appearance(c);
    proof {
        let h = crate::color::hsl_of(c.r, c.g, c.b);
        crate::color::lemma_hsl_wf(c.r, c.g, c.b);
        crate::glyph::lemma_glyph_index_in_ramp(h.light_num as int, h.light_den as int);
        lemma_ramp_below_two_bytes(
            crate::glyph::glyph_index_of(h.light_num as int, h.light_den as int),
        );
    }
    let ghost start = out@;
    push_cursor_to(out, y as u128 + 1, 2 * (x as u128) + 1);
    push_rgb_sequence(out, DIGIT_FOUR, c);
    push_rgb_sequence(out, DIGIT_THREE, ink);
    push_utf8(out, g);
    push_utf8(out, g);
    assert(out@ =~= start + cell_repaint(x as nat, y as nat, v));
}

proof fn lemma_equal_prefix_quiet(s: Seq<u32>, width: nat, k: nat)
    requires
        k <= s.len(),
    ensures
        diff_repaints(s, s, width, k) == Seq::<u8>::empty(),
    decreases k,
{
    if k > 0 {
        lemma_equal_prefix_quiet(s, width, (k - 1) as nat);
    }
}

/// When the front and back buffers agree, a frame repaints no cell and
/// writes the end-of-frame sequence alone.
pub proof fn lemma_unchanged_frame_is_quiet(s: Seq<u32>, width: nat, height: nat)
    requires
        s.len() == width * height,
    ensures
        frame_output(s, s, width, height) == end_of_frame(height),
{
    lemma_equal_prefix_quiet(s, width, width * height);
    assert(frame_output(s, s, width, height) =~= end_of_frame(height));
}

/// A frame drawn right after `new` repaints no cell: both buffers hold the
/// initial colour everywhere.
pub proof fn lemma_new_buffer_draws_no_cell(width: nat, height: nat, c: Color)
    ensures
        ({
            let filled = Seq::new(width * height, |i: int| packed(c));
            frame_output(filled, filled, width, height) == end_of_frame(height)
        }),
{
    lemma_unchanged_frame_is_quiet(Seq::new(width * height, |i: int| packed(c)), width, height);
}

proof fn lemma_one_change_prefix(s: Seq<u32>, width: nat, j: nat, v: u32, k: nat)
    requires
        k <= s.len(),
        j < s.len(),
        s[j as int] != v,
    ensures
        diff_repaints(s, s.update(j as int, v), width, k) == if j < k {
            cell_repaint(j % width, j / width, v)
        } else {
            Seq::<u8>::empty()
        },
    decreases k,
{
    if k > 0 {
        lemma_one_change_prefix(s, width, j, v, (k - 1) as nat);
        assert(diff_repaints(s, s.update(j as int, v), width, k) =~= if j < k {
            cell_repaint(j % width, j / width, v)
        } else {
            Seq::<u8>::empty()
        });
    }
}

/// From a steady state where both buffers agree, writing one in-bounds cell
/// with a colour it does not already hold makes the next frame repaint
/// exactly that cell, then write the end-of-frame sequence.
pub proof fn lemma_one_write_one_repaint(
    s: Seq<u32>,
    width: nat,
    height: nat,
    x: nat,
    y: nat,
    c: Color,
)
    requires
        s.len() == width * height,
        x < width,
        y < height,
        s[(y * width + x) as int] != packed(c),
    ensures
        frame_output(s, s.update((y * width + x) as int, packed(c)), width, height) == cell_repaint(x, y, packed(c))
            + end_of_frame(height),
{
    lemma_cell_index(x as int, y as int, width as int, height as int);
    let j = (y * width + x) as nat;
    lemma_one_change_prefix(s, width, j, packed(c), width * height);
}

/// After a resize both buffers are padded with black, so the next frame
/// finds a cell changed exactly when its index lies below the old size and
/// the old buffers differed there; the padded cells are never repainted
/// unless drawn over.
pub proof fn lemma_resize_changes_by_index(front: Seq<u32>, back: Seq<u32>, n: nat, i: int)
    requires
        front.len() == back.len(),
        0 <= i < n,
    ensures
        resized(front, n)[i] != resized(back, n)[i] <==> (i < front.len() && front[i] != back[i]),
        i >= front.len() ==> resized(front, n)[i] == 0 && resized(back, n)[i] == 0,
{
}

impl TerminalFrameBuffer {
    /// The front buffer: the cells as last painted.
    pub closed spec fn front(&self) -> Seq<u32> {
        self.front_buffer@
    }

    /// The back buffer: the cells written for the next frame.
    pub closed spec fn back(&self) -> Seq<u32> {
        self.back_buffer@
    }

    pub closed spec fn width(&self) -> nat {
        self.width as nat
    }

    pub closed spec fn height(&self) -> nat {
        self.height as nat
    }

    /// Both buffers hold `width * height` cells.
    pub open spec fn wf(&self) -> bool {
        &&& self.width() * self.height() <= usize::MAX
        &&& self.front().len() == self.width() * self.height()
        &&& self.back().len() == self.width() * self.height()
    }

    /// A framebuffer of `width` by `height` cells, both buffers filled with
    /// `initial_color`. The terminal paint that goes with it is
    /// `clear_terminal_and_fill_with_initial_color`.
    pub fn new(width: usize, height: usize, initial_color: Color) -> (fb: TerminalFrameBuffer)
        requires
            width * height <= usize::MAX,
        ensures
            fb.wf(),
            fb.width() == width,
            fb.height() == height,
            fb.front() == Seq::new((width * height) as nat, |i: int| packed(initial_color)),
            fb.back() == fb.front(),
    {
        let value = pack(initial_color);
        let front_buffer = vec![value; width * height];
        let back_buffer = vec![value; width * height];
        let fb = TerminalFrameBuffer { front_buffer, back_buffer, width, height };
        assert(fb.front() =~= Seq::new((width * height) as nat, |i: int| packed(initial_color)));
        assert(fb.back() =~= fb.front());
        fb
    }

    /// Resizes both buffers to `width * height` cells, keeping the values
    /// at the indices below the old size and padding with black; the cells
    /// are not laid out again for the new width.
    pub fn update_res(&mut self, width: usize, height: usize)
        requires
            old(self).wf(),
            width * height <= usize::MAX,
        ensures
            final(self).wf(),
            final(self).width() == width,
            final(self).height() == height,
            final(self).front() == resized(old(self).front(), (width * height) as nat),
            final(self).back() == resized(old(self).back(), (width * height) as nat),
    {
        let n = width * height;
        self.front_buffer.resize(n, 0);
        self.back_buffer.resize(n, 0);
        self.width = width;
        self.height = height;
        assert(self.front() =~= resized(old(self).front(), n as nat));
        assert(self.back() =~= resized(old(self).back(), n as nat));
    }

    /// Sets every cell of the back buffer to black.
    pub fn clear(&mut self)
        requires
            old(self).wf(),
        ensures
            final(self).wf(),
            final(self).width() == old(self).width(),
            final(self).height() == old(self).height(),
            final(self).front() == old(self).front(),
            final(self).back() == Seq::new(old(self).back().len(), |i: int| 0u32),
    {
        let n = self.back_buffer.len();
        let mut i: usize = 0;
        while i < n
            invariant
                self.wf(),
                n == self.back().len(),
                i <= n,
                self.width() == old(self).width(),
                self.height() == old(self).height(),
                self.front() == old(self).front(),
                forall|j: int| 0 <= j < i ==> self.back()[j] == 0,
            decreases n - i,
        {
            self.back_buffer.set(i, 0);
            i += 1;
        }
        assert(self.back() =~= Seq::new(old(self).back().len(), |i: int| 0u32));
    }

    /// Writes `color` into the back buffer at cell `(x, y)`; a cell outside
    /// the grid is ignored.
    pub fn set_pixel(&mut self, x: usize, y: usize, color: Color)
        requires
            old(self).wf(),
        ensures
            final(self).wf(),
            final(self).width() == old(self).width(),
            final(self).height() == old(self).height(),
            final(self).front() == old(self).front(),
            final(self).back() == if x < old(self).width() && y < old(self).height() {
                old(self).back().update(y * old(self).width() + x, packed(color))
            } else {
                old(self).back()
            },
    {
        let value = pack(color);
        if x < self.width && y < self.height {
            proof {
                lemma_cell_index(x as int, y as int, self.width as int, self.height as int);
            }
            self.back_buffer.set(y * self.width + x, value);
        }
    }

    /// Paints every changed cell, returned as the bytes to write to the
    /// terminal in one go, then swaps the buffers so that what was drawn
    /// becomes what is on screen.
    pub fn draw_frame(&mut self) -> (out: Vec<u8>)
        requires
            old(self).wf(),
        ensures
            final(self).wf(),
            final(self).width() == old(self).width(),
            final(self).height() == old(self).height(),
            final(self).front() == old(self).back(),
            final(self).back() == old(self).front(),
            out@ == frame_output(old(self).front(), old(self).back(), old(self).width(), old(self).height()),
    {
        let mut out: Vec<u8> = Vec::new();
        let ghost front = self.front();
        let ghost back = self.back();
        let ghost width = self.width();
        let mut y: usize = 0;
        let mut i: usize = 0;
        while y < self.height
            invariant
                self.wf(),
                front == self.front(),
                back == self.back(),
                width == self.width(),
                y <= self.height(),
                i == y * width,
                out@ == diff_repaints(front, back, width, i as nat),
            decreases self.height() - y,
        {
            let mut x: usize = 0;
            while x < self.width
                invariant
                    self.wf(),
                    front == self.front(),
                    back == self.back(),
                    width == self.width(),
                    y < self.height(),
                    x <= width,
                    i == y * width + x,
                    out@ == diff_repaints(front, back, width, i as nat),
                decreases width - x,
            {
                proof {
                    lemma_cell_index(x as int, y as int, width as int, self.height() as int);
                }
                let front_pixel = self.get_pixel(x, y);
                let back_pixel = self.back_buffer[i];
                if front_pixel != back_pixel {
                    push_cell_repaint(&mut out, x, y, back_pixel);
                }
                assert(out@ =~= diff_repaints(front, back, width, (i + 1) as nat));
                x += 1;
                i += 1;
            }
            assert((y + 1) * width == y * width + width) by (nonlinear_arith);
            y += 1;
        }
        assert(i == width * self.height()) by (nonlinear_arith)
            requires
                i == y * width,
                y == self.height(),
        ;
        push_cursor_to(&mut out, self.height as u128 + 1, 1);
        push_reset(&mut out);
        assert(out@ =~= frame_output(front, back, width, self.height()));
        self.swap_buffers();
        out
    }

    /// The terminal paint for a new framebuffer: the screen cleared, then
    /// every row printed as cells of two spaces on `initial_color`.
    pub fn clear_terminal_and_fill_with_initial_color(&self, initial_color: Color) -> (out: Vec<u8>)
        ensures
            out@ == initial_paint(self.width(), self.height(), initial_color),
    {
        let mut out: Vec<u8> = Vec::new();
        push_clear_screen(&mut out);
        let ghost cell = background(initial_color) + seq![SPACE, SPACE];
        let mut y: usize = 0;
        while y < self.height
            invariant
                y <= self.height(),
                cell == background(initial_color) + seq![SPACE, SPACE],
                out@ == clear_screen() + repeat(paint_row(self.width(), initial_color), y as nat),
            decreases self.height() - y,
        {
            let ghost row_start = out@;
            let mut x: usize = 0;
            while x < self.width
                invariant
                    x <= self.width(),
                    cell == background(initial_color) + seq![SPACE, SPACE],
                    out@ == row_start + repeat(cell, x as nat),
                decreases self.width() - x,
            {
                let ghost before = out@;
                push_rgb_sequence(&mut out, DIGIT_FOUR, initial_color);
                out.push(SPACE);
                out.push(SPACE);
                assert(out@ =~= before + cell);
                assert(repeat(cell, (x + 1) as nat) == repeat(cell, x as nat) + cell);
                assert(out@ =~= row_start + repeat(cell, (x + 1) as nat));
                x += 1;
            }
            push_reset(&mut out);
            out.push(NEWLINE);
            assert(out@ =~= row_start + paint_row(self.width(), initial_color));
            assert(out@ =~= clear_screen() + repeat(paint_row(self.width(), initial_color), (y + 1) as nat));
            y += 1;
        }
        out
    }

    fn get_pixel(&self, x: usize, y: usize) -> (v: u32)
        requires
            self.wf(),
            x < self.width(),
            y < self.height(),
        ensures
            v == self.front()[y * self.width() + x],
    {
        proof {
            lemma_cell_index(x as int, y as int, self.width as int, self.height as int);
        }
        self.front_buffer[y * self.width + x]
    }

    fn swap_buffers(&mut self)
        ensures
            final(self).front() == old(self).back(),
            final(self).back() == old(self).front(),
            final(self).width() == old(self).width(),
            final(self).height() == old(self).height(),
    {
        std::mem::swap(&mut self.front_buffer, &mut self.back_buffer);
    }
}

} // verus!
