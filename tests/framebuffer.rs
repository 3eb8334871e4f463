use ascii_render::color::Color;
use ascii_render::framebuffer::TerminalFrameBuffer;

fn rgb(r: u8, g: u8, b: u8) -> Color {
    Color { r, g, b }
}

fn text(bytes: Vec<u8>) -> String {
    String::from_utf8(bytes).unwrap()
}

fn repaint_count(s: &str) -> usize {
    s.matches("\x1b[38;2;").count()
}

#[test]
fn initial_paint_fills_every_cell() {
    let fb = TerminalFrameBuffer::new(2, 1, rgb(1, 2, 3));
    let out = text(fb.clear_terminal_and_fill_with_initial_color(rgb(1, 2, 3)));
    assert_eq!(out, "\x1B[2J\x1B[1;1H\x1b[48;2;1;2;3m  \x1b[48;2;1;2;3m  \x1b[0m\n");
}

#[test]
fn initial_paint_rows() {
    let fb = TerminalFrameBuffer::new(1, 3, rgb(0, 0, 0));
    let out = text(fb.clear_terminal_and_fill_with_initial_color(rgb(0, 0, 0)));
    let row = "\x1b[48;2;0;0;0m  \x1b[0m\n";
    assert_eq!(out, format!("\x1B[2J\x1B[1;1H{}{}{}", row, row, row));
}

#[test]
fn new_buffer_draws_end_of_frame_only() {
    let mut fb = TerminalFrameBuffer::new(4, 2, rgb(10, 20, 30));
    let out = text(fb.draw_frame());
    assert_eq!(out, "\x1B[3;1H\x1b[0m");
}

#[test]
fn red_pixel_on_black_buffer() {
    let mut fb = TerminalFrameBuffer::new(4, 2, rgb(0, 0, 0));
    fb.set_pixel(0, 0, rgb(255, 0, 0));
    let out = text(fb.draw_frame());
    assert_eq!(out, "\x1B[1;1H\x1b[48;2;255;0;0m\x1b[38;2;255;0;0m**\x1B[3;1H\x1b[0m");
}

#[test]
fn one_write_repaints_one_cell() {
    let mut fb = TerminalFrameBuffer::new(5, 3, rgb(0, 0, 0));
    fb.set_pixel(3, 2, rgb(255, 255, 255));
    let out = text(fb.draw_frame());
    assert_eq!(repaint_count(&out), 1);
    assert_eq!(out, "\x1B[3;7H\x1b[48;2;255;255;255m\x1b[38;2;127;127;127m@@\x1B[4;1H\x1b[0m");
}

#[test]
fn second_frame_compares_against_the_swapped_buffer() {
    // after a frame the back buffer holds the previous front buffer, so a
    // second frame without writes repaints the cell as it was before
    let mut fb = TerminalFrameBuffer::new(2, 1, rgb(0, 0, 0));
    fb.set_pixel(1, 0, rgb(255, 0, 0));
    let first = text(fb.draw_frame());
    assert_eq!(repaint_count(&first), 1);
    let second = text(fb.draw_frame());
    assert_eq!(second, "\x1B[1;3H\x1b[48;2;0;0;0m\x1b[38;2;127;127;127m\u{a0}\u{a0}\x1B[2;1H\x1b[0m");
}

#[test]
fn steady_frames_repaint_nothing() {
    let mut fb = TerminalFrameBuffer::new(3, 2, rgb(0, 0, 0));
    for _ in 0..3 {
        fb.clear();
        fb.set_pixel(1, 1, rgb(9, 9, 9));
        let _ = fb.draw_frame();
    }
    fb.clear();
    fb.set_pixel(1, 1, rgb(9, 9, 9));
    let out = text(fb.draw_frame());
    assert_eq!(out, "\x1B[3;1H\x1b[0m");
}

#[test]
fn writing_the_same_colour_repaints_nothing() {
    let mut fb = TerminalFrameBuffer::new(2, 2, rgb(5, 6, 7));
    fb.set_pixel(1, 1, rgb(5, 6, 7));
    assert_eq!(text(fb.draw_frame()), "\x1B[3;1H\x1b[0m");
}

#[test]
fn set_pixel_just_outside_is_ignored() {
    let mut fb = TerminalFrameBuffer::new(4, 2, rgb(0, 0, 0));
    fb.set_pixel(4, 0, rgb(255, 0, 0));
    fb.set_pixel(0, 2, rgb(255, 0, 0));
    fb.set_pixel(usize::MAX, usize::MAX, rgb(255, 0, 0));
    assert_eq!(text(fb.draw_frame()), "\x1B[3;1H\x1b[0m");
}

#[test]
fn clear_blacks_out_the_back_buffer() {
    let mut fb = TerminalFrameBuffer::new(1, 1, rgb(255, 255, 255));
    fb.clear();
    let out = text(fb.draw_frame());
    assert_eq!(out, "\x1B[1;1H\x1b[48;2;0;0;0m\x1b[38;2;127;127;127m\u{a0}\u{a0}\x1B[2;1H\x1b[0m");
}

#[test]
fn cells_are_visited_in_row_major_order() {
    let mut fb = TerminalFrameBuffer::new(2, 2, rgb(0, 0, 0));
    fb.set_pixel(0, 1, rgb(0, 0, 255));
    fb.set_pixel(1, 0, rgb(0, 255, 0));
    let out = text(fb.draw_frame());
    let green = out.find("\x1B[1;3H").unwrap();
    let blue = out.find("\x1B[2;1H").unwrap();
    assert!(green < blue);
    assert_eq!(repaint_count(&out), 2);
    assert!(out.ends_with("\x1B[3;1H\x1b[0m"));
}

#[test]
fn growing_pads_with_black() {
    let mut fb = TerminalFrameBuffer::new(2, 1, rgb(255, 0, 0));
    fb.update_res(2, 2);
    // the padded cells are black in both buffers, so nothing differs
    assert_eq!(text(fb.draw_frame()), "\x1B[3;1H\x1b[0m");
    fb.set_pixel(1, 1, rgb(255, 255, 255));
    let out = text(fb.draw_frame());
    assert_eq!(out, "\x1B[2;3H\x1b[48;2;255;255;255m\x1b[38;2;127;127;127m@@\x1B[3;1H\x1b[0m");
}

#[test]
fn resizing_keeps_values_by_index_not_by_cell() {
    let mut fb = TerminalFrameBuffer::new(2, 2, rgb(0, 0, 0));
    fb.set_pixel(0, 1, rgb(255, 0, 0));
    // index 2 keeps its value: with width 4 it is cell (2, 0)
    fb.update_res(4, 1);
    let out = text(fb.draw_frame());
    assert_eq!(out, "\x1B[1;5H\x1b[48;2;255;0;0m\x1b[38;2;255;0;0m**\x1B[2;1H\x1b[0m");
}

#[test]
fn shrinking_cuts_the_buffers() {
    let mut fb = TerminalFrameBuffer::new(3, 3, rgb(0, 0, 0));
    fb.set_pixel(2, 2, rgb(255, 0, 0));
    fb.update_res(2, 2);
    assert_eq!(text(fb.draw_frame()), "\x1B[3;1H\x1b[0m");
}

#[test]
fn empty_grid_draws_end_of_frame() {
    let mut fb = TerminalFrameBuffer::new(0, 0, rgb(0, 0, 0));
    assert_eq!(text(fb.draw_frame()), "\x1B[1;1H\x1b[0m");
    let paint = text(fb.clear_terminal_and_fill_with_initial_color(rgb(0, 0, 0)));
    assert_eq!(paint, "\x1B[2J\x1B[1;1H");
}
