use glasses::window::font::{include_font, FONT_H, GLYPH_COUNT};
use glasses::window::text::render_text;

const LIT: [u8; 4] = [255, 255, 255, 220];

fn pixel(buf: &[u8], w: usize, x: usize, y: usize) -> [u8; 4] {
    let off = (y * w + x) * 4;
    [buf[off], buf[off + 1], buf[off + 2], buf[off + 3]]
}

#[test]
fn font_has_the_specified_glyphs() {
    let font = include_font();
    assert_eq!(font.len(), GLYPH_COUNT);
    assert_eq!(font[(b'A' - 32) as usize], [0b01110, 0b10001, 0b10001, 0b11111, 0b10001, 0b10001, 0b10001]);
    assert_eq!(font[(b'0' - 32) as usize], [0b01110, 0b10001, 0b10011, 0b10101, 0b11001, 0b10001, 0b01110]);
    assert_eq!(font[(b'/' - 32) as usize], [0b00001, 0b00010, 0b00100, 0b00100, 0b01000, 0b10000, 0b10000]);
    assert_eq!(font[0], [0; FONT_H]);
    assert_eq!(font[(b'~' - 32) as usize], [0; FONT_H]);
}

#[test]
fn font_rows_fit_in_five_bits() {
    let font = include_font();
    for glyph in font.iter() {
        for row in glyph.iter() {
            assert!(*row < 32);
        }
    }
}

#[test]
fn renders_a_glyph_at_scale_one() {
    let w = 8;
    let mut buf = vec![0u8; w * 8 * 4];
    render_text(&mut buf, w, "A", 1, 0, 1);
    let font = include_font();
    let glyph = font[(b'A' - 32) as usize];
    for y in 0..8 {
        for x in 0..w {
            let on = y < 7 && x >= 1 && x < 6 && (glyph[y] >> (4 - (x - 1))) & 1 == 1;
            assert_eq!(pixel(&buf, w, x, y), if on { LIT } else { [0; 4] }, "pixel {} {}", x, y);
        }
    }
}

#[test]
fn scale_draws_squares() {
    let w = 12;
    let mut buf = vec![0u8; w * 14 * 4];
    render_text(&mut buf, w, "I", 0, 0, 2);
    // 'I' row 0 is 01110: columns 1..4, each two pixels wide
    assert_eq!(pixel(&buf, w, 1, 0), [0; 4]);
    assert_eq!(pixel(&buf, w, 2, 0), LIT);
    assert_eq!(pixel(&buf, w, 7, 1), LIT);
    assert_eq!(pixel(&buf, w, 8, 1), [0; 4]);
    // row 1 is 00100: only column 2
    assert_eq!(pixel(&buf, w, 4, 2), LIT);
    assert_eq!(pixel(&buf, w, 3, 3), [0; 4]);
}

#[test]
fn characters_advance_by_six_font_pixels() {
    let w = 16;
    let mut buf = vec![0u8; w * 7 * 4];
    render_text(&mut buf, w, " L", 0, 0, 1);
    // 'L' starts at column 6; its first column is lit on every row
    for y in 0..7 {
        assert_eq!(pixel(&buf, w, 6, y), LIT);
    }
    assert_eq!(pixel(&buf, w, 5, 0), [0; 4]);
}

#[test]
fn pixels_off_the_buffer_are_clipped() {
    let w = 4;
    let mut buf = vec![7u8; w * 3 * 4 + 2];
    render_text(&mut buf, w, "H", -2, -1, 1);
    // 'H' is 10001 on rows 0-2 and 6, 11111 on row 3: column 4 lands at x = 2
    assert_eq!(pixel(&buf, w, 2, 0), LIT);
    assert_eq!(pixel(&buf, w, 2, 2), LIT);
    assert_eq!(pixel(&buf, w, 0, 2), LIT);
    assert_eq!(pixel(&buf, w, 3, 0), [7; 4]);
    assert_eq!(&buf[w * 3 * 4..], &[7, 7]);
}

#[test]
fn partial_pixel_at_the_end_is_not_written() {
    let w = 2;
    let mut buf = vec![0u8; 6];
    render_text(&mut buf, w, "|", -1, 0, 1);
    assert_eq!(buf, vec![0u8; 6]);
}

#[test]
fn blank_text_changes_nothing() {
    let w = 20;
    let mut buf: Vec<u8> = (0..(w * 10 * 4)).map(|i| (i % 251) as u8).collect();
    let before = buf.clone();
    render_text(&mut buf, w, "", 0, 0, 1);
    render_text(&mut buf, w, "   ", 0, 0, 1);
    render_text(&mut buf, w, "\u{e9}\u{7f}", 0, 0, 1);
    assert_eq!(buf, before);
}

#[test]
fn rendering_twice_is_the_same_as_once() {
    let w = 30;
    let mut once = vec![3u8; w * 10 * 4];
    render_text(&mut once, w, "Hi 42", 1, 1, 1);
    let mut twice = once.clone();
    render_text(&mut twice, w, "Hi 42", 1, 1, 1);
    assert_eq!(once, twice);
}

#[test]
fn rendering_order_does_not_matter() {
    let w = 30;
    let mut a = vec![0u8; w * 12 * 4];
    let mut b = a.clone();
    render_text(&mut a, w, "AB", 0, 0, 1);
    render_text(&mut a, w, "xy", 3, 4, 1);
    render_text(&mut b, w, "xy", 3, 4, 1);
    render_text(&mut b, w, "AB", 0, 0, 1);
    assert_eq!(a, b);
}

#[test]
fn zero_width_buffer_is_left_alone() {
    let mut buf = vec![1u8; 16];
    render_text(&mut buf, 0, "A", 0, 0, 1);
    assert_eq!(buf, vec![1u8; 16]);
}

#[test]
fn scale_zero_draws_nothing() {
    let mut buf = vec![0u8; 64];
    render_text(&mut buf, 4, "WWW", 0, 0, 0);
    assert_eq!(buf, vec![0u8; 64]);
}
