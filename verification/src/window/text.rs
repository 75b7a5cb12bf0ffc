//! Rasterising text into an RGBA8 buffer with the overlay's bitmap font.
//!
//! The buffer holds rows of `buf_w` pixels, four bytes per pixel. A pixel at
//! column `x` and row `y` is lit by setting its bytes to opaque-ish white
//! (`255, 255, 255, 220`); pixels off the buffer are clipped.
use vstd::arithmetic::div_mod::{lemma_fundamental_div_mod, lemma_fundamental_div_mod_converse};
use vstd::prelude::*;
use vstd::string::StrSliceExecFns;

use crate::window::font::{include_font, spec_glyph, FONT_H, FONT_W, GLYPH_COUNT};

verus! {

/// The value written to byte `c` (0 to 3: red, green, blue, alpha) of a lit pixel.
pub open spec fn lit_byte_value(c: int) -> u8 {
    if c == 3 {
        220
    } else {
        255
    }
}

/// Byte `j` of a buffer of `len` bytes, `w` pixels wide, belongs to a whole
/// pixel that lies in `pixels`.
pub open spec fn byte_is_lit(len: int, w: int, pixels: Set<(int, int)>, j: int) -> bool {
    &&& w > 0
    &&& 0 <= j < 4 * (len / 4)
    &&& pixels.contains((((j / 4) % w), ((j / 4) / w)))
}

/// `buf` with every pixel of `pixels` that lies in it lit, and every other
/// byte as it was.
pub open spec fn painted(buf: Seq<u8>, w: int, pixels: Set<(int, int)>) -> Seq<u8> {
    Seq::new(
        buf.len(),
        |j: int|
            if byte_is_lit(buf.len() as int, w, pixels, j) {
                lit_byte_value(j % 4)
            } else {
                buf[j]
            },
    )
}

/// Painting two sets one after the other paints their union.
pub proof fn lemma_painted_union(buf: Seq<u8>, w: int, a: Set<(int, int)>, b: Set<(int, int)>)
    ensures
        painted(painted(buf, w, a), w, b) == painted(buf, w, a.union(b)),
{
    assert(painted(painted(buf, w, a), w, b) =~= painted(buf, w, a.union(b)));
}

/// Painting no pixel leaves the buffer as it was.
pub proof fn lemma_painted_empty(buf: Seq<u8>, w: int)
    ensures
        painted(buf, w, Set::empty()) == buf,
{
    assert(painted(buf, w, Set::empty()) =~= buf);
}

/// Painting the same pixels again changes nothing.
pub proof fn lemma_painted_idempotent(buf: Seq<u8>, w: int, a: Set<(int, int)>)
    ensures
        painted(painted(buf, w, a), w, a) == painted(buf, w, a),
{
    lemma_painted_union(buf, w, a, a);
    assert(a.union(a) =~= a);
}

/// The order in which two sets of pixels are painted does not matter.
pub proof fn lemma_painted_commutes(buf: Seq<u8>, w: int, a: Set<(int, int)>, b: Set<(int, int)>)
    ensures
        painted(painted(buf, w, a), w, b) == painted(painted(buf, w, b), w, a),
{
    lemma_painted_union(buf, w, a, b);
    lemma_painted_union(buf, w, b, a);
    assert(a.union(b) =~= b.union(a));
}

/// Painting keeps the buffer's length, and every byte it changes belongs to
/// a lit pixel and takes that pixel's colour.
pub proof fn lemma_painted_changes_only_lit_bytes(buf: Seq<u8>, w: int, a: Set<(int, int)>, j: int)
    requires
        0 <= j < buf.len(),
    ensures
        painted(buf, w, a).len() == buf.len(),
        painted(buf, w, a)[j] != buf[j] ==> byte_is_lit(buf.len() as int, w, a, j)
            && painted(buf, w, a)[j] == if j % 4 == 3 {
            220u8
        } else {
            255u8
        },
{
}

/// Lights the pixel at column `fx`, row `fy`, if it lies in the buffer.
fn paint_pixel(buf: &mut Vec<u8>, buf_w: usize, fx: i32, fy: i32)
    ensures
        final(buf)@ == painted(old(buf)@, buf_w as int, set![(fx as int, fy as int)]),
{
    let ghost start = buf@;
    let ghost target = set![(fx as int, fy as int)];
    let ghost len = start.len() as int;
    let ghost w = buf_w as int;
    if fx < 0 || fy < 0 || fx as usize >= buf_w {
        proof {
            assert forall|j: int| 0 <= j < len implies !byte_is_lit(len, w, target, j) by {
                if w > 0 && 0 <= j < 4 * (len / 4) {
                    vstd::arithmetic::div_mod::lemma_mod_bound(j / 4, w);
                    vstd::arithmetic::div_mod::lemma_div_pos_is_pos(j / 4, w);
                }
            }
            assert(painted(start, w, target) =~= start);
        }
        return;
    }
    let npix = buf.len() / 4;
    let row = fy as usize;
    let col = fx as usize;
    let pix: usize = match row.checked_mul(buf_w) {
        Some(r) => match r.checked_add(col) {
            Some(q) => q,
            None => npix,
        },
        None => {
            assert(row * w + col > usize::MAX);
            npix
        },
    };
    proof {
        lemma_fundamental_div_mod_converse(row * w + col, w, row as int, col as int);
        assert(pix < npix ==> pix == row * w + col);
        assert(pix >= npix ==> row * w + col >= npix);
    }
    if pix < npix {
        let off = pix * 4;
        buf[off] = 255;
        buf[off + 1] = 255;
        buf[off + 2] = 255;
        buf[off + 3] = 220;
        proof {
            assert forall|j: int| 0 <= j < len implies #[trigger] buf@[j] == painted(
                start,
                w,
                target,
            )[j] by {
                if off <= j < off + 4 {
                    assert(j / 4 == pix);
                } else if byte_is_lit(len, w, target, j) {
                    lemma_fundamental_div_mod(j / 4, w);
                    assert(w * row == row * w) by (nonlinear_arith);
                    assert(j / 4 == pix);
                }
            }
            assert(buf@ =~= painted(start, w, target));
        }
    } else {
        proof {
            assert forall|j: int| 0 <= j < len implies !byte_is_lit(len, w, target, j) by {
                if byte_is_lit(len, w, target, j) {
                    lemma_fundamental_div_mod(j / 4, w);
                    assert(w * row == row * w) by (nonlinear_arith);
                    assert(j / 4 == row * w + col);
                }
            }
            assert(painted(start, w, target) =~= start);
        }
    }
}

/// The `s` by `s` square of pixels whose top-left pixel is `(x0, y0)`.
pub open spec fn square(x0: int, y0: int, s: int) -> Set<(int, int)> {
    Set::new(|p: (int, int)| x0 <= p.0 < x0 + s && y0 <= p.1 < y0 + s)
}

/// The pixels of the `s`-wide square at `(x0, y0)` painted after `sy` whole
/// rows and `sx` pixels of the next row.
pub open spec fn square_prefix(x0: int, y0: int, s: int, sy: int, sx: int) -> Set<(int, int)> {
    Set::new(
        |p: (int, int)|
            (x0 <= p.0 < x0 + s && y0 <= p.1 < y0 + sy) || (p.1 == y0 + sy && x0 <= p.0 < x0 + sx),
    )
}

/// Lights the `scale` by `scale` square whose top-left pixel is `(x0, y0)`.
fn paint_square(buf: &mut Vec<u8>, buf_w: usize, x0: i32, y0: i32, scale: usize)
    requires
        scale <= i32::MAX,
        x0 + scale <= i32::MAX + 1,
        y0 + scale <= i32::MAX + 1,
    ensures
        final(buf)@ == painted(old(buf)@, buf_w as int, square(x0 as int, y0 as int, scale as int)),
{
    let ghost start = buf@;
    let ghost w = buf_w as int;
    let ghost s = scale as int;
    proof {
        lemma_painted_empty(start, w);
        assert(Set::<(int, int)>::empty() =~= square_prefix(x0 as int, y0 as int, s, 0, 0));
    }
    let mut sy: usize = 0;
    while sy < scale
        invariant
            sy <= scale,
            w == buf_w as int,
            s == scale as int,
            scale <= i32::MAX,
            x0 + scale <= i32::MAX + 1,
            y0 + scale <= i32::MAX + 1,
            buf@ == painted(start, w, square_prefix(x0 as int, y0 as int, s, sy as int, 0)),
        decreases scale - sy,
    {
        let mut sx: usize = 0;
        while sx < scale
            invariant
                sx <= scale,
                sy < scale,
                w == buf_w as int,
                s == scale as int,
                scale <= i32::MAX,
                x0 + scale <= i32::MAX + 1,
                y0 + scale <= i32::MAX + 1,
                buf@ == painted(start, w, square_prefix(x0 as int, y0 as int, s, sy as int, sx as int)),
            decreases scale - sx,
        {
            let fx = x0 + sx as i32;
            let fy = y0 + sy as i32;
            paint_pixel(buf, buf_w, fx, fy);
            proof {
                let before = square_prefix(x0 as int, y0 as int, s, sy as int, sx as int);
                lemma_painted_union(start, w, before, set![(fx as int, fy as int)]);
                assert(before.union(set![(fx as int, fy as int)]) =~= square_prefix(
                    x0 as int,
                    y0 as int,
                    s,
                    sy as int,
                    sx + 1,
                ));
            }
            sx = sx + 1;
        }
        proof {
            assert(square_prefix(x0 as int, y0 as int, s, sy as int, s) =~= square_prefix(
                x0 as int,
                y0 as int,
                s,
                sy + 1,
                0,
            ));
        }
        sy = sy + 1;
    }
    assert(square_prefix(x0 as int, y0 as int, s, s, 0) =~= square(x0 as int, y0 as int, s));
}

/// Column `col` (counted from the left) of a glyph row is drawn: bit
/// `FONT_W - 1 - col` of the row is set.
pub open spec fn pixel_on(row_bits: u8, col: int) -> bool {
    (row_bits >> ((FONT_W - 1 - col) as u8)) & 1u8 == 1u8
}

/// Cell `(row, col)` of the glyph with rows `rows` is drawn.
pub open spec fn glyph_cell_drawn(rows: Seq<u8>, row: int, col: int) -> bool {
    0 <= row < FONT_H && 0 <= col < FONT_W && pixel_on(rows[row], col)
}

/// The pixels of the glyph with rows `rows` drawn with its top-left corner at
/// `(cx, cy)`, each font cell a `s` by `s` square.
pub open spec fn glyph_pixels(rows: Seq<u8>, cx: int, cy: int, s: int) -> Set<(int, int)> {
    Set::new(
        |p: (int, int)|
            exists|row: int, col: int|
                #[trigger] glyph_cell_drawn(rows, row, col) && square(cx + col * s, cy + row * s, s).contains(p),
    )
}

/// The pixels of the cells of a glyph that come before cell `(r, c)` in
/// row-major order.
pub open spec fn glyph_prefix(rows: Seq<u8>, cx: int, cy: int, s: int, r: int, c: int) -> Set<
    (int, int),
> {
    Set::new(
        |p: (int, int)|
            exists|row: int, col: int|
                #[trigger] glyph_cell_drawn(rows, row, col) && (row < r || (row == r && col < c))
                    && square(cx + col * s, cy + row * s, s).contains(p),
    )
}

/// Lights the glyph with rows `glyph` with its top-left corner at `(cx, cy)`.
fn paint_glyph(buf: &mut Vec<u8>, buf_w: usize, glyph: &[u8; FONT_H], cx: i32, cy: i32, scale: usize)
    requires
        7 * scale <= i32::MAX + 1,
        cx + 5 * scale <= i32::MAX + 1,
        cy + 7 * scale <= i32::MAX + 1,
    ensures
        final(buf)@ == painted(
            old(buf)@,
            buf_w as int,
            glyph_pixels(glyph@, cx as int, cy as int, scale as int),
        ),
{
    let ghost start = buf@;
    let ghost w = buf_w as int;
    let ghost s = scale as int;
    let ghost rows = glyph@;
    proof {
        lemma_painted_empty(start, w);
        assert(Set::<(int, int)>::empty() =~= glyph_prefix(rows, cx as int, cy as int, s, 0, 0));
    }
    let mut row: usize = 0;
    while row < FONT_H
        invariant
            row <= FONT_H,
            w == buf_w as int,
            s == scale as int,
            rows == glyph@,
            7 * scale <= i32::MAX + 1,
            cx + 5 * scale <= i32::MAX + 1,
            cy + 7 * scale <= i32::MAX + 1,
            buf@ == painted(start, w, glyph_prefix(rows, cx as int, cy as int, s, row as int, 0)),
        decreases FONT_H - row,
    {
        let mut col: usize = 0;
        while col < FONT_W
            invariant
                col <= FONT_W,
                row < FONT_H,
                w == buf_w as int,
                s == scale as int,
                rows == glyph@,
                7 * scale <= i32::MAX + 1,
                cx + 5 * scale <= i32::MAX + 1,
                cy + 7 * scale <= i32::MAX + 1,
                buf@ == painted(
                    start,
                    w,
                    glyph_prefix(rows, cx as int, cy as int, s, row as int, col as int),
                ),
            decreases FONT_W - col,
        {
            let ghost before = glyph_prefix(rows, cx as int, cy as int, s, row as int, col as int);
            let ghost after = glyph_prefix(rows, cx as int, cy as int, s, row as int, col + 1);
            let bit = (glyph[row] >> ((FONT_W - 1 - col) as u8)) & 1;
            assert(bit == 1 <==> glyph_cell_drawn(rows, row as int, col as int));
            if bit == 1 {
                assert(col * scale <= 4 * scale) by (nonlinear_arith)
                    requires
                        col < 5,
                ;
                assert(row * scale <= 6 * scale) by (nonlinear_arith)
                    requires
                        row < 7,
                ;
                let x0 = cx + (col * scale) as i32;
                let y0 = cy + (row * scale) as i32;
                paint_square(buf, buf_w, x0, y0, scale);
                proof {
                    let sq = square(x0 as int, y0 as int, s);
                    lemma_painted_union(start, w, before, sq);
                    assert forall|p: (int, int)| after.contains(p) <==> #[trigger] before.union(
                        sq,
                    ).contains(p) by {
                        if sq.contains(p) {
                            assert(glyph_cell_drawn(rows, row as int, col as int));
                        }
                    }
                    assert(after =~= before.union(sq));
                }
            } else {
                assert(after =~= before);
            }
            col = col + 1;
        }
        proof {
            assert(glyph_prefix(rows, cx as int, cy as int, s, row as int, FONT_W as int)
                =~= glyph_prefix(rows, cx as int, cy as int, s, row + 1, 0));
        }
        row = row + 1;
    }
    assert(glyph_prefix(rows, cx as int, cy as int, s, FONT_H as int, 0) =~= glyph_pixels(
        rows,
        cx as int,
        cy as int,
        s,
    ));
}

/// The horizontal distance between the left edges of two successive
/// characters: a glyph's width and one pixel of spacing, scaled.
pub open spec fn char_advance(s: int) -> int {
    (FONT_W + 1) * s
}

/// The font glyph that draws `c`: the character code minus 32, where codes
/// below 32 share the glyph of `' '`.
pub open spec fn glyph_index(c: char) -> int {
    if (c as int) < 32 {
        0
    } else {
        c as int - 32
    }
}

/// The pixels that the first `n` characters of `text` light, character `k`
/// drawn with its top-left corner at `(px + k * char_advance(s), py)`;
/// characters without a glyph light nothing but still take their place.
pub open spec fn text_prefix_pixels(text: Seq<char>, px: int, py: int, s: int, n: int) -> Set<
    (int, int),
> {
    Set::new(
        |p: (int, int)|
            exists|k: int|
                0 <= k < n && k < text.len() && glyph_index(#[trigger] text[k]) < GLYPH_COUNT
                    && glyph_pixels(spec_glyph(glyph_index(text[k])), px + k * char_advance(s), py, s).contains(p),
    )
}

/// The pixels that `text` lights, drawn from `(px, py)` at `scale`.
pub open spec fn text_pixels(text: Seq<char>, px: int, py: int, s: int) -> Set<(int, int)> {
    text_prefix_pixels(text, px, py, s, text.len() as int)
}

/// Text without characters, or with only characters that have a blank glyph
/// (such as spaces), lights no pixel.
pub proof fn lemma_blank_text_lights_nothing(text: Seq<char>, px: int, py: int, s: int)
    requires
        forall|k: int| 0 <= k < text.len() ==> spec_glyph(glyph_index(#[trigger] text[k])) == seq![0u8, 0, 0, 0, 0, 0, 0],
    ensures
        text_pixels(text, px, py, s) == Set::<(int, int)>::empty(),
{
    assert forall|p: (int, int)| !text_pixels(text, px, py, s).contains(p) by {
        if text_pixels(text, px, py, s).contains(p) {
            let k = choose|k: int|
                0 <= k < text.len() && k < text.len() && glyph_index(#[trigger] text[k]) < GLYPH_COUNT
                    && glyph_pixels(spec_glyph(glyph_index(text[k])), px + k * char_advance(s), py, s).contains(p);
            let rows = spec_glyph(glyph_index(text[k]));
            let cx = px + k * char_advance(s);
            let (row, col) = choose|row: int, col: int|
                #[trigger] glyph_cell_drawn(rows, row, col) && square(cx + col * s, py + row * s, s).contains(p);
            assert(rows[row] == 0u8);
            let sh = (FONT_W - 1 - col) as u8;
            assert((0u8 >> sh) & 1u8 == 0u8) by (bit_vector);
        }
    }
    assert(text_pixels(text, px, py, s) =~= Set::<(int, int)>::empty());
}

/// Every printable ASCII character (codes 32 to 126) is drawn with its own
/// glyph, the font's glyph number `code - 32`: the text lights, for each of
/// its characters, the pixels of that glyph at the character's place.
pub proof fn lemma_printable_text_uses_its_glyphs(text: Seq<char>, px: int, py: int, s: int)
    requires
        forall|k: int| 0 <= k < text.len() ==> 32 <= (#[trigger] text[k]) as int <= 126,
    ensures
        text_pixels(text, px, py, s) == Set::new(
            |p: (int, int)|
                exists|k: int|
                    0 <= k < text.len() && #[trigger] glyph_pixels(
                        spec_glyph(text[k] as int - 32),
                        px + k * (6 * s),
                        py,
                        s,
                    ).contains(p),
        ),
{
    let rhs = Set::new(
        |p: (int, int)|
            exists|k: int|
                0 <= k < text.len() && #[trigger] glyph_pixels(
                    spec_glyph(text[k] as int - 32),
                    px + k * (6 * s),
                    py,
                    s,
                ).contains(p),
    );
    assert(char_advance(s) == 6 * s);
    assert forall|p: (int, int)| text_pixels(text, px, py, s).contains(p) <==> rhs.contains(p) by {
        if text_pixels(text, px, py, s).contains(p) {
            let k = choose|k: int|
                0 <= k < text.len() && k < text.len() && glyph_index(#[trigger] text[k]) < GLYPH_COUNT
                    && glyph_pixels(spec_glyph(glyph_index(text[k])), px + k * char_advance(s), py, s).contains(p);
            assert(glyph_index(text[k]) == text[k] as int - 32);
            assert(k * char_advance(s) == k * (6 * s));
            assert(glyph_pixels(spec_glyph(text[k] as int - 32), px + k * (6 * s), py, s).contains(p));
        }
        if rhs.contains(p) {
            let k = choose|k: int|
                0 <= k < text.len() && #[trigger] glyph_pixels(
                    spec_glyph(text[k] as int - 32),
                    px + k * (6 * s),
                    py,
                    s,
                ).contains(p);
            assert(32 <= text[k] as int <= 126);
            assert(glyph_index(text[k]) == text[k] as int - 32);
            assert(k * char_advance(s) == k * (6 * s));
        }
    }
    assert(text_pixels(text, px, py, s) =~= rhs);
}

/// Each set bit of a printable character's glyph lights a pixel: with bit
/// `4 - col` of glyph row `row` set, the character drawn alone at `(px, py)`
/// lights the pixel `(px + col * s, py + row * s)`, the top-left pixel of
/// that font cell.
pub proof fn lemma_glyph_bit_lights_pixel(c: char, px: int, py: int, s: int, row: int, col: int)
    requires
        32 <= c as int <= 126,
        s >= 1,
        0 <= row < 7,
        0 <= col < 5,
        (spec_glyph(c as int - 32)[row] >> ((4 - col) as u8)) & 1u8 == 1u8,
    ensures
        text_pixels(seq![c], px, py, s).contains((px + col * s, py + row * s)),
{
    let t = seq![c];
    let rows = spec_glyph(c as int - 32);
    assert(t[0] == c);
    assert(glyph_index(t[0]) == c as int - 32);
    assert(glyph_cell_drawn(rows, row, col));
    assert(square(px + col * s, py + row * s, s).contains((px + col * s, py + row * s)));
    assert(glyph_pixels(rows, px, py, s).contains((px + col * s, py + row * s)));
    assert(0 * char_advance(s) == 0);
    assert(glyph_pixels(spec_glyph(glyph_index(t[0])), px + 0 * char_advance(s), py, s).contains(
        (px + col * s, py + row * s),
    ));
}

/// The arithmetic of drawing `text` stays within `i32`: the pen position
/// after the last character, the glyph rows, and the scaled glyph height.
pub open spec fn text_fits(text: Seq<char>, px: int, py: int, scale: int) -> bool {
    text.len() > 0 ==> {
        &&& 7 * scale <= i32::MAX + 1
        &&& px + text.len() * char_advance(scale) <= i32::MAX
        &&& py + 7 * scale <= i32::MAX + 1
    }
}

/// Renders `text` into the RGBA buffer `buf`, `buf_w` pixels wide, with the
/// top-left corner of its first character at `(px, py)` and each font pixel
/// drawn as a `scale` by `scale` square. Lit pixels become white with alpha
/// 220; pixels left of or above the buffer, right of its width, or past its
/// end are clipped; every other byte is left as it was.
pub fn render_text(buf: &mut Vec<u8>, buf_w: usize, text: &str, px: i32, py: i32, scale: usize)
    requires
        text_fits(text@, px as int, py as int, scale as int),
    ensures
        final(buf)@ == painted(
            old(buf)@,
            buf_w as int,
            text_pixels(text@, px as int, py as int, scale as int),
        ),
{
    let font = include_font();
    let ghost start = buf@;
    let ghost w = buf_w as int;
    let ghost s = scale as int;
    let ghost t = text@;
    let n = text.unicode_len();
    proof {
        lemma_painted_empty(start, w);
        assert(Set::<(int, int)>::empty() =~= text_prefix_pixels(t, px as int, py as int, s, 0));
    }
    let mut cx: i32 = px;
    let mut k: usize = 0;
    while k < n
        invariant
            k <= n,
            n == t.len(),
            t == text@,
            w == buf_w as int,
            s == scale as int,
            text_fits(t, px as int, py as int, s),
            cx == px + k * char_advance(s),
            forall|i: int| 0 <= i < GLYPH_COUNT ==> (#[trigger] font@[i])@ == spec_glyph(i),
            buf@ == painted(start, w, text_prefix_pixels(t, px as int, py as int, s, k as int)),
        decreases n - k,
    {
        let ghost before = text_prefix_pixels(t, px as int, py as int, s, k as int);
        let ghost after = text_prefix_pixels(t, px as int, py as int, s, k + 1);
        proof {
            assert(k * char_advance(s) + char_advance(s) <= n * char_advance(s)) by (nonlinear_arith)
                requires
                    k < n,
                    s >= 0,
            ;
            assert((k + 1) * char_advance(s) == k * char_advance(s) + char_advance(s)) by (nonlinear_arith);
        }
        let ch = text.get_char(k);
        let code = ch as u32;
        let idx: usize = if code < 32 {
            0
        } else {
            (code - 32) as usize
        };
        assert(idx == glyph_index(t[k as int]));
        if idx < GLYPH_COUNT {
            let glyph = &font[idx];
            paint_glyph(buf, buf_w, glyph, cx, py, scale);
            proof {
                let gp = glyph_pixels(spec_glyph(idx as int), cx as int, py as int, s);
                lemma_painted_union(start, w, before, gp);
                assert forall|p: (int, int)| after.contains(p) <==> #[trigger] before.union(gp).contains(p) by {
                    if gp.contains(p) {
                        assert(glyph_index(t[k as int]) < GLYPH_COUNT);
                    }
                }
                assert(after =~= before.union(gp));
            }
        } else {
            assert(after =~= before);
        }
        cx = cx + 6 * (scale as i32);
        k = k + 1;
    }
}

} // verus!
