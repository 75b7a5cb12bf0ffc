//! The 5x7 bitmap font of the on-screen overlay.
use vstd::prelude::*;

verus! {

/// Glyph width in pixels.
pub const FONT_W: usize = 5;

/// Glyph height in pixels.
pub const FONT_H: usize = 7;

/// Number of glyphs: one for each printable ASCII character, `' '` to `'~'`.
pub const GLYPH_COUNT: usize = 95;

/// The rows of the glyph at index `idx` (the character `idx + 32`), top row
/// first; bit 4 of a row is its leftmost column. Characters the font does not
/// draw are blank.
pub open spec fn spec_glyph(idx: int) -> Seq<u8> {
    if idx == 14 {
        // '.'
        seq![0b00000, 0b00000, 0b00000, 0b00000, 0b00000, 0b00100, 0b00100]
    } else if idx == 15 {
        // '/'
        seq![0b00001, 0b00010, 0b00100, 0b00100, 0b01000, 0b10000, 0b10000]
    } else if idx == 16 {
        // '0'
        seq![0b01110, 0b10001, 0b10011, 0b10101, 0b11001, 0b10001, 0b01110]
    } else if idx == 17 {
        // '1'
        seq![0b00100, 0b01100, 0b00100, 0b00100, 0b00100, 0b00100, 0b01110]
    } else if idx == 18 {
        // '2'
        seq![0b01110, 0b10001, 0b00001, 0b00110, 0b01000, 0b10000, 0b11111]
    } else if idx == 19 {
        // '3'
        seq![0b11111, 0b00010, 0b00100, 0b00110, 0b00001, 0b10001, 0b01110]
    } else if idx == 20 {
        // '4'
        seq![0b00010, 0b00110, 0b01010, 0b10010, 0b11111, 0b00010, 0b00010]
    } else if idx == 21 {
        // '5'
        seq![0b11111, 0b10000, 0b11110, 0b00001, 0b00001, 0b10001, 0b01110]
    } else if idx == 22 {
        // '6'
        seq![0b00110, 0b01000, 0b10000, 0b11110, 0b10001, 0b10001, 0b01110]
    } else if idx == 23 {
        // '7'
        seq![0b11111, 0b00001, 0b00010, 0b00100, 0b01000, 0b01000, 0b01000]
    } else if idx == 24 {
        // '8'
        seq![0b01110, 0b10001, 0b10001, 0b01110, 0b10001, 0b10001, 0b01110]
    } else if idx == 25 {
        // '9'
        seq![0b01110, 0b10001, 0b10001, 0b01111, 0b00001, 0b00010, 0b01100]
    } else if idx == 26 {
        // ':'
        seq![0b00000, 0b00100, 0b00100, 0b00000, 0b00100, 0b00100, 0b00000]
    } else if idx == 33 {
        // 'A'
        seq![0b01110, 0b10001, 0b10001, 0b11111, 0b10001, 0b10001, 0b10001]
    } else if idx == 34 {
        // 'B'
        seq![0b11110, 0b10001, 0b10001, 0b11110, 0b10001, 0b10001, 0b11110]
    } else if idx == 35 {
        // 'C'
        seq![0b01110, 0b10001, 0b10000, 0b10000, 0b10000, 0b10001, 0b01110]
    } else if idx == 36 {
        // 'D'
        seq![0b11100, 0b10010, 0b10001, 0b10001, 0b10001, 0b10010, 0b11100]
    } else if idx == 37 {
        // 'E'
        seq![0b11111, 0b10000, 0b10000, 0b11110, 0b10000, 0b10000, 0b11111]
    } else if idx == 38 {
        // 'F'
        seq![0b11111, 0b10000, 0b10000, 0b11110, 0b10000, 0b10000, 0b10000]
    } else if idx == 39 {
        // 'G'
        seq![0b01110, 0b10001, 0b10000, 0b10111, 0b10001, 0b10001, 0b01111]
    } else if idx == 40 {
        // 'H'
        seq![0b10001, 0b10001, 0b10001, 0b11111, 0b10001, 0b10001, 0b10001]
    } else if idx == 41 {
        // 'I'
        seq![0b01110, 0b00100, 0b00100, 0b00100, 0b00100, 0b00100, 0b01110]
    } else if idx == 42 {
        // 'J'
        seq![0b00111, 0b00010, 0b00010, 0b00010, 0b10010, 0b10010, 0b01100]
    } else if idx == 43 {
        // 'K'
        seq![0b10001, 0b10010, 0b10100, 0b11000, 0b10100, 0b10010, 0b10001]
    } else if idx == 44 {
        // 'L'
        seq![0b10000, 0b10000, 0b10000, 0b10000, 0b10000, 0b10000, 0b11111]
    } else if idx == 45 {
        // 'M'
        seq![0b10001, 0b11011, 0b10101, 0b10001, 0b10001, 0b10001, 0b10001]
    } else if idx == 46 {
        // 'N'
        seq![0b10001, 0b11001, 0b10101, 0b10011, 0b10001, 0b10001, 0b10001]
    } else if idx == 47 {
        // 'O'
        seq![0b01110, 0b10001, 0b10001, 0b10001, 0b10001, 0b10001, 0b01110]
    } else if idx == 48 {
        // 'P'
        seq![0b11110, 0b10001, 0b10001, 0b11110, 0b10000, 0b10000, 0b10000]
    } else if idx == 49 {
        // 'Q'
        seq![0b01110, 0b10001, 0b10001, 0b10001, 0b10101, 0b10010, 0b01101]
    } else if idx == 50 {
        // 'R'
        seq![0b11110, 0b10001, 0b10001, 0b11110, 0b10100, 0b10010, 0b10001]
    } else if idx == 51 {
        // 'S'
        seq![0b01111, 0b10000, 0b10000, 0b01110, 0b00001, 0b00001, 0b11110]
    } else if idx == 52 {
        // 'T'
        seq![0b11111, 0b00100, 0b00100, 0b00100, 0b00100, 0b00100, 0b00100]
    } else if idx == 53 {
        // 'U'
        seq![0b10001, 0b10001, 0b10001, 0b10001, 0b10001, 0b10001, 0b01110]
    } else if idx == 54 {
        // 'V'
        seq![0b10001, 0b10001, 0b10001, 0b10001, 0b10001, 0b01010, 0b00100]
    } else if idx == 55 {
        // 'W'
        seq![0b10001, 0b10001, 0b10001, 0b10101, 0b10101, 0b11011, 0b10001]
    } else if idx == 56 {
        // 'X'
        seq![0b10001, 0b10001, 0b01010, 0b00100, 0b01010, 0b10001, 0b10001]
    } else if idx == 57 {
        // 'Y'
        seq![0b10001, 0b10001, 0b01010, 0b00100, 0b00100, 0b00100, 0b00100]
    } else if idx == 58 {
        // 'Z'
        seq![0b11111, 0b00001, 0b00010, 0b00100, 0b01000, 0b10000, 0b11111]
    } else if idx == 65 {
        // 'a'
        seq![0b00000, 0b00000, 0b01110, 0b00001, 0b01111, 0b10001, 0b01111]
    } else if idx == 66 {
        // 'b'
        seq![0b10000, 0b10000, 0b11110, 0b10001, 0b10001, 0b10001, 0b11110]
    } else if idx == 67 {
        // 'c'
        seq![0b00000, 0b00000, 0b01110, 0b10000, 0b10000, 0b10001, 0b01110]
    } else if idx == 68 {
        // 'd'
        seq![0b00001, 0b00001, 0b01111, 0b10001, 0b10001, 0b10001, 0b01111]
    } else if idx == 69 {
        // 'e'
        seq![0b00000, 0b00000, 0b01110, 0b10001, 0b11111, 0b10000, 0b01110]
    } else if idx == 70 {
        // 'f'
        seq![0b00110, 0b01001, 0b01000, 0b11100, 0b01000, 0b01000, 0b01000]
    } else if idx == 71 {
        // 'g'
        seq![0b00000, 0b01111, 0b10001, 0b10001, 0b01111, 0b00001, 0b01110]
    } else if idx == 72 {
        // 'h'
        seq![0b10000, 0b10000, 0b11110, 0b10001, 0b10001, 0b10001, 0b10001]
    } else if idx == 73 {
        // 'i'
        seq![0b00100, 0b00000, 0b01100, 0b00100, 0b00100, 0b00100, 0b01110]
    } else if idx == 74 {
        // 'j'
        seq![0b00010, 0b00000, 0b00110, 0b00010, 0b00010, 0b10010, 0b01100]
    } else if idx == 75 {
        // 'k'
        seq![0b10000, 0b10000, 0b10010, 0b10100, 0b11000, 0b10100, 0b10010]
    } else if idx == 76 {
        // 'l'
        seq![0b01100, 0b00100, 0b00100, 0b00100, 0b00100, 0b00100, 0b01110]
    } else if idx == 77 {
        // 'm'
        seq![0b00000, 0b00000, 0b11010, 0b10101, 0b10101, 0b10001, 0b10001]
    } else if idx == 78 {
        // 'n'
        seq![0b00000, 0b00000, 0b11110, 0b10001, 0b10001, 0b10001, 0b10001]
    } else if idx == 79 {
        // 'o'
        seq![0b00000, 0b00000, 0b01110, 0b10001, 0b10001, 0b10001, 0b01110]
    } else if idx == 80 {
        // 'p'
        seq![0b00000, 0b11110, 0b10001, 0b10001, 0b11110, 0b10000, 0b10000]
    } else if idx == 81 {
        // 'q'
        seq![0b00000, 0b01111, 0b10001, 0b10001, 0b01111, 0b00001, 0b00001]
    } else if idx == 82 {
        // 'r'
        seq![0b00000, 0b00000, 0b10110, 0b11001, 0b10000, 0b10000, 0b10000]
    } else if idx == 83 {
        // 's'
        seq![0b00000, 0b00000, 0b01110, 0b10000, 0b01110, 0b00001, 0b11110]
    } else if idx == 84 {
        // 't'
        seq![0b01000, 0b01000, 0b11100, 0b01000, 0b01000, 0b01001, 0b00110]
    } else if idx == 85 {
        // 'u'
        seq![0b00000, 0b00000, 0b10001, 0b10001, 0b10001, 0b10011, 0b01101]
    } else if idx == 86 {
        // 'v'
        seq![0b00000, 0b00000, 0b10001, 0b10001, 0b10001, 0b01010, 0b00100]
    } else if idx == 87 {
        // 'w'
        seq![0b00000, 0b00000, 0b10001, 0b10101, 0b10101, 0b10101, 0b01010]
    } else if idx == 88 {
        // 'x'
        seq![0b00000, 0b00000, 0b10001, 0b01010, 0b00100, 0b01010, 0b10001]
    } else if idx == 89 {
        // 'y'
        seq![0b00000, 0b10001, 0b10001, 0b01111, 0b00001, 0b10001, 0b01110]
    } else if idx == 90 {
        // 'z'
        seq![0b00000, 0b00000, 0b11111, 0b00010, 0b00100, 0b01000, 0b11111]
    } else {
        seq![0, 0, 0, 0, 0, 0, 0]
    }
}

/// Builds the font table: glyph `i` is the bitmap of the character `i + 32`.
pub fn include_font() -> (f: [[u8; FONT_H]; GLYPH_COUNT])
    ensures
        forall|i: int| 0 <= i < GLYPH_COUNT ==> (#[trigger] f@[i])@ == spec_glyph(i),
        forall|i: int, r: int| 0 <= i < GLYPH_COUNT && 0 <= r < FONT_H ==> (#[trigger] f@[i]@[r]) < 32,
{
    let mut f = [[0u8; FONT_H]; GLYPH_COUNT];

    // '0'
    f[16] = [0b01110, 0b10001, 0b10011, 0b10101, 0b11001, 0b10001, 0b01110];
    // '1'
    f[17] = [0b00100, 0b01100, 0b00100, 0b00100, 0b00100, 0b00100, 0b01110];
    // '2'
    f[18] = [0b01110, 0b10001, 0b00001, 0b00110, 0b01000, 0b10000, 0b11111];
    // '3'
    f[19] = [0b11111, 0b00010, 0b00100, 0b00110, 0b00001, 0b10001, 0b01110];
    // '4'
    f[20] = [0b00010, 0b00110, 0b01010, 0b10010, 0b11111, 0b00010, 0b00010];
    // '5'
    f[21] = [0b11111, 0b10000, 0b11110, 0b00001, 0b00001, 0b10001, 0b01110];
    // '6'
    f[22] = [0b00110, 0b01000, 0b10000, 0b11110, 0b10001, 0b10001, 0b01110];
    // '7'
    f[23] = [0b11111, 0b00001, 0b00010, 0b00100, 0b01000, 0b01000, 0b01000];
    // '8'
    f[24] = [0b01110, 0b10001, 0b10001, 0b01110, 0b10001, 0b10001, 0b01110];
    // '9'
    f[25] = [0b01110, 0b10001, 0b10001, 0b01111, 0b00001, 0b00010, 0b01100];
    // ':'
    f[26] = [0b00000, 0b00100, 0b00100, 0b00000, 0b00100, 0b00100, 0b00000];
    // '.'
    f[14] = [0b00000, 0b00000, 0b00000, 0b00000, 0b00000, 0b00100, 0b00100];
    // 'A'
    f[33] = [0b01110, 0b10001, 0b10001, 0b11111, 0b10001, 0b10001, 0b10001];
    // 'B'
    f[34] = [0b11110, 0b10001, 0b10001, 0b11110, 0b10001, 0b10001, 0b11110];
    // 'C'
    f[35] = [0b01110, 0b10001, 0b10000, 0b10000, 0b10000, 0b10001, 0b01110];
    // 'D'
    f[36] = [0b11100, 0b10010, 0b10001, 0b10001, 0b10001, 0b10010, 0b11100];
    // 'E'
    f[37] = [0b11111, 0b10000, 0b10000, 0b11110, 0b10000, 0b10000, 0b11111];
    // 'F'
    f[38] = [0b11111, 0b10000, 0b10000, 0b11110, 0b10000, 0b10000, 0b10000];
    // 'G'
    f[39] = [0b01110, 0b10001, 0b10000, 0b10111, 0b10001, 0b10001, 0b01111];
    // 'H'
    f[40] = [0b10001, 0b10001, 0b10001, 0b11111, 0b10001, 0b10001, 0b10001];
    // 'I'
    f[41] = [0b01110, 0b00100, 0b00100, 0b00100, 0b00100, 0b00100, 0b01110];
    // 'J'
    f[42] = [0b00111, 0b00010, 0b00010, 0b00010, 0b10010, 0b10010, 0b01100];
    // 'K'
    f[43] = [0b10001, 0b10010, 0b10100, 0b11000, 0b10100, 0b10010, 0b10001];
    // 'L'
    f[44] = [0b10000, 0b10000, 0b10000, 0b10000, 0b10000, 0b10000, 0b11111];
    // 'M'
    f[45] = [0b10001, 0b11011, 0b10101, 0b10001, 0b10001, 0b10001, 0b10001];
    // 'N'
    f[46] = [0b10001, 0b11001, 0b10101, 0b10011, 0b10001, 0b10001, 0b10001];
    // 'O'
    f[47] = [0b01110, 0b10001, 0b10001, 0b10001, 0b10001, 0b10001, 0b01110];
    // 'P'
    f[48] = [0b11110, 0b10001, 0b10001, 0b11110, 0b10000, 0b10000, 0b10000];
    // 'Q'
    f[49] = [0b01110, 0b10001, 0b10001, 0b10001, 0b10101, 0b10010, 0b01101];
    // 'R'
    f[50] = [0b11110, 0b10001, 0b10001, 0b11110, 0b10100, 0b10010, 0b10001];
    // 'S'
    f[51] = [0b01111, 0b10000, 0b10000, 0b01110, 0b00001, 0b00001, 0b11110];
    // 'T'
    f[52] = [0b11111, 0b00100, 0b00100, 0b00100, 0b00100, 0b00100, 0b00100];
    // 'U'
    f[53] = [0b10001, 0b10001, 0b10001, 0b10001, 0b10001, 0b10001, 0b01110];
    // 'V'
    f[54] = [0b10001, 0b10001, 0b10001, 0b10001, 0b10001, 0b01010, 0b00100];
    // 'W'
    f[55] = [0b10001, 0b10001, 0b10001, 0b10101, 0b10101, 0b11011, 0b10001];
    // 'X'
    f[56] = [0b10001, 0b10001, 0b01010, 0b00100, 0b01010, 0b10001, 0b10001];
    // 'Y'
    f[57] = [0b10001, 0b10001, 0b01010, 0b00100, 0b00100, 0b00100, 0b00100];
    // 'Z'
    f[58] = [0b11111, 0b00001, 0b00010, 0b00100, 0b01000, 0b10000, 0b11111];
    // 'a'
    f[65] = [0b00000, 0b00000, 0b01110, 0b00001, 0b01111, 0b10001, 0b01111];
    // 'b'
    f[66] = [0b10000, 0b10000, 0b11110, 0b10001, 0b10001, 0b10001, 0b11110];
    // 'c'
    f[67] = [0b00000, 0b00000, 0b01110, 0b10000, 0b10000, 0b10001, 0b01110];
    // 'd'
    f[68] = [0b00001, 0b00001, 0b01111, 0b10001, 0b10001, 0b10001, 0b01111];
    // 'e'
    f[69] = [0b00000, 0b00000, 0b01110, 0b10001, 0b11111, 0b10000, 0b01110];
    // 'f'
    f[70] = [0b00110, 0b01001, 0b01000, 0b11100, 0b01000, 0b01000, 0b01000];
    // 'g'
    f[71] = [0b00000, 0b01111, 0b10001, 0b10001, 0b01111, 0b00001, 0b01110];
    // 'h'
    f[72] = [0b10000, 0b10000, 0b11110, 0b10001, 0b10001, 0b10001, 0b10001];
    // 'i'
    f[73] = [0b00100, 0b00000, 0b01100, 0b00100, 0b00100, 0b00100, 0b01110];
    // 'j'
    f[74] = [0b00010, 0b00000, 0b00110, 0b00010, 0b00010, 0b10010, 0b01100];
    // 'k'
    f[75] = [0b10000, 0b10000, 0b10010, 0b10100, 0b11000, 0b10100, 0b10010];
    // 'l'
    f[76] = [0b01100, 0b00100, 0b00100, 0b00100, 0b00100, 0b00100, 0b01110];
    // 'm'
    f[77] = [0b00000, 0b00000, 0b11010, 0b10101, 0b10101, 0b10001, 0b10001];
    // 'n'
    f[78] = [0b00000, 0b00000, 0b11110, 0b10001, 0b10001, 0b10001, 0b10001];
    // 'o'
    f[79] = [0b00000, 0b00000, 0b01110, 0b10001, 0b10001, 0b10001, 0b01110];
    // 'p'
    f[80] = [0b00000, 0b11110, 0b10001, 0b10001, 0b11110, 0b10000, 0b10000];
    // 'q'
    f[81] = [0b00000, 0b01111, 0b10001, 0b10001, 0b01111, 0b00001, 0b00001];
    // 'r'
    f[82] = [0b00000, 0b00000, 0b10110, 0b11001, 0b10000, 0b10000, 0b10000];
    // 's'
    f[83] = [0b00000, 0b00000, 0b01110, 0b10000, 0b01110, 0b00001, 0b11110];
    // 't'
    f[84] = [0b01000, 0b01000, 0b11100, 0b01000, 0b01000, 0b01001, 0b00110];
    // 'u'
    f[85] = [0b00000, 0b00000, 0b10001, 0b10001, 0b10001, 0b10011, 0b01101];
    // 'v'
    f[86] = [0b00000, 0b00000, 0b10001, 0b10001, 0b10001, 0b01010, 0b00100];
    // 'w'
    f[87] = [0b00000, 0b00000, 0b10001, 0b10101, 0b10101, 0b10101, 0b01010];
    // 'x'
    f[88] = [0b00000, 0b00000, 0b10001, 0b01010, 0b00100, 0b01010, 0b10001];
    // 'y'
    f[89] = [0b00000, 0b10001, 0b10001, 0b01111, 0b00001, 0b10001, 0b01110];
    // 'z'
    f[90] = [0b00000, 0b00000, 0b11111, 0b00010, 0b00100, 0b01000, 0b11111];
    // '/'
    f[15] = [0b00001, 0b00010, 0b00100, 0b00100, 0b01000, 0b10000, 0b10000];
    assert forall|i: int| 0 <= i < GLYPH_COUNT implies (#[trigger] f@[i])@ == spec_glyph(i) by {
        assert(f@[i]@ =~= spec_glyph(i));
    }
    f
}

} // verus!
