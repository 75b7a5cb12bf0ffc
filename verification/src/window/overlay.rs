//! The on-screen overlay: its text and its layout in the window.
//!
//! Info lines are right-aligned at the top right of the window, one below
//! the other; a hint line about the controls is right-aligned at the bottom
//! right. All text is drawn at twice the font's size.
use vstd::prelude::*;
use vstd::string::{StringExecFns, StringSliceAdditionalSpecFns};
use vstd::utf8::encode_utf8;

use crate::frameconv::filetypes::VideoVariant;
use crate::window::text::{char_advance, painted, render_text, text_fits, text_pixels};

verus! {

/// Font pixels per overlay pixel.
pub const OVERLAY_SCALE: usize = 2;

/// Distance between the tops of two overlay lines, in pixels.
pub const LINE_HEIGHT: i32 = 18;

/// Distance of the overlay text from the window's edges, in pixels.
pub const MARGIN: i32 = 8;

/// The name of each variant as the overlay shows it.
pub open spec fn spec_variant_label(v: VideoVariant) -> Seq<char> {
    match v {
        VideoVariant::HAP => "HAP"@,
        VideoVariant::HAPALPHA => "HAP Alpha"@,
        VideoVariant::HAPQ => "HAP Q"@,
        VideoVariant::NOTCHLC => "NotchLC"@,
        VideoVariant::UNKOWN => "Unknown"@,
    }
}

/// The name of a variant as the overlay shows it.
pub fn variant_label(v: VideoVariant) -> (res: &'static str)
    ensures
        res@ == spec_variant_label(v),
{
    match v {
        VideoVariant::HAP => "HAP",
        VideoVariant::HAPALPHA => "HAP Alpha",
        VideoVariant::HAPQ => "HAP Q",
        VideoVariant::NOTCHLC => "NotchLC",
        VideoVariant::UNKOWN => "Unknown",
    }
}

/// The playback status as the overlay shows it.
pub open spec fn spec_status_label(playing: bool) -> Seq<char> {
    if playing {
        "PLAYING"@
    } else {
        "PAUSED"@
    }
}

/// The playback status as the overlay shows it.
pub fn status_label(playing: bool) -> (res: &'static str)
    ensures
        res@ == spec_status_label(playing),
{
    if playing {
        "PLAYING"
    } else {
        "PAUSED"
    }
}

/// The hint about the controls at the bottom of the overlay.
pub open spec fn spec_controls_hint() -> Seq<char> {
    "SPACE pause  LEFT/RIGHT seek  DRAG scrub"@
}

/// The hint about the controls at the bottom of the overlay.
pub fn controls_hint() -> (res: &'static str)
    ensures
        res@ == spec_controls_hint(),
{
    "SPACE pause  LEFT/RIGHT seek  DRAG scrub"
}

/// The character of the decimal digit `d`.
pub open spec fn digit_char(d: int) -> char {
    (48 + d) as char
}

/// The decimal digits of `n`, most significant first, without leading zeros.
pub open spec fn decimal(n: nat) -> Seq<char>
    decreases n,
{
    if n < 10 {
        seq![digit_char(n as int)]
    } else {
        decimal(n / 10).push(digit_char((n % 10) as int))
    }
}

/// `n` in decimal, padded with a zero to at least two digits.
pub open spec fn two_digits(n: nat) -> Seq<char> {
    if n < 10 {
        seq!['0'] + decimal(n)
    } else {
        decimal(n)
    }
}

/// `n` in decimal, with a minus sign when it is negative.
pub open spec fn signed_decimal(n: int) -> Seq<char> {
    if n < 0 {
        seq!['-'] + decimal((-n) as nat)
    } else {
        decimal(n as nat)
    }
}

/// The overlay's position line: elapsed and total time as minutes and
/// seconds, then the current frame and the frame count, as in
/// `00:07 / 02:05  frame 168/3000`.
pub open spec fn spec_time_line(cur_secs: nat, total_secs: nat, frame: int, frames: int) -> Seq<
    char,
> {
    two_digits(cur_secs / 60) + ":"@ + two_digits(cur_secs % 60) + " / "@ + two_digits(total_secs / 60)
        + ":"@ + two_digits(total_secs % 60) + "  frame "@ + signed_decimal(frame) + "/"@
        + signed_decimal(frames)
}

/// The number that a string of decimal digits spells, most significant first.
pub open spec fn digits_value(s: Seq<char>) -> int
    decreases s.len(),
{
    if s.len() == 0 {
        0
    } else {
        digits_value(s.drop_last()) * 10 + (s.last() as int - 48)
    }
}

/// `s` is made of the characters `'0'` to `'9'` only.
pub open spec fn all_digits(s: Seq<char>) -> bool {
    forall|i: int| 0 <= i < s.len() ==> 48 <= (#[trigger] s[i]) as int <= 57
}

/// The decimal form of a number is made of digits, spells that number, and
/// has no leading zero unless it is zero itself.
pub proof fn lemma_decimal_spells_number(n: nat)
    ensures
        all_digits(decimal(n)),
        digits_value(decimal(n)) == n,
        decimal(n).len() >= 1,
        decimal(n)[0] == '0' ==> n == 0,
    decreases n,
{
    if n >= 10 {
        lemma_decimal_spells_number(n / 10);
        let prev = decimal(n / 10);
        let c = digit_char((n % 10) as int);
        assert(decimal(n) == prev.push(c));
        assert(decimal(n).drop_last() =~= prev);
        assert(decimal(n)[0] == prev[0]);
        assert((48 + (n % 10)) as char as int == 48 + (n % 10));
        assert(decimal(n).last() == c);
        vstd::arithmetic::div_mod::lemma_fundamental_div_mod(n as int, 10);
        assert(digits_value(decimal(n)) == digits_value(prev) * 10 + (n % 10));
    } else {
        assert((48 + n) as char as int == 48 + n);
        assert(decimal(n).drop_last() =~= Seq::<char>::empty());
        assert(digits_value(Seq::<char>::empty()) == 0);
    }
}

/// The zero-padded form of a number is made of digits, spells that number,
/// and has at least two of them.
pub proof fn lemma_two_digits_spells_number(n: nat)
    ensures
        all_digits(two_digits(n)),
        digits_value(two_digits(n)) == n,
        two_digits(n).len() >= 2,
{
    lemma_decimal_spells_number(n);
    if n < 10 {
        let d = decimal(n);
        assert(d.len() == 1);
        let t = seq!['0'] + d;
        assert(t.drop_last() =~= seq!['0']);
        assert(seq!['0'].drop_last() =~= Seq::<char>::empty());
        assert(t.last() == d.last());
        assert(d.drop_last() =~= Seq::<char>::empty());
        assert(('0' as int) == 48);
        assert(digits_value(Seq::<char>::empty()) == 0);
        assert(digits_value(seq!['0']) == 0);
        assert(digits_value(t) == digits_value(seq!['0']) * 10 + (d.last() as int - 48));
        assert(digits_value(d) == digits_value(Seq::<char>::empty()) * 10 + (d.last() as int - 48));
    } else {
        assert(decimal(n) == decimal(n / 10).push(digit_char((n % 10) as int)));
        lemma_decimal_spells_number(n / 10);
    }
}

/// Calls `String::push` from std, which appends `c` to the end of `s`.
#[verifier::external_body]
fn push_char(s: &mut String, c: char)
    ensures
        final(s)@ == old(s)@.push(c),
{
    s.push(c)
}

/// Appends the decimal digits of `n`.
fn push_decimal(s: &mut String, n: u64)
    ensures
        final(s)@ == old(s)@ + decimal(n as nat),
    decreases n,
{
    if n >= 10 {
        push_decimal(s, n / 10);
    }
    let d = (n % 10) as u8;
    let c = (48u8 + d) as char;
    assert(c == digit_char((n % 10) as int));
    push_char(s, c);
    proof {
        if n < 10 {
            assert(old(s)@.push(c) =~= old(s)@ + decimal(n as nat));
        } else {
            assert((old(s)@ + decimal((n / 10) as nat)).push(c) =~= old(s)@ + decimal(n as nat));
        }
    }
}

/// Appends `n` padded with a zero to at least two digits.
fn push_two_digits(s: &mut String, n: u64)
    ensures
        final(s)@ == old(s)@ + two_digits(n as nat),
{
    if n < 10 {
        push_char(s, '0');
    }
    push_decimal(s, n);
    proof {
        if n < 10 {
            assert(old(s)@.push('0') + decimal(n as nat) =~= old(s)@ + two_digits(n as nat));
        }
    }
}

/// Appends `n` in decimal, with a minus sign when it is negative.
fn push_signed_decimal(s: &mut String, n: i64)
    ensures
        final(s)@ == old(s)@ + signed_decimal(n as int),
{
    if n < 0 {
        push_char(s, '-');
        let magnitude = (-(n + 1)) as u64 + 1;
        push_decimal(s, magnitude);
        assert(old(s)@.push('-') + decimal(magnitude as nat) =~= old(s)@ + signed_decimal(
            n as int,
        ));
    } else {
        push_decimal(s, n as u64);
    }
}

/// The overlay's position line: elapsed and total time as minutes and
/// seconds (two digits each at least), the current frame and the frame count.
pub fn time_line(cur_secs: u64, total_secs: u64, current_frame: i64, total_frames: i64) -> (res:
    String)
    ensures
        res@ == spec_time_line(cur_secs as nat, total_secs as nat, current_frame as int, total_frames as int),
{
    let mut s = String::new();
    push_two_digits(&mut s, cur_secs / 60);
    s.append(":");
    push_two_digits(&mut s, cur_secs % 60);
    s.append(" / ");
    push_two_digits(&mut s, total_secs / 60);
    s.append(":");
    push_two_digits(&mut s, total_secs % 60);
    s.append("  frame ");
    push_signed_decimal(&mut s, current_frame);
    s.append("/");
    push_signed_decimal(&mut s, total_frames);
    s
}

/// A UTF-8 encoding has one to four bytes per character.
pub proof fn lemma_utf8_len_at_least_chars(chars: Seq<char>)
    ensures
        chars.len() <= encode_utf8(chars).len() <= 4 * chars.len(),
    decreases chars.len(),
{
    if chars.len() > 0 {
        lemma_utf8_len_at_least_chars(chars.drop_first());
    }
}

/// The width the overlay reserves for a line: its length in bytes times the
/// scaled character advance.
pub open spec fn line_width(t: Seq<char>) -> int {
    encode_utf8(t).len() * char_advance(OVERLAY_SCALE as int)
}

/// The left edge of a right-aligned overlay line in a window `ow` wide.
pub open spec fn line_left(ow: int, t: Seq<char>) -> int {
    ow - line_width(t) - MARGIN
}

/// The top edge of info line `i`.
pub open spec fn line_top(i: int) -> int {
    MARGIN + i * LINE_HEIGHT
}

/// The top edge of the hint line in a window `oh` high.
pub open spec fn hint_top(oh: int) -> int {
    oh - LINE_HEIGHT - MARGIN
}

/// Overlay lines are right-aligned 8 pixels from the window's right edge,
/// each character taking 12 pixels per byte of the line; info line `i` starts
/// `8 + 18 * i` pixels from the top, and the hint line 26 pixels above the
/// bottom edge.
pub proof fn lemma_overlay_layout(ow: int, oh: int, t: Seq<char>, i: int)
    ensures
        line_left(ow, t) + encode_utf8(t).len() * 12 == ow - 8,
        line_top(i) == 8 + 18 * i,
        hint_top(oh) == oh - 26,
{
    assert(char_advance(OVERLAY_SCALE as int) == 12);
}

/// The pixels of the first `n` info lines.
pub open spec fn info_lines_pixels(ow: int, lines: Seq<Seq<char>>, n: int) -> Set<(int, int)> {
    Set::new(
        |p: (int, int)|
            exists|i: int|
                0 <= i < n && i < lines.len() && text_pixels(
                    #[trigger] lines[i],
                    line_left(ow, lines[i]),
                    line_top(i),
                    OVERLAY_SCALE as int,
                ).contains(p),
    )
}

/// The pixels of the hint line.
pub open spec fn hint_pixels(ow: int, oh: int) -> Set<(int, int)> {
    text_pixels(
        spec_controls_hint(),
        line_left(ow, spec_controls_hint()),
        hint_top(oh),
        OVERLAY_SCALE as int,
    )
}

/// The pixels that the overlay lights in a window `ow` by `oh`.
pub open spec fn overlay_pixels(ow: int, oh: int, lines: Seq<Seq<char>>) -> Set<(int, int)> {
    info_lines_pixels(ow, lines, lines.len() as int).union(hint_pixels(ow, oh))
}

/// An overlay line fits the `i32` arithmetic of its placement.
pub open spec fn line_fits(ow: int, t: Seq<char>) -> bool {
    line_width(t) <= i32::MAX && line_left(ow, t) >= i32::MIN
}

/// The text of a slice of lines.
pub open spec fn line_texts(lines: Seq<String>) -> Seq<Seq<char>> {
    lines.map_values(|l: String| l@)
}

/// Renders the overlay into a fresh, fully transparent RGBA buffer of
/// `ow` by `oh` pixels: the info lines right-aligned from the top right
/// corner, one below the other, and the controls hint right-aligned at the
/// bottom right.
pub fn render_overlay(ow: usize, oh: usize, lines: &[String]) -> (res: Vec<u8>)
    requires
        ow * oh * 4 <= usize::MAX,
        ow <= i32::MAX,
        oh <= i32::MAX,
        lines@.len() * LINE_HEIGHT + MARGIN <= i32::MAX,
        forall|i: int| 0 <= i < lines@.len() ==> line_fits(ow as int, #[trigger] lines@[i]@),
    ensures
        res@ == painted(
            Seq::new((ow * oh * 4) as nat, |j: int| 0u8),
            ow as int,
            overlay_pixels(ow as int, oh as int, line_texts(lines@)),
        ),
{
    let ghost texts = line_texts(lines@);
    let ghost w = ow as int;
    let total = ow * oh * 4;
    let mut buf = vec![0u8; total];
    let ghost blank = Seq::new(total as nat, |j: int| 0u8);
    assert(buf@ =~= blank);
    proof {
        crate::window::text::lemma_painted_empty(blank, w);
        assert(Set::<(int, int)>::empty() =~= info_lines_pixels(w, texts, 0));
    }
    let scale = OVERLAY_SCALE;
    let n = lines.len();
    let mut i: usize = 0;
    while i < n
        invariant
            i <= n,
            scale == OVERLAY_SCALE,
            n == lines@.len(),
            texts == line_texts(lines@),
            w == ow as int,
            ow <= i32::MAX,
            lines@.len() * LINE_HEIGHT + MARGIN <= i32::MAX,
            forall|k: int| 0 <= k < lines@.len() ==> line_fits(ow as int, #[trigger] lines@[k]@),
            buf@ == painted(blank, w, info_lines_pixels(w, texts, i as int)),
        decreases n - i,
    {
        let line = lines[i].as_str();
        let ghost t = texts[i as int];
        assert(t == line@);
        assert(line_fits(ow as int, lines@[i as int]@));
        proof {
            lemma_utf8_len_at_least_chars(t);
            assert(i * LINE_HEIGHT + LINE_HEIGHT <= n * LINE_HEIGHT) by (nonlinear_arith)
                requires
                    i < n,
            ;
        }
        let blen = line.len();
        proof {
            assert(char_advance(OVERLAY_SCALE as int) == 12);
            assert(line_width(t) == encode_utf8(t).len() * 12);
            assert(blen == line.spec_bytes().len() as usize);
        }
        let text_w = (blen as i32) * 6 * (scale as i32);
        let px = ow as i32 - text_w - MARGIN;
        let py = MARGIN + (i as i32) * LINE_HEIGHT;
        proof {
            assert(t.len() * char_advance(2) <= encode_utf8(t).len() * char_advance(2)) by (
            nonlinear_arith)
                requires
                    t.len() <= encode_utf8(t).len(),
            ;
        }
        let ghost before = info_lines_pixels(w, texts, i as int);
        let ghost tp = text_pixels(t, px as int, py as int, scale as int);
        render_text(&mut buf, ow, line, px, py, scale);
        proof {
            crate::window::text::lemma_painted_union(blank, w, before, tp);
            let after = info_lines_pixels(w, texts, i + 1);
            assert forall|p: (int, int)| after.contains(p) <==> #[trigger] before.union(tp).contains(p) by {
                if tp.contains(p) {
                    assert(texts[i as int] == t);
                }
            }
            assert(after =~= before.union(tp));
        }
        i = i + 1;
    }
    let hint = controls_hint();
    proof {
        lemma_utf8_len_at_least_chars(hint@);
        crate::window::text::lemma_painted_union(blank, w, info_lines_pixels(w, texts, n as int), hint_pixels(w, oh as int));
    }
    assert(hint@.len() <= 64) by {
        reveal_strlit("SPACE pause  LEFT/RIGHT seek  DRAG scrub");
    }
    let hint_w = (hint.len() as i32) * 6 * (scale as i32);
    let hx = ow as i32 - hint_w - MARGIN;
    let hy = oh as i32 - LINE_HEIGHT - MARGIN;
    proof {
        assert(char_advance(OVERLAY_SCALE as int) == 12);
        assert(line_width(hint@) == encode_utf8(hint@).len() * 12);
        assert(hx == line_left(w, spec_controls_hint()));
        assert(hy == hint_top(oh as int));
    }
    render_text(&mut buf, ow, hint, hx, hy, scale);
    assert(blank =~= Seq::new((ow * oh * 4) as nat, |j: int| 0u8));
    buf
}

} // verus!
