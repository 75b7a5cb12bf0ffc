use glasses::frameconv::filetypes::VideoVariant;
use glasses::window::overlay::{
    controls_hint, render_overlay, status_label, time_line, variant_label,
};

#[test]
fn labels() {
    assert_eq!(variant_label(VideoVariant::HAP), "HAP");
    assert_eq!(variant_label(VideoVariant::HAPALPHA), "HAP Alpha");
    assert_eq!(variant_label(VideoVariant::HAPQ), "HAP Q");
    assert_eq!(variant_label(VideoVariant::NOTCHLC), "NotchLC");
    assert_eq!(variant_label(VideoVariant::UNKOWN), "Unknown");
    assert_eq!(status_label(true), "PLAYING");
    assert_eq!(status_label(false), "PAUSED");
    assert_eq!(controls_hint(), "SPACE pause  LEFT/RIGHT seek  DRAG scrub");
}

#[test]
fn time_line_pads_minutes_and_seconds() {
    assert_eq!(time_line(7, 125, 168, 3000), "00:07 / 02:05  frame 168/3000");
    assert_eq!(time_line(0, 0, 0, 0), "00:00 / 00:00  frame 0/0");
    assert_eq!(time_line(6000, 59, 10, 9), "100:00 / 00:59  frame 10/9");
}

#[test]
fn time_line_signed_frames() {
    assert_eq!(time_line(0, 0, -1, -25), "00:00 / 00:00  frame -1/-25");
    assert_eq!(
        time_line(0, 0, i64::MIN, i64::MAX),
        "00:00 / 00:00  frame -9223372036854775808/9223372036854775807"
    );
    assert_eq!(time_line(u64::MAX, 0, 0, 0), format!("{:02}:{:02} / 00:00  frame 0/0", u64::MAX / 60, u64::MAX % 60));
}

fn pixel(buf: &[u8], w: usize, x: usize, y: usize) -> [u8; 4] {
    let off = (y * w + x) * 4;
    [buf[off], buf[off + 1], buf[off + 2], buf[off + 3]]
}

#[test]
fn overlay_lines_are_right_aligned_from_the_top() {
    let (w, h) = (200, 60);
    let buf = render_overlay(w, h, &["A".to_string(), "AA".to_string()]);
    assert_eq!(buf.len(), w * h * 4);
    // line 0: "A" is 12 px wide, so it starts at x = 200 - 12 - 8 = 180, y = 8
    assert_eq!(pixel(&buf, w, 180, 8), [0; 4]);
    assert_eq!(pixel(&buf, w, 182, 8), [255, 255, 255, 220]);
    assert_eq!(pixel(&buf, w, 183, 9), [255, 255, 255, 220]);
    // line 1: "AA" starts at x = 200 - 24 - 8 = 168, y = 8 + 18 = 26
    assert_eq!(pixel(&buf, w, 170, 26), [255, 255, 255, 220]);
    assert_eq!(pixel(&buf, w, 182, 26), [255, 255, 255, 220]);
    assert_eq!(pixel(&buf, w, 170, 25), [0; 4]);
}

#[test]
fn controls_hint_sits_at_the_bottom_right() {
    let (w, h) = (600, 100);
    let buf = render_overlay(w, h, &[]);
    // the hint is 40 characters: 480 px, from x = 600 - 480 - 8 = 112, y = 100 - 26 = 74
    // its first character 'S' has row 0 = 01111: lit from its second column
    assert_eq!(pixel(&buf, w, 112, 74), [0; 4]);
    assert_eq!(pixel(&buf, w, 114, 74), [255, 255, 255, 220]);
    // nothing above the hint
    assert!(buf[..74 * w * 4].iter().all(|b| *b == 0));
}

#[test]
fn tiny_window_clips_everything_outside() {
    let buf = render_overlay(3, 2, &["PLAYING".to_string()]);
    assert_eq!(buf.len(), 24);
}
