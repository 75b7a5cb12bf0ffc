use glasses::window::playback::{Key, KeyAction, Playback};

#[test]
fn starts_playing_at_frame_zero() {
    let p = Playback::new(100);
    assert!(p.playing);
    assert_eq!(p.current_frame, 0);
    assert!(!p.mouse_down);
}

#[test]
fn space_toggles_playback_and_twice_restores_it() {
    let mut p = Playback::new(100);
    assert_eq!(p.handle_key(Key::Space), KeyAction::PlaybackToggled);
    assert!(!p.playing);
    assert_eq!(p.handle_key(Key::Space), KeyAction::PlaybackToggled);
    assert!(p.playing);
}

#[test]
fn arrows_step_within_the_stream() {
    let mut p = Playback::new(3);
    assert_eq!(p.handle_key(Key::ArrowLeft), KeyAction::Seeked(0));
    assert_eq!(p.handle_key(Key::ArrowRight), KeyAction::Seeked(1));
    assert_eq!(p.handle_key(Key::ArrowRight), KeyAction::Seeked(2));
    assert_eq!(p.handle_key(Key::ArrowRight), KeyAction::Seeked(2));
    assert_eq!(p.handle_key(Key::ArrowLeft), KeyAction::Seeked(1));
    assert_eq!(p.current_frame, 1);
}

#[test]
fn step_forward_then_back_returns() {
    let mut p = Playback::new(50);
    p.current_frame = 20;
    p.handle_key(Key::ArrowRight);
    p.handle_key(Key::ArrowLeft);
    assert_eq!(p.current_frame, 20);
}

#[test]
fn escape_exits_and_other_keys_do_nothing() {
    let mut p = Playback::new(10);
    assert_eq!(p.handle_key(Key::Escape), KeyAction::Exit);
    assert_eq!(p.handle_key(Key::Other), KeyAction::Ignored);
    assert!(p.playing);
    assert_eq!(p.current_frame, 0);
}

#[test]
fn seek_clamps_to_the_stream() {
    let mut p = Playback::new(10);
    assert_eq!(p.seek_frames(25), 9);
    assert_eq!(p.seek_frames(-100), 0);
    assert_eq!(p.seek_frames(4), 4);
    assert_eq!(p.seek_target(3), 7);
}

#[test]
fn seek_in_an_empty_stream_lands_before_it() {
    let mut p = Playback::new(0);
    assert_eq!(p.seek_frames(5), -1);
}

#[test]
fn seeks_compose_inside_the_stream() {
    let mut a = Playback::new(100);
    a.seek_frames(30);
    a.seek_frames(-12);
    let mut b = Playback::new(100);
    b.seek_frames(18);
    assert_eq!(a.current_frame, b.current_frame);
}

#[test]
fn mouse_pauses_while_held() {
    let mut p = Playback::new(10);
    p.mouse_button(true);
    assert!(p.mouse_down && !p.playing);
    p.mouse_button(false);
    assert!(!p.mouse_down && p.playing);
}

#[test]
fn scrubbing_seeks_only_while_the_button_is_held() {
    let mut p = Playback::new(100);
    assert_eq!(p.scrub_to(40), None);
    assert_eq!(p.current_frame, 0);
    p.mouse_button(true);
    assert_eq!(p.scrub_to(40), Some(40));
    assert_eq!(p.scrub_to(40), None);
    assert_eq!(p.scrub_to(500), Some(99));
    assert_eq!(p.current_frame, 99);
}

#[test]
fn frames_advance_and_loop_at_the_end() {
    let mut p = Playback::new(3);
    p.frame_advanced(true);
    p.frame_advanced(true);
    assert_eq!(p.current_frame, 2);
    p.frame_advanced(false);
    assert_eq!(p.current_frame, 0);
}

#[test]
fn seeking_in_place_keeps_the_frame() {
    let mut p = Playback::new(10);
    p.seek_frames(6);
    assert_eq!(p.seek_frames(0), 6);
    assert_eq!(p.current_frame, 6);
}

