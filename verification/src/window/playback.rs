//! The player's playback rules: pausing, stepping, scrubbing and looping.
//!
//! The window owns the decoder, the GPU and the clock; it reports what the
//! user did and what the decoder delivered, and this state decides the new
//! playback position and what the window has to do about it.
use vstd::prelude::*;

verus! {

/// The keys the player responds to.
#[derive(Debug, Clone, Copy, PartialEq, Eq, Structural)]
pub enum Key {
    Space,
    ArrowRight,
    ArrowLeft,
    Escape,
    Other,
}

/// What the window has to do after a key press.
#[derive(Debug, Clone, Copy, PartialEq, Eq, Structural)]
pub enum KeyAction {
    /// Playback was paused or resumed: refresh the overlay and redraw.
    PlaybackToggled,
    /// The position moved to this frame: seek the decoder there and redraw.
    Seeked(i64),
    /// Close the window.
    Exit,
    /// Nothing to do.
    Ignored,
}

/// Playback state: whether frames advance on their own, the current frame,
/// whether the left mouse button is held (scrubbing), and the stream's
/// frame count.
pub struct Playback {
    pub playing: bool,
    pub current_frame: i64,
    pub mouse_down: bool,
    pub total_frames: i64,
}

/// The frame a seek by `delta` from `current` lands on: the sum, raised to at
/// least 0, then lowered to at most `total - 1`.
pub open spec fn spec_seek_target(current: int, delta: int, total: int) -> int {
    let raised = if current + delta > 0 {
        current + delta
    } else {
        0
    };
    if raised < total - 1 {
        raised
    } else {
        total - 1
    }
}

/// A seek by `delta` from `current` can be computed without overflow.
pub open spec fn seek_fits(current: int, delta: int, total: int) -> bool {
    &&& i64::MIN <= current + delta <= i64::MAX
    &&& total > i64::MIN
}

impl Playback {
    /// A stream of `total_frames` frames, playing from frame 0.
    pub fn new(total_frames: i64) -> (res: Playback)
        ensures
            res.playing,
            res.current_frame == 0,
            !res.mouse_down,
            res.total_frames == total_frames,
    {
        Playback { playing: true, current_frame: 0, mouse_down: false, total_frames }
    }

    /// The frame a seek by `delta` lands on.
    pub fn seek_target(&self, delta: i64) -> (res: i64)
        requires
            seek_fits(self.current_frame as int, delta as int, self.total_frames as int),
        ensures
            res == spec_seek_target(
                self.current_frame as int,
                delta as int,
                self.total_frames as int,
            ),
    {
        let sum = self.current_frame + delta;
        let raised = if sum > 0 {
            sum
        } else {
            0
        };
        let last = self.total_frames - 1;
        if raised < last {
            raised
        } else {
            last
        }
    }

    /// Moves the position by `delta` frames, kept within the stream, and
    /// returns the new position, which the decoder is to seek to.
    pub fn seek_frames(&mut self, delta: i64) -> (target: i64)
        requires
            seek_fits(old(self).current_frame as int, delta as int, old(self).total_frames as int),
        ensures
            target == spec_seek_target(
                old(self).current_frame as int,
                delta as int,
                old(self).total_frames as int,
            ),
            final(self).current_frame == target,
            final(self).playing == old(self).playing,
            final(self).mouse_down == old(self).mouse_down,
            final(self).total_frames == old(self).total_frames,
    {
        let target = self.seek_target(delta);
        self.current_frame = target;
        target
    }

    /// Pauses or resumes playback.
    pub fn toggle_playing(&mut self)
        ensures
            final(self).playing == !old(self).playing,
            final(self).current_frame == old(self).current_frame,
            final(self).mouse_down == old(self).mouse_down,
            final(self).total_frames == old(self).total_frames,
    {
        self.playing = !self.playing;
    }

    /// Applies a key press: space pauses or resumes, the right and left
    /// arrows step one frame forward or back, escape exits; other keys do
    /// nothing.
    pub fn handle_key(&mut self, key: Key) -> (action: KeyAction)
        requires
            key == Key::ArrowRight ==> seek_fits(
                old(self).current_frame as int,
                1,
                old(self).total_frames as int,
            ),
            key == Key::ArrowLeft ==> seek_fits(
                old(self).current_frame as int,
                -1,
                old(self).total_frames as int,
            ),
        ensures
            final(self).total_frames == old(self).total_frames,
            final(self).mouse_down == old(self).mouse_down,
            key == Key::Space ==> action == KeyAction::PlaybackToggled && final(self).playing
                == !old(self).playing && final(self).current_frame == old(self).current_frame,
            key == Key::ArrowRight ==> final(self).playing == old(self).playing && final(self).current_frame == spec_seek_target(
                old(self).current_frame as int,
                1,
                old(self).total_frames as int,
            ) && action == KeyAction::Seeked(final(self).current_frame),
            key == Key::ArrowLeft ==> final(self).playing == old(self).playing && final(self).current_frame == spec_seek_target(
                old(self).current_frame as int,
                -1,
                old(self).total_frames as int,
            ) && action == KeyAction::Seeked(final(self).current_frame),
            key == Key::Escape ==> action == KeyAction::Exit && *final(self) == *old(self),
            key == Key::Other ==> action == KeyAction::Ignored && *final(self) == *old(self),
    {
        match key {
            Key::Space => {
                self.toggle_playing();
                KeyAction::PlaybackToggled
            },
            Key::ArrowRight => KeyAction::Seeked(self.seek_frames(1)),
            Key::ArrowLeft => KeyAction::Seeked(self.seek_frames(-1)),
            Key::Escape => KeyAction::Exit,
            Key::Other => KeyAction::Ignored,
        }
    }

    /// The left mouse button went down (`pressed`) or up: holding it pauses
    /// playback for scrubbing, releasing it resumes playback.
    pub fn mouse_button(&mut self, pressed: bool)
        ensures
            final(self).mouse_down == pressed,
            final(self).playing == !pressed,
            final(self).current_frame == old(self).current_frame,
            final(self).total_frames == old(self).total_frames,
    {
        self.mouse_down = pressed;
        if pressed {
            self.playing = false;
        } else {
            self.playing = true;
        }
    }

    /// The cursor moved to the position of `target_frame`: while the button
    /// is held and the target differs from the current frame, seek to it
    /// (kept within the stream) and return the new position.
    pub fn scrub_to(&mut self, target_frame: i64) -> (res: Option<i64>)
        requires
            old(self).mouse_down ==> i64::MIN <= target_frame - old(self).current_frame <= i64::MAX
                && old(self).total_frames > i64::MIN,
        ensures
            final(self).playing == old(self).playing,
            final(self).mouse_down == old(self).mouse_down,
            final(self).total_frames == old(self).total_frames,
            res is Some <==> old(self).mouse_down && target_frame != old(self).current_frame,
            match res {
                Some(t) => t == spec_seek_target(target_frame as int, 0, old(self).total_frames as int)
                    && final(self).current_frame == t,
                None => final(self).current_frame == old(self).current_frame,
            },
    {
        if !self.mouse_down {
            return None;
        }
        let delta = target_frame - self.current_frame;
        if delta != 0 {
            Some(self.seek_frames(delta))
        } else {
            None
        }
    }

    /// A frame was due: with the next packet decoded (`got_frame`) the
    /// position moves one frame on; at the end of the stream it loops back
    /// to frame 0, and the decoder is to rewind.
    pub fn frame_advanced(&mut self, got_frame: bool)
        requires
            got_frame ==> old(self).current_frame < i64::MAX,
        ensures
            final(self).current_frame == if got_frame {
                old(self).current_frame + 1
            } else {
                0
            },
            final(self).playing == old(self).playing,
            final(self).mouse_down == old(self).mouse_down,
            final(self).total_frames == old(self).total_frames,
    {
        if got_frame {
            self.current_frame = self.current_frame + 1;
        } else {
            self.current_frame = 0;
        }
    }
}

/// Every seek lands inside a stream of at least one frame: on a frame from 0
/// to `total - 1`.
pub proof fn lemma_seek_stays_in_stream(current: int, delta: int, total: int)
    requires
        total >= 1,
    ensures
        0 <= spec_seek_target(current, delta, total) < total,
{
}

/// Inside the stream, a step forward and a step back return to the frame
/// the steps started from.
pub proof fn lemma_step_forward_then_back(current: int, total: int)
    requires
        0 <= current < total - 1,
    ensures
        spec_seek_target(spec_seek_target(current, 1, total), -1, total) == current,
{
}

/// Inside the stream, seeking twice lands where one seek by the sum of the
/// two moves does, as long as neither seek is cut off at an end.
pub proof fn lemma_seeks_compose(current: int, d1: int, d2: int, total: int)
    requires
        0 <= current + d1 < total,
        0 <= current + d1 + d2 < total,
    ensures
        spec_seek_target(spec_seek_target(current, d1, total), d2, total) == spec_seek_target(
            current,
            d1 + d2,
            total,
        ),
{
}

/// Seeking to where the stream already is changes nothing.
pub proof fn lemma_seek_in_place(current: int, total: int)
    requires
        0 <= current < total,
    ensures
        spec_seek_target(current, 0, total) == current,
{
}

} // verus!
