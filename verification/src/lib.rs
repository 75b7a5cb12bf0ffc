//! Verified core of a HAP video player: packet decoding, codec identification,
//! a bitmap text renderer for the on-screen overlay, and the playback rules.

pub mod frameconv;
pub mod window;
