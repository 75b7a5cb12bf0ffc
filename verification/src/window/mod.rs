pub mod font;
pub mod overlay;
pub mod playback;
pub mod text;
pub mod video;
