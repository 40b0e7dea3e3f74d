//! Playback core of a small looping-animation player: the container codec,
//! the streaming frame loader and the playback scheduler.

pub mod codec;
pub mod pixel;
pub mod framebuffer;
pub mod stream;
pub mod loader;
pub mod player;
pub mod encoder;
