//! Verified core of a terminal video player: geometry resolution,
//! pixel-to-cell mapping, ANSI escape encoding, playback state machine,
//! and stream-metadata parsing.

pub mod geometry;
pub mod luma;
pub mod cell;
pub mod mapper;
pub mod encoder;
pub mod render;
pub mod playback;
pub mod probe;
