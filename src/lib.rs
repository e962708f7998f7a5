//! Frames for a colour-bar test clip: eight vertical bars with a narrower,
//! reverse-coloured band that bounces up and down across them.

pub mod raster;
pub mod animator;
pub mod frames;
