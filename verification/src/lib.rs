//! A minimal framebuffer drawing layer: an in-memory pixel buffer, filled
//! primitive shapes that rasterize into it, and the frame-driving decisions
//! (double buffering, raw-frame playback, randomized fills) that sit between
//! a renderer and a display device.
//!
//! Everything here works in whole numbers, shapes being laid out in half
//! pixels, and is free of device access, so that each operation carries a
//! machine-checked contract.

pub mod buffer;
pub mod color;
pub mod double_buffer;
pub mod playback;
pub mod present;
pub mod random_fill;
pub mod scene;
pub mod shapes;
