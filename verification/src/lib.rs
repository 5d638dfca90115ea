//! Core of a small fantasy-console graphics engine: deterministic 8.8
//! fixed-point arithmetic, palette colors, 4-bit tile bitmaps, affine
//! scrolling background layers on a 1024x1024 pixel torus, sprites, and a
//! per-scanline compositor that resolves every output pixel.

pub mod api;
pub mod color;
pub mod compose;
pub mod frame;
pub mod gamepad;
pub mod math;
pub mod tile;
