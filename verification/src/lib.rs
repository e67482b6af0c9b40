//! A hexagonal-grid geometry engine: integer axial hex coordinates,
//! fractional coordinates with exact cube rounding, a family of hex-tile
//! shapes with index/containment contracts, and view-control helpers.
//!
//! Pixel-space conversion (floating-point layout matrices) is left to the
//! rendering adapter; this crate owns the exact coordinate mathematics.

pub mod frac;
pub mod hex;
pub mod hex_rect;
pub mod line;
pub mod point;
pub mod rect;
pub mod shape;
pub mod tri;
pub mod view;
