//! Layout-and-image pipeline for a printable contact sheet: grid geometry in
//! physical units, aspect-ratio-aware cropping, resolution-aware conditional
//! downsampling, a content-addressed transform cache, and per-cell placement
//! geometry.
//!
//! All physical lengths are integers in millipoints (1/1000 of a PDF point,
//! 1 point = 1/72 inch), so every geometric rule is exact integer arithmetic.

pub mod cache;
pub mod codec;
pub mod crop;
pub mod grid;
pub mod layout;
pub mod resolution;
pub mod text;
pub mod units;
