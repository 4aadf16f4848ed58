//! Pixel layouts, apart from any backend.

use vstd::prelude::*;

verus! {

/// An uncompressed layout with the number of bits per pixel.
#[derive(Clone, Copy, Debug, PartialEq, Eq, Structural)]
pub enum Uncompressed {
    /// Luminance only.
    Gray(u32),
    /// Depth samples.
    Depth(u32),
    /// Blue, green, red.
    Bgr(u32),
    /// Blue, green, red, alpha.
    Bgra(u32),
    /// Red, green, blue.
    Rgb(u32),
    /// Red, green, blue, alpha.
    Rgba(u32),
}

/// A compressed encoding.
#[derive(Clone, Copy, Debug, PartialEq, Eq, Structural)]
pub enum Compressed {
    /// JPEG frames.
    Jpeg,
}

} // verus!
