//! Pixel and image formats.

use vstd::prelude::*;
use vstd::std_specs::cmp::PartialEqSpecImpl;

pub mod pix;

verus! {

/// How the pixels of a frame are encoded.
#[derive(Debug)]
pub enum PixelFormat {
    /// An uncompressed layout.
    Uncompressed(pix::Uncompressed),
    /// A compressed encoding.
    Compressed(pix::Compressed),
    /// A format known only by the text of its tag.
    Custom(String),
}

/// The mathematical value of a [`PixelFormat`].
pub enum FormatModel {
    Uncompressed(pix::Uncompressed),
    Compressed(pix::Compressed),
    Custom(Seq<char>),
}

impl View for PixelFormat {
    type V = FormatModel;

    open spec fn view(&self) -> FormatModel {
        match *self {
            PixelFormat::Uncompressed(layout) => FormatModel::Uncompressed(layout),
            PixelFormat::Compressed(codec) => FormatModel::Compressed(codec),
            PixelFormat::Custom(text) => FormatModel::Custom(text@),
        }
    }
}

impl PartialEq for PixelFormat {
    /// Structural equality: same variant, same payload.
    fn eq(&self, other: &PixelFormat) -> (r: bool) {
        match (self, other) {
            (PixelFormat::Uncompressed(a), PixelFormat::Uncompressed(b)) => *a == *b,
            (PixelFormat::Compressed(a), PixelFormat::Compressed(b)) => *a == *b,
            (PixelFormat::Custom(a), PixelFormat::Custom(b)) => *a == *b,
            _ => false,
        }
    }
}

impl PartialEqSpecImpl for PixelFormat {
    open spec fn obeys_eq_spec() -> bool {
        true
    }

    open spec fn eq_spec(&self, other: &PixelFormat) -> bool {
        self@ == other@
    }
}

impl Clone for PixelFormat {
    fn clone(&self) -> (r: PixelFormat)
        ensures
            r == *self,
    {
        match self {
            PixelFormat::Uncompressed(layout) => PixelFormat::Uncompressed(*layout),
            PixelFormat::Compressed(codec) => PixelFormat::Compressed(*codec),
            PixelFormat::Custom(text) => PixelFormat::Custom(text.clone()),
        }
    }
}

/// The format of the frames a stream produces.
#[derive(Debug)]
pub struct ImageFormat {
    /// Width in pixels.
    pub width: u32,
    /// Height in pixels.
    pub height: u32,
    /// Encoding of the pixels.
    pub pixfmt: PixelFormat,
    /// Bytes from one row to the next, where the backend tells.
    pub stride: Option<usize>,
}

/// The mathematical value of an [`ImageFormat`].
pub struct ImageFormatModel {
    pub width: u32,
    pub height: u32,
    pub pixfmt: FormatModel,
    pub stride: Option<usize>,
}

impl View for ImageFormat {
    type V = ImageFormatModel;

    open spec fn view(&self) -> ImageFormatModel {
        ImageFormatModel {
            width: self.width,
            height: self.height,
            pixfmt: self.pixfmt@,
            stride: self.stride,
        }
    }
}

impl Clone for ImageFormat {
    fn clone(&self) -> (r: ImageFormat)
        ensures
            r == *self,
    {
        ImageFormat {
            width: self.width,
            height: self.height,
            pixfmt: self.pixfmt.clone(),
            stride: self.stride,
        }
    }
}

impl ImageFormat {
    /// A format of the given size and encoding.
    pub fn new(width: u32, height: u32, pixfmt: PixelFormat) -> (format: ImageFormat)
        ensures
            format == (ImageFormat { width, height, pixfmt, stride: None }),
    {
        ImageFormat { width, height, pixfmt, stride: None }
    }
}

} // verus!
