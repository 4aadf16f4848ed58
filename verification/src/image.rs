//! Frames: a pixel buffer with its format, borrowed from the backend or
//! owned.

use crate::format::ImageFormat;
use vstd::prelude::*;
use vstd::slice::slice_to_vec;

verus! {

/// The bytes of a frame and who owns them.
pub enum Pixels<'a> {
    /// The backend's own buffer, lent out.
    Borrowed(&'a [u8]),
    /// A buffer of the frame's own.
    Owned(Vec<u8>),
}

impl<'a> View for Pixels<'a> {
    type V = Seq<u8>;

    open spec fn view(&self) -> Seq<u8> {
        match *self {
            Pixels::Borrowed(bytes) => bytes@,
            Pixels::Owned(bytes) => bytes@,
        }
    }
}

/// A frame. It either borrows the backend's buffer, which costs no copy
/// and lasts as long as the borrow, or owns its bytes and lasts as long as
/// it is kept.
pub struct CowImage<'a> {
    pixels: Pixels<'a>,
    format: ImageFormat,
}

impl<'a> CowImage<'a> {
    /// The bytes of the frame.
    pub closed spec fn bytes(&self) -> Seq<u8> {
        self.pixels@
    }

    /// The frame owns its bytes.
    pub closed spec fn owned(&self) -> bool {
        self.pixels is Owned
    }

    /// The format of the frame.
    pub closed spec fn spec_format(&self) -> &ImageFormat {
        &self.format
    }

    /// A frame over `pixels`, in the given format.
    pub fn new(pixels: Pixels<'a>, format: ImageFormat) -> (image: CowImage<'a>)
        ensures
            image.format() == format,
            image.owned() == (pixels is Owned),
            image.bytes() == pixels@,
    {
        CowImage { pixels, format }
    }

    /// The format of the frame.
    #[verifier::when_used_as_spec(spec_format)]
    pub fn format(&self) -> (format: &ImageFormat)
        ensures
            format == self.spec_format(),
    {
        &self.format
    }

    /// Whether the frame owns its bytes.
    pub fn is_owned(&self) -> (r: bool)
        ensures
            r == self.owned(),
    {
        match &self.pixels {
            Pixels::Borrowed(_) => false,
            Pixels::Owned(_) => true,
        }
    }

    /// The bytes of the frame.
    pub fn as_bytes(&self) -> (bytes: &[u8])
        ensures
            bytes@ == self.bytes(),
    {
        match &self.pixels {
            Pixels::Borrowed(bytes) => bytes,
            Pixels::Owned(bytes) => bytes.as_slice(),
        }
    }

    /// The same frame with bytes of its own: a borrowed buffer is copied,
    /// an owned one is kept.
    pub fn into_owned(self) -> (image: CowImage<'static>)
        ensures
            image.owned(),
            image.bytes() == self.bytes(),
            image.format() == self.format(),
    {
        let CowImage { pixels, format } = self;
        let bytes = match pixels {
            Pixels::Borrowed(bytes) => slice_to_vec(bytes),
            Pixels::Owned(bytes) => bytes,
        };
        CowImage { pixels: Pixels::Owned(bytes), format }
    }
}

} // verus!
