//! Core data types: the transport record, the raw pixel buffer, and the
//! error kinds that every operation of the library can surface.

use vstd::prelude::*;

verus! {

/// The transport record handed to the front-end: compressed image bytes in
/// base-64 together with a name, the payload's MIME identifier and the pixel
/// dimensions.
pub struct Image {
    pub name: String,
    pub content_type: String,
    pub content: String,
    pub width: u32,
    pub height: u32,
}

impl Image {
    /// Packs the five fields of a transport record, unchanged.
    pub fn new(
        name: String,
        content_type: String,
        content: String,
        width: u32,
        height: u32,
    ) -> (img: Image)
        ensures
            img.name == name,
            img.content_type == content_type,
            img.content == content,
            img.width == width,
            img.height == height,
    {
        Image { name, content_type, content, width, height }
    }
}

/// An uncompressed RGBA frame: one byte per channel, four channels per pixel,
/// row-major, top-down.
pub struct RawFrame {
    pub pixels: Vec<u8>,
    pub width: u32,
    pub height: u32,
}

impl RawFrame {
    /// A well-formed frame holds exactly `width * height * 4` pixel bytes and
    /// has at least one pixel in each direction.
    pub open spec fn wf(&self) -> bool {
        &&& self.pixels@.len() as int == (self.width as int) * (self.height as int) * 4
        &&& self.width >= 1
        &&& self.height >= 1
    }

    /// Decides well-formedness at run time.
    pub fn check_wf(&self) -> (b: bool)
        ensures
            b == self.wf(),
    {
        proof {
            assert((self.width as int) * (self.height as int) * 4
                < 0x100000000000000000000000000000000int) by (nonlinear_arith)
                requires
                    self.width < 0x100000000,
                    self.height < 0x100000000,
            ;
        }
        let need: u128 = (self.width as u128) * (self.height as u128) * 4;
        self.width >= 1 && self.height >= 1 && (self.pixels.len() as u128) == need
    }

    /// Builds a frame after checking that the buffer length matches the
    /// declared dimensions; rejects empty dimensions and mismatched lengths.
    pub fn new(pixels: Vec<u8>, width: u32, height: u32) -> (r: Option<RawFrame>)
        ensures
            r matches Some(f) ==> f.wf() && f.pixels == pixels && f.width == width
                && f.height == height,
            (r is Some) <==> (pixels@.len() as int == (width as int) * (height as int) * 4
                && width >= 1 && height >= 1),
    {
        let frame = RawFrame { pixels, width, height };
        if frame.check_wf() {
            Some(frame)
        } else {
            None
        }
    }
}

/// The error kinds that the capture and transcoding operations report.
/// `CaptureFailed` carries the 1-based index of the display that could not be
/// read.
#[derive(Clone, Copy, Debug, PartialEq, Eq, Structural)]
pub enum ApiError {
    /// The platform refused to list the attached displays.
    EnumerationFailed,
    /// A specific display could not be read; the field is its 1-based index.
    CaptureFailed(usize),
    /// A base-64 payload was malformed.
    DecodeFailed,
    /// The decoded byte count disagrees with the declared dimensions.
    DimensionMismatch,
    /// The codec library refused the input.
    EncodeFailed,
    /// A cross-boundary record was missing a field or held an unknown one.
    BadRequest,
}

} // verus!
