//! The rendered screen: dimensions plus the finished RGBA buffer.
//!
//! A host that owns the computation reads the buffer back through the
//! accessors; the type guarantees that the buffer length always matches the
//! dimensions.

use vstd::prelude::*;

verus! {

/// A finished frame: `width * height` pixels of 4 bytes each.
pub struct Screen {
    width: u32,
    height: u32,
    pixels: Vec<u8>,
}

impl Screen {
    /// The width in pixels.
    pub closed spec fn spec_width(self) -> u32 {
        self.width
    }

    /// The height in pixels.
    pub closed spec fn spec_height(self) -> u32 {
        self.height
    }

    /// The RGBA bytes, row-major.
    pub closed spec fn spec_pixels(self) -> Seq<u8> {
        self.pixels@
    }

    /// The buffer length matches the dimensions: 4 bytes per pixel.
    pub open spec fn wf(self) -> bool {
        self.spec_pixels().len() == (self.spec_width() as int) * (self.spec_height() as int) * 4
    }

    /// Package a finished buffer with its dimensions.
    pub fn new(width: u32, height: u32, pixels: Vec<u8>) -> (s: Screen)
        requires
            pixels@.len() == (width as int) * (height as int) * 4,
        ensures
            s.wf(),
            s.spec_width() == width,
            s.spec_height() == height,
            s.spec_pixels() == pixels@,
    {
        Screen { width, height, pixels }
    }

    /// The height in pixels.
    pub fn height(&self) -> (h: u32)
        ensures
            h == self.spec_height(),
    {
        self.height
    }

    /// The width in pixels.
    pub fn width(&self) -> (w: u32)
        ensures
            w == self.spec_width(),
    {
        self.width
    }

    /// A read-only view of the RGBA buffer.
    pub fn pixels(&self) -> (p: &Vec<u8>)
        ensures
            p@ == self.spec_pixels(),
    {
        &self.pixels
    }
}

} // verus!
