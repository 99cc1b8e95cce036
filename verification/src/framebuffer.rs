//! FrameBuffer.
//!
//! The pixel surface the kernel lends to a loaded application for the
//! duration of one service call: a byte buffer of two bytes per pixel,
//! high colour byte first, rows laid out top to bottom.

use vstd::prelude::*;

verus! {

/// The buffer offset of a pixel's first byte.
pub open spec fn pixel_offset(width: u8, x: u8, y: u8) -> int {
    (x + y * width) * 2
}

/// A rectangular pixel surface of `width * height` pixels, two bytes
/// per pixel.
pub struct FrameBuffer {
    data: Vec<u8>,
    width: u8,
    height: u8,
}

impl FrameBuffer {
    /// The raw pixel bytes.
    pub closed spec fn bytes(self) -> Seq<u8> {
        self.data@
    }

    pub closed spec fn spec_width(self) -> u8 {
        self.width
    }

    pub closed spec fn spec_height(self) -> u8 {
        self.height
    }

    pub open spec fn wf(self) -> bool {
        self.bytes().len() == self.spec_width() * self.spec_height() * 2
    }

    /// A black (all zero) surface.
    pub fn new(width: u8, height: u8) -> (fb: FrameBuffer)
        ensures
            fb.wf(),
            fb.spec_width() == width,
            fb.spec_height() == height,
            forall|i: int| 0 <= i < fb.bytes().len() ==> fb.bytes()[i] == 0u8,
    {
        proof {
            assert(width * height * 2 <= 130050) by (nonlinear_arith)
                requires
                    width <= 255,
                    height <= 255,
            ;
        }
        let len: usize = width as usize * height as usize * 2;
        let mut data: Vec<u8> = Vec::new();
        let mut i: usize = 0;
        while i < len
            invariant
                i <= len,
                data@.len() == i,
                forall|j: int| 0 <= j < i ==> data@[j] == 0u8,
            decreases len - i,
        {
            data.push(0u8);
            i = i + 1;
        }
        FrameBuffer { data, width, height }
    }

    pub fn width(&self) -> (w: u8)
        ensures
            w == self.spec_width(),
    {
        self.width
    }

    pub fn height(&self) -> (h: u8)
        ensures
            h == self.spec_height(),
    {
        self.height
    }

    /// Write one pixel, high colour byte first; a pixel outside the
    /// surface is ignored, and whether it was drawn is returned.
    pub fn draw_pixel(&mut self, x: u8, y: u8, colour: u16) -> (drawn: bool)
        requires
            old(self).wf(),
        ensures
            final(self).wf(),
            final(self).spec_width() == old(self).spec_width(),
            final(self).spec_height() == old(self).spec_height(),
            drawn == (x < old(self).spec_width() && y < old(self).spec_height()),
            drawn ==> final(self).bytes() == old(self).bytes().update(
                pixel_offset(old(self).spec_width(), x, y),
                (colour / 256) as u8,
            ).update(pixel_offset(old(self).spec_width(), x, y) + 1, (colour % 256) as u8),
            !drawn ==> final(self).bytes() == old(self).bytes(),
    {
        if x < self.width && y < self.height {
            proof {
                assert(y * self.width <= 65025 && (x + y * self.width) * 2 + 1 < self.width
                    * self.height * 2 && self.width * self.height * 2 <= 130050)
                    by (nonlinear_arith)
                    requires
                        x < self.width,
                        y < self.height,
                        self.width <= 255,
                        self.height <= 255,
                ;
            }
            let idx: usize = (x as usize + y as usize * self.width as usize) * 2;
            self.data[idx] = (colour / 256) as u8;
            self.data[idx + 1] = (colour % 256) as u8;
            true
        } else {
            false
        }
    }

    /// The raw bytes of the surface.
    pub fn as_bytes(&self) -> (r: &[u8])
        ensures
            r@ == self.bytes(),
    {
        self.data.as_slice()
    }
}

} // verus!
