//! The output pixel buffer: a fixed 320x240 frame, 4 bytes per pixel,
//! row-major, origin top-left. The color channels sit in the first three
//! bytes of each pixel; the fourth byte is unused and stays opaque.

use vstd::prelude::*;
use crate::color::Color;

verus! {

/// Output width in pixels.
pub const WIDTH: usize = 320;

/// Output height in pixels.
pub const HEIGHT: usize = 240;

/// Total buffer size: 4 bytes per pixel.
pub const BUFFER_LEN: usize = 320 * 240 * 4;

/// The finished frame handed to the presentation layer.
#[derive(Clone, Copy, Debug)]
pub struct FrameBuffer {
    pub data: [u8; BUFFER_LEN],
}

/// The buffer contents after writing `c` at pixel (x, y): the three channel
/// bytes change, the fourth byte of the pixel and every other byte stay.
/// Coordinates outside the frame leave the buffer untouched.
pub open spec fn spec_write_pixel(s: Seq<u8>, x: int, y: int, c: Color) -> Seq<u8> {
    if 0 <= x < 320 && 0 <= y < 240 {
        let p = (x + y * 320) * 4;
        s.update(p, c.r).update(p + 1, c.g).update(p + 2, c.b)
    } else {
        s
    }
}

impl FrameBuffer {
    /// A fresh frame with every byte opaque white.
    pub fn new() -> (r: Self)
        ensures
            r.data@ =~= Seq::new(BUFFER_LEN as nat, |i: int| 255u8),
    {
        let r = FrameBuffer { data: [255u8; BUFFER_LEN] };
        r
    }

    /// The raw bytes, for scan-out.
    pub fn data(&self) -> (r: &[u8])
        ensures
            r@ == self.data@,
    {
        self.data.as_slice()
    }

    /// The raw bytes, mutably, for a presentation layer that fills the
    /// frame itself.
    pub fn data_mut(&mut self) -> (r: &mut [u8])
        ensures
            r@ == old(self).data@,
            final(self).data@ == final(r)@,
    {
        vstd::array::ref_mut_array_unsizing_coercion(&mut self.data)
    }

    /// Write one pixel's color; writes outside the frame bounds are
    /// silently dropped.
    pub fn write_pixel(&mut self, x: usize, y: usize, color: Color)
        ensures
            final(self).data@ == spec_write_pixel(old(self).data@, x as int, y as int, color),
    {
        if x >= WIDTH || y >= HEIGHT {
            return ;
        }

        let start_pos = (x + y * WIDTH) * 4;
        self.data[start_pos] = color.r;
        self.data[start_pos + 1] = color.g;
        self.data[start_pos + 2] = color.b;
    }
}

} // verus!
