//! The in-memory raster the screening engine samples: an 8-bit
//! single-channel image held as plain values, row-major.

use vstd::prelude::*;

use crate::screening::ScreenError;

verus! {

/// An 8-bit single-channel raster: `data[y * width + x]` is the intensity
/// of the pixel at `(x, y)`.
#[derive(Debug, Clone)]
pub struct Cube {
    pub width: usize,
    pub height: usize,
    pub data: Vec<u8>,
}

impl Cube {
    /// One intensity per pixel.
    pub open spec fn wf(&self) -> bool {
        self.data@.len() == self.width * self.height
    }

    /// The intensity at `(x, y)`.
    pub open spec fn spec_sample(&self, x: int, y: int) -> u8 {
        self.data@[y * self.width + x]
    }

    /// Wraps decoded single-channel bytes as a raster, refusing a byte
    /// count that does not match the dimensions.
    pub fn from_image(width: usize, height: usize, data: Vec<u8>) -> (r: Result<Cube, ScreenError>)
        requires
            width * height <= usize::MAX,
        ensures
            match r {
                Ok(c) => {
                    &&& data@.len() == width * height
                    &&& c.wf()
                    &&& c.width == width
                    &&& c.height == height
                    &&& c.data@ == data@
                },
                Err(e) => e == ScreenError::ImageDecodeFailed && data@.len() != width * height,
            },
    {
        if data.len() != width * height {
            return Err(ScreenError::ImageDecodeFailed);
        }
        Ok(Cube { width, height, data })
    }

    /// Reads the pixel at `(x, y)`: the nearest-neighbour sample the host
    /// addresses by integer pixel coordinates.
    pub fn sample(&self, x: usize, y: usize) -> (r: u8)
        requires
            self.wf(),
            x < self.width,
            y < self.height,
        ensures
            r == self.spec_sample(x as int, y as int),
    {
        proof {
            assert(y * self.width + x < self.width * self.height && 0 <= y * self.width) by (nonlinear_arith)
                requires
                    x < self.width,
                    y < self.height,
                    0 <= x,
                    0 <= y,
            ;
            broadcast use vstd::std_specs::vec::axiom_spec_len;

            assert(vstd::std_specs::vec::spec_vec_len(&self.data) == self.data@.len());
        }
        self.data[y * self.width + x]
    }
}

} // verus!
