//! Rectangular image regions and the splitter that halves them for
//! divide-and-conquer traversal: a region splits along its taller side
//! until it is a single cell.

use vstd::prelude::*;

verus! {

/// A rectangular region of an image, in pixels.
#[derive(Debug, Clone, Copy, PartialEq, Eq, Structural)]
pub struct ImageBounds {
    pub x: u32,
    pub y: u32,
    pub width: u32,
    pub height: u32,
}

impl ImageBounds {
    /// A sub-region of this region: offset by `(x, y)` with the offsets
    /// saturating at the coordinate range, and the given dimensions.
    pub fn view(&self, x: u32, y: u32, width: u32, height: u32) -> (r: ImageBounds)
        ensures
            r.x == if self.x + x > u32::MAX {
                u32::MAX as int
            } else {
                self.x + x
            },
            r.y == if self.y + y > u32::MAX {
                u32::MAX as int
            } else {
                self.y + y
            },
            r.width == width,
            r.height == height,
    {
        let (x, y) = (self.x.saturating_add(x), self.y.saturating_add(y));
        ImageBounds { x, y, width, height }
    }
}

/// Splits a region in two: a region more than one pixel tall splits into a
/// top and bottom half at half its height; otherwise one more than one
/// pixel wide splits into a left and right half at half its width; a single
/// cell does not split. The two halves tile the region exactly.
pub fn splitter(r: ImageBounds) -> (s: (ImageBounds, Option<ImageBounds>))
    ensures
        r.height > 1 ==> {
            let pivot = r.height as int / 2;
            &&& s.0 == (ImageBounds { height: pivot as u32, ..r })
            &&& s.1 == Some(
                ImageBounds {
                    y: if r.y + pivot > u32::MAX {
                        u32::MAX
                    } else {
                        (r.y + pivot) as u32
                    },
                    height: (r.height - pivot) as u32,
                    ..r
                },
            )
            &&& s.0.height + s.1.unwrap().height == r.height
        },
        r.height <= 1 && r.width > 1 ==> {
            let pivot = r.width as int / 2;
            &&& s.0 == (ImageBounds { width: pivot as u32, ..r })
            &&& s.1 == Some(
                ImageBounds {
                    x: if r.x + pivot > u32::MAX {
                        u32::MAX
                    } else {
                        (r.x + pivot) as u32
                    },
                    width: (r.width - pivot) as u32,
                    ..r
                },
            )
            &&& s.0.width + s.1.unwrap().width == r.width
        },
        r.height <= 1 && r.width <= 1 ==> s == (r, None::<ImageBounds>),
{
    let (width, height) = (r.width, r.height);

    if height > 1 {
        let pivot = height / 2;
        let top = r.view(0, 0, width, pivot);
        let bottom = r.view(0, pivot, width, height - pivot);
        (top, Some(bottom))
    } else if width > 1 {
        let pivot = width / 2;
        let left = r.view(0, 0, pivot, height);
        let right = r.view(pivot, 0, width - pivot, height);
        (left, Some(right))
    } else {
        (r, None)
    }
}

} // verus!
