//! The scalar point record the tour optimizer consumes, and the section
//! buffer that collects generated points and line segments.

use vstd::prelude::*;

verus! {

/// One generated dot: a 2-D position and the diameter to deposit there.
#[derive(Debug, Clone, Copy)]
pub struct Point<T> {
    pub x: T,
    pub y: T,
    pub size: T,
}

impl<T: Copy> Point<T> {
    /// Builds a dot from its position and size.
    pub fn new(x: T, y: T, size: T) -> (r: Point<T>)
        ensures
            r.x == x,
            r.y == y,
            r.size == size,
    {
        Point { x, y, size }
    }
}

/// The points and line segments one generation run records.
#[derive(Debug, Clone)]
pub struct SectionBuffer<T> {
    pub points: Vec<Point<T>>,
    pub edges: Vec<(usize, usize)>,
}

impl<T: Copy> SectionBuffer<T> {
    /// Creates an empty buffer.
    pub fn new() -> (r: SectionBuffer<T>)
        ensures
            r.points@.len() == 0,
            r.edges@.len() == 0,
    {
        SectionBuffer { points: Vec::new(), edges: Vec::new() }
    }

    /// Records one point.
    pub fn push_point(&mut self, p: Point<T>)
        ensures
            final(self).points@ == old(self).points@.push(p),
            final(self).edges@ == old(self).edges@,
    {
        self.points.push(p)
    }
}

} // verus!
