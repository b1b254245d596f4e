//! The pixel grid of the screen and the rectangular tiles it is cut into.

use crate::data_bus::DataWriter;
use vstd::prelude::*;

verus! {

/// The size of the screen, in pixels.
#[derive(Clone, Copy, Debug, PartialEq, Eq)]
pub struct Image {
    pub width: usize,
    pub height: usize,
}

impl Image {
    pub fn new(width: usize, height: usize) -> (image: Image)
        ensures
            image.width == width,
            image.height == height,
    {
        Image { width, height }
    }
}

/// One tile of a render: a rectangle of the screen, the size of the screen
/// it was cut from, and the writer through which its pixels leave.
#[verifier::reject_recursive_types(T)]
pub struct SubImage<T> {
    pub x: usize,
    pub y: usize,
    pub screen_width: usize,
    pub screen_height: usize,
    pub width: usize,
    pub height: usize,
    pub writer: DataWriter<T>,
}

impl<T> SubImage<T> {
    /// Whether the screen pixel in column `x` of row `y` belongs to this tile.
    pub open spec fn contains(self, x: int, y: int) -> bool {
        self.x <= x < self.x + self.width && self.y <= y < self.y + self.height
    }
}

} // verus!
