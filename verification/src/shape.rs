//! The shape of the image that a model takes.

use vstd::prelude::*;

verus! {

/// The size of an image, in pixels: a square of one side, or a rectangle of a
/// width and a height.
#[derive(Debug, Clone, Copy, PartialEq, Eq, Structural)]
pub enum Shape {
    Square(u32),
    Rectangular(u32, u32),
}

impl Shape {
    /// The width of the shape.
    pub open spec fn spec_width(&self) -> u32 {
        match *self {
            Shape::Square(side) => side,
            Shape::Rectangular(width, _) => width,
        }
    }

    /// The height of the shape.
    pub open spec fn spec_height(&self) -> u32 {
        match *self {
            Shape::Square(side) => side,
            Shape::Rectangular(_, height) => height,
        }
    }

    /// Retrieves the width of the shape.
    #[verifier::when_used_as_spec(spec_width)]
    pub fn width(&self) -> (r: u32)
        ensures
            r == self.spec_width(),
    {
        match *self {
            Shape::Square(side) => side,
            Shape::Rectangular(width, _height) => width,
        }
    }

    /// Retrieves the height of the shape.
    #[verifier::when_used_as_spec(spec_height)]
    pub fn height(&self) -> (r: u32)
        ensures
            r == self.spec_height(),
    {
        match *self {
            Shape::Square(side) => side,
            Shape::Rectangular(_width, height) => height,
        }
    }
}

} // verus!
