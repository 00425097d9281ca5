//! How an image is resized and padded before it goes to the detector.

use vstd::prelude::*;
use crate::shape::Shape;

verus! {

/// The settings of a letterbox: a plain record of six values.
pub struct LetterboxView {
    pub shape: Shape,
    pub scale_up: bool,
    pub auto: bool,
    pub stride: u32,
    pub scale_fill: bool,
    pub color: [u8; 3],
}

/// The settings that a builder starts from: a square of 640 pixels, scaling
/// up allowed, padding to a multiple of the stride 64, no stretching, and a
/// grey border.
pub open spec fn default_letterbox() -> LetterboxView {
    LetterboxView {
        shape: Shape::Square(640),
        scale_up: true,
        auto: true,
        stride: 64,
        scale_fill: false,
        color: [114u8, 114u8, 114u8],
    }
}

/// Collects the settings of a letterbox one by one.
#[derive(Debug, Clone, Copy)]
pub struct LetterboxOptionsBuilder {
    shape: Shape,
    scale_up: bool,
    auto: bool,
    stride: u32,
    scale_fill: bool,
    color: [u8; 3],
}

impl View for LetterboxOptionsBuilder {
    type V = LetterboxView;

    closed spec fn view(&self) -> LetterboxView {
        LetterboxView {
            shape: self.shape,
            scale_up: self.scale_up,
            auto: self.auto,
            stride: self.stride,
            scale_fill: self.scale_fill,
            color: self.color,
        }
    }
}

impl Default for LetterboxOptionsBuilder {
    fn default() -> (r: Self)
        ensures
            r@ == default_letterbox(),
    {
        LetterboxOptionsBuilder {
            shape: Shape::Square(640),
            scale_up: true,
            auto: true,
            stride: 64,
            scale_fill: false,
            color: [114, 114, 114],
        }
    }
}

impl LetterboxOptionsBuilder {
    /// Sets the shape that the image is fitted into.
    pub fn shape(&mut self, shape: Shape) -> (r: &mut Self)
        ensures
            *final(self) == *final(r),
            r@ == (LetterboxView { shape: shape, ..old(self)@ }),
    {
        self.shape = shape;
        self
    }

    /// Sets whether an image smaller than the shape is enlarged.
    pub fn scale_up(&mut self, scale_up: bool) -> (r: &mut Self)
        ensures
            *final(self) == *final(r),
            r@ == (LetterboxView { scale_up: scale_up, ..old(self)@ }),
    {
        self.scale_up = scale_up;
        self
    }

    /// Sets whether the padding is cut down to the least that reaches a
    /// multiple of the stride.
    pub fn auto(&mut self, auto: bool) -> (r: &mut Self)
        ensures
            *final(self) == *final(r),
            r@ == (LetterboxView { auto: auto, ..old(self)@ }),
    {
        self.auto = auto;
        self
    }

    /// Sets the stride of the model.
    pub fn stride(&mut self, stride: u32) -> (r: &mut Self)
        ensures
            *final(self) == *final(r),
            r@ == (LetterboxView { stride: stride, ..old(self)@ }),
    {
        self.stride = stride;
        self
    }

    /// Sets whether the image is stretched to the shape, without padding.
    pub fn scale_fill(&mut self, scale_fill: bool) -> (r: &mut Self)
        ensures
            *final(self) == *final(r),
            r@ == (LetterboxView { scale_fill: scale_fill, ..old(self)@ }),
    {
        self.scale_fill = scale_fill;
        self
    }

    /// Sets the color of the padding, as red, green and blue.
    pub fn color(&mut self, color: [u8; 3]) -> (r: &mut Self)
        ensures
            *final(self) == *final(r),
            r@ == (LetterboxView { color: color, ..old(self)@ }),
    {
        self.color = color;
        self
    }

    /// The options that the builder has collected.
    pub fn build(&self) -> (r: LetterboxOptions)
        ensures
            r@ == self@,
    {
        LetterboxOptions {
            shape: self.shape,
            scale_up: self.scale_up,
            auto: self.auto,
            stride: self.stride,
            scale_fill: self.scale_fill,
            color: self.color,
        }
    }
}

/// The settings of a letterbox.
#[derive(Debug, Clone, Copy)]
pub struct LetterboxOptions {
    shape: Shape,
    scale_up: bool,
    auto: bool,
    stride: u32,
    scale_fill: bool,
    color: [u8; 3],
}

impl View for LetterboxOptions {
    type V = LetterboxView;

    closed spec fn view(&self) -> LetterboxView {
        LetterboxView {
            shape: self.shape,
            scale_up: self.scale_up,
            auto: self.auto,
            stride: self.stride,
            scale_fill: self.scale_fill,
            color: self.color,
        }
    }
}

impl LetterboxOptions {
    /// A builder that starts from the default settings.
    pub fn builder() -> (r: LetterboxOptionsBuilder)
        ensures
            r@ == default_letterbox(),
    {
        LetterboxOptionsBuilder::default()
    }

    /// The shape that the image is fitted into.
    pub fn shape(&self) -> (r: Shape)
        ensures
            r == self@.shape,
    {
        self.shape
    }

    /// Whether an image smaller than the shape is enlarged.
    pub fn scale_up(&self) -> (r: bool)
        ensures
            r == self@.scale_up,
    {
        self.scale_up
    }

    /// Whether the padding is cut down to the least that reaches a multiple
    /// of the stride.
    pub fn auto(&self) -> (r: bool)
        ensures
            r == self@.auto,
    {
        self.auto
    }

    /// The stride of the model.
    pub fn stride(&self) -> (r: u32)
        ensures
            r == self@.stride,
    {
        self.stride
    }

    /// Whether the image is stretched to the shape, without padding.
    pub fn scale_fill(&self) -> (r: bool)
        ensures
            r == self@.scale_fill,
    {
        self.scale_fill
    }

    /// The color of the padding, as red, green and blue.
    pub fn color(&self) -> (r: [u8; 3])
        ensures
            r == self@.color,
    {
        self.color
    }
}

} // verus!
