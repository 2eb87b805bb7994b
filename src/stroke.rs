use vstd::prelude::*;
use crate::point::{is_zero, is_zero_bits, Pos};

verus! {

/// A colour as red, green, blue and alpha bytes.
#[derive(Clone, Copy, Debug, PartialEq, Eq)]
pub struct Rgba {
    pub r: u8,
    pub g: u8,
    pub b: u8,
    pub a: u8,
}

/// How a stroke is drawn: its width (bit pattern of a single precision
/// number; zero draws nothing) and its colour.
#[derive(Clone, Copy, Debug, PartialEq, Eq)]
pub struct StrokeStyle {
    pub width: u32,
    pub color: Rgba,
}

/// One continuous freehand line: a style and the points in drawing order.
#[derive(Clone, Debug, PartialEq)]
pub struct Stroke {
    pub style: StrokeStyle,
    pub points: Vec<Pos>,
}

/// The mathematical value of a stroke.
pub struct StrokeView {
    pub style: StrokeStyle,
    pub points: Seq<Pos>,
}

impl StrokeView {
    /// A finished stroke is kept only with more than one point and a width
    /// other than zero.
    pub open spec fn is_kept(self) -> bool {
        self.points.len() > 1 && !is_zero_bits(self.style.width)
    }
}

/// `is_kept` as a predicate, for filtering sequences of strokes.
pub open spec fn kept() -> spec_fn(StrokeView) -> bool {
    |s: StrokeView| s.is_kept()
}

impl View for Stroke {
    type V = StrokeView;

    open spec fn view(&self) -> StrokeView {
        StrokeView { style: self.style, points: self.points@ }
    }
}

impl Stroke {
    /// A stroke with the given style and no points yet.
    pub fn new(style: StrokeStyle) -> (r: Stroke)
        ensures
            r@ == (StrokeView { style, points: Seq::empty() }),
    {
        Stroke { style, points: Vec::new() }
    }

    /// Whether this stroke survives being finished.
    pub fn is_kept(&self) -> (r: bool)
        ensures
            r == self@.is_kept(),
    {
        self.points.len() > 1 && !is_zero(self.style.width)
    }
}

} // verus!
