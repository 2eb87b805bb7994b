use vstd::prelude::*;
use crate::canvas::{Canvas, CanvasView};
use crate::point::Pos;
use crate::stroke::{Rgba, Stroke, StrokeStyle, StrokeView};

verus! {

/// Bit pattern of 3.0, the width of the first strokes.
pub const DEFAULT_WIDTH: u32 = 0x4040_0000;

/// The style of the first strokes: width 3 and an opaque green.
pub open spec fn default_style() -> StrokeStyle {
    StrokeStyle { width: DEFAULT_WIDTH, color: Rgba { r: 25, g: 200, b: 100, a: 255 } }
}

/// The mathematical value of the overlay's state.
pub struct OverlayView {
    pub canvas: CanvasView,
    pub current_style: StrokeStyle,
    pub is_drawing: bool,
}

impl OverlayView {
    /// A press starts a new stroke when no stroke is being drawn (or when the
    /// canvas has no stroke left to continue).
    pub open spec fn starts_stroke(self) -> bool {
        !self.is_drawing || self.canvas.strokes.len() == 0
    }

    /// While drawing, a press at the place of the active stroke's last point
    /// adds nothing.
    pub open spec fn repeats_last_point(self, p: Pos) -> bool {
        let last = self.canvas.strokes.last();
        last.points.len() > 0 && last.points.last().same_place(p)
    }

    /// The state after one frame with the pointer pressed at `p`
    /// (`Some(p)`) or not pressed (`None`).
    pub open spec fn frame(self, pointer: Option<Pos>) -> OverlayView {
        match pointer {
            None => OverlayView { canvas: self.canvas.retain_valid(), is_drawing: false, ..self },
            Some(p) => if self.starts_stroke() {
                OverlayView {
                    canvas: self.canvas.push_stroke(
                        StrokeView { style: self.current_style, points: seq![p] },
                    ),
                    is_drawing: true,
                    ..self
                }
            } else if self.repeats_last_point(p) {
                self
            } else {
                let last = self.canvas.strokes.last();
                OverlayView {
                    canvas: CanvasView {
                        strokes: self.canvas.strokes.update(
                            self.canvas.strokes.len() - 1,
                            StrokeView { points: last.points.push(p), ..last },
                        ),
                        ..self.canvas
                    },
                    ..self
                }
            },
        }
    }

    /// Whether that frame added a point, so that the drawing must be shown
    /// again.
    pub open spec fn frame_adds_point(self, pointer: Option<Pos>) -> bool {
        match pointer {
            None => false,
            Some(p) => self.starts_stroke() || !self.repeats_last_point(p),
        }
    }
}

/// The canvas together with the style of the next stroke and whether a
/// stroke is being drawn. While drawing, the active stroke is the canvas's
/// newest stroke.
pub struct Overlay {
    pub canvas: Canvas,
    pub current_style: StrokeStyle,
    pub is_drawing: bool,
}

impl View for Overlay {
    type V = OverlayView;

    open spec fn view(&self) -> OverlayView {
        OverlayView {
            canvas: self.canvas@,
            current_style: self.current_style,
            is_drawing: self.is_drawing,
        }
    }
}

impl Overlay {
    /// An empty canvas, not drawing, with the default style.
    pub fn new() -> (r: Overlay)
        ensures
            r@.canvas.strokes.len() == 0,
            r@.canvas.redo_buffer.len() == 0,
            r@.current_style == default_style(),
            !r@.is_drawing,
    {
        Overlay {
            canvas: Canvas::new(),
            current_style: StrokeStyle {
                width: DEFAULT_WIDTH,
                color: Rgba { r: 25, g: 200, b: 100, a: 255 },
            },
            is_drawing: false,
        }
    }

    /// Runs one frame of input capture: `pointer` is where the pointer is
    /// pressed, or `None` when it is not pressed (or has no position).
    /// Returns whether a point was added.
    pub fn frame(&mut self, pointer: Option<Pos>) -> (added: bool)
        ensures
            final(self)@ == old(self)@.frame(pointer),
            added == old(self)@.frame_adds_point(pointer),
    {
        match pointer {
            None => {
                self.canvas.retain_valid();
                self.is_drawing = false;
                false
            },
            Some(p) => {
                if !self.is_drawing || self.canvas.strokes.len() == 0 {
                    let mut s = Stroke::new(self.current_style);
                    s.points.push(p);
                    assert(s@.points =~= seq![p]);
                    self.canvas.push_stroke(s);
                    self.is_drawing = true;
                    true
                } else {
                    let n = self.canvas.strokes.len();
                    let k = self.canvas.strokes[n - 1].points.len();
                    if k > 0 && self.canvas.strokes[n - 1].points[k - 1].same_place_as(&p) {
                        false
                    } else {
                        let ghost before = self.canvas@;
                        match self.canvas.strokes.pop() {
                            Some(mut s) => {
                                s.points.push(p);
                                self.canvas.strokes.push(s);
                            },
                            None => {},
                        }
                        assert(self.canvas@.strokes =~= before.strokes.update(
                            n - 1,
                            StrokeView { points: before.strokes.last().points.push(p), ..before.strokes.last() },
                        ));
                        assert(self.canvas@.redo_buffer =~= before.redo_buffer);
                        true
                    }
                }
            },
        }
    }

    /// Sets the style of strokes started from now on; the strokes already
    /// drawn keep theirs.
    pub fn set_style(&mut self, style: StrokeStyle)
        ensures
            final(self)@ == (OverlayView { current_style: style, ..old(self)@ }),
    {
        self.current_style = style;
    }
}

} // verus!
