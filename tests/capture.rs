use screen_painter::overlay::{Overlay, DEFAULT_WIDTH};
use screen_painter::point::{is_nan, is_zero, number_eq, Pos};
use screen_painter::stroke::{Rgba, StrokeStyle};

fn pos(x: f32, y: f32) -> Pos {
    Pos::new(x.to_bits(), y.to_bits())
}

#[test]
fn press_move_duplicate_release_keeps_two_points() {
    let mut o = Overlay::new();
    assert!(o.frame(Some(pos(0.0, 0.0))));
    assert!(o.frame(Some(pos(1.0, 0.0))));
    assert!(!o.frame(Some(pos(1.0, 0.0))));
    assert!(!o.frame(None));
    assert_eq!(o.canvas.strokes.len(), 1);
    assert_eq!(o.canvas.strokes[0].points, vec![pos(0.0, 0.0), pos(1.0, 0.0)]);
    assert!(!o.is_drawing);
}

#[test]
fn single_point_press_is_discarded() {
    let mut o = Overlay::new();
    assert!(o.frame(Some(pos(0.0, 0.0))));
    assert_eq!(o.canvas.strokes.len(), 1);
    o.frame(None);
    assert_eq!(o.canvas.strokes.len(), 0);
    assert!(o.canvas.redo_buffer.is_empty());
}

#[test]
fn new_overlay_has_default_style() {
    let o = Overlay::new();
    assert_eq!(DEFAULT_WIDTH, 3.0f32.to_bits());
    assert_eq!(o.current_style.width, 3.0f32.to_bits());
    assert_eq!(o.current_style.color, Rgba { r: 25, g: 200, b: 100, a: 255 });
    assert!(!o.is_drawing);
    assert!(o.canvas.strokes.is_empty());
}

#[test]
fn new_press_after_release_starts_new_stroke() {
    let mut o = Overlay::new();
    o.frame(Some(pos(0.0, 0.0)));
    o.frame(Some(pos(2.0, 0.0)));
    o.frame(None);
    o.frame(Some(pos(2.0, 0.0)));
    o.frame(Some(pos(2.0, 5.0)));
    o.frame(None);
    assert_eq!(o.canvas.strokes.len(), 2);
    assert_eq!(o.canvas.strokes[1].points, vec![pos(2.0, 0.0), pos(2.0, 5.0)]);
}

#[test]
fn style_change_applies_to_next_stroke_only() {
    let mut o = Overlay::new();
    o.frame(Some(pos(0.0, 0.0)));
    o.frame(Some(pos(1.0, 0.0)));
    o.frame(None);
    let wide = StrokeStyle { width: 12.5f32.to_bits(), color: Rgba { r: 255, g: 0, b: 0, a: 255 } };
    o.set_style(wide);
    o.frame(Some(pos(0.0, 1.0)));
    o.frame(Some(pos(1.0, 1.0)));
    o.frame(None);
    assert_eq!(o.canvas.strokes[0].style.width, 3.0f32.to_bits());
    assert_eq!(o.canvas.strokes[1].style, wide);
}

#[test]
fn zero_width_stroke_is_discarded_on_release() {
    let mut o = Overlay::new();
    o.set_style(StrokeStyle { width: 0.0f32.to_bits(), color: Rgba { r: 0, g: 0, b: 0, a: 255 } });
    o.frame(Some(pos(0.0, 0.0)));
    o.frame(Some(pos(4.0, 4.0)));
    assert_eq!(o.canvas.strokes.len(), 1);
    o.frame(None);
    assert!(o.canvas.strokes.is_empty());
}

#[test]
fn signed_zeros_are_the_same_place() {
    let mut o = Overlay::new();
    o.frame(Some(pos(0.0, 0.0)));
    assert!(!o.frame(Some(pos(-0.0, 0.0))));
    assert_eq!(o.canvas.strokes[0].points.len(), 1);
}

#[test]
fn nan_position_is_never_a_repeat() {
    let mut o = Overlay::new();
    o.frame(Some(pos(f32::NAN, 0.0)));
    assert!(o.frame(Some(pos(f32::NAN, 0.0))));
    assert_eq!(o.canvas.strokes[0].points.len(), 2);
}

#[test]
fn undo_while_drawing_continues_previous_stroke() {
    let mut o = Overlay::new();
    o.frame(Some(pos(0.0, 0.0)));
    o.frame(Some(pos(1.0, 0.0)));
    o.frame(None);
    o.frame(Some(pos(5.0, 5.0)));
    assert!(o.canvas.undo());
    o.frame(Some(pos(6.0, 5.0)));
    assert_eq!(o.canvas.strokes.len(), 1);
    assert_eq!(o.canvas.strokes[0].points, vec![pos(0.0, 0.0), pos(1.0, 0.0), pos(6.0, 5.0)]);
}

#[test]
fn drawing_on_emptied_canvas_starts_new_stroke() {
    let mut o = Overlay::new();
    o.frame(Some(pos(0.0, 0.0)));
    o.canvas.clear();
    assert!(o.frame(Some(pos(1.0, 1.0))));
    assert_eq!(o.canvas.strokes.len(), 1);
    assert_eq!(o.canvas.strokes[0].points, vec![pos(1.0, 1.0)]);
}

#[test]
fn number_bits_compare_as_floats() {
    assert!(is_nan(f32::NAN.to_bits()));
    assert!(!is_nan(f32::INFINITY.to_bits()));
    assert!(is_zero((-0.0f32).to_bits()));
    assert!(!is_zero(1.0e-40f32.to_bits()));
    assert!(number_eq(0.0f32.to_bits(), (-0.0f32).to_bits()));
    assert!(number_eq(2.5f32.to_bits(), 2.5f32.to_bits()));
    assert!(!number_eq(f32::NAN.to_bits(), f32::NAN.to_bits()));
    assert!(!number_eq(1.0f32.to_bits(), 2.0f32.to_bits()));
}
