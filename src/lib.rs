//! Stroke capture and undo model of a freehand annotation overlay.
//!
//! Positions and widths are held as the bit patterns of IEEE-754 single
//! precision numbers, and compared as such numbers compare.

pub mod point;
pub mod stroke;
pub mod canvas;
pub mod overlay;
