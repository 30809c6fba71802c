//! The widget contract: a widget is anything that can render itself through
//! a painter's current viewport. Widgets are stateless with respect to
//! position; all placement and scrolling is supplied by the caller and
//! mediated by the painter's viewport stack, so one widget value can be drawn
//! at many places in a single frame.

use vstd::prelude::*;

use crate::writer::TerminalWriter;

verus! {

/// The axis and growth direction of a linear widget such as a scrollbar.
#[derive(Clone, Copy)]
pub enum Direction {
    UP,
    Down,
    Left,
    Right,
}

/// One side of a rectangular box.
#[derive(Clone, Copy)]
pub enum BoxSide {
    UP,
    Down,
    Left,
    Right,
}

pub trait Widget {
    /// Draws this widget into the painter's current visible area. A widget
    /// must leave the painter well-formed and may not change the grid
    /// dimensions or the viewport stack; to draw a child it goes through the
    /// painter's own nesting primitive, which restores the stack.
    fn render_widget(&self, painter: &mut TerminalWriter)
        requires
            old(painter).inv(),
        ensures
            final(painter).inv(),
            final(painter).same_frame(*old(painter)),
    ;
}

} // verus!
