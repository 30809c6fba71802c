//! A character-cell rendering core for text terminals: rectangles with
//! saturating geometry, generic cell grids, a clipping/scrolling viewport
//! mediator, an immediate-mode painter, and a double-buffered diff writer.

pub mod border;
pub mod buffer;
pub mod cell;
pub mod list;
pub mod mediator;
pub mod rect;
pub mod scrollbar;
pub mod text;
pub mod widget;
pub mod wrapper;
pub mod writer;

pub use rect::Rect;
