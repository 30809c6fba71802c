//! A rectangular frame widget: eight configurable glyphs (four corners, two
//! horizontal lines, two vertical lines) drawn around a `width` by `height`
//! box anchored at the widget's own origin.

use vstd::prelude::*;

use crate::cell::Simble;
use crate::rect::Rect;
use crate::widget::Widget;
use crate::writer::{repeat_value, TerminalWriter};

verus! {

pub struct Border {
    top_left: Simble,
    top_right: Simble,
    vertical_left: Simble,
    vertical_right: Simble,
    top_line: Simble,
    bottom_line: Simble,
    bottom_left: Simble,
    bottom_right: Simble,
    width: u16,
    height: u16,
}

impl Border {
    /// A border needs room for its corner glyphs: at least one column and
    /// two rows.
    #[verifier::type_invariant]
    spec fn wf(&self) -> bool {
        self.width >= 1 && self.height >= 2
    }

    pub fn new(
        top_left: Simble,
        top_right: Simble,
        vertical_left: Simble,
        vertical_right: Simble,
        top_line: Simble,
        bottom_line: Simble,
        bottom_left: Simble,
        bottom_right: Simble,
        width: u16,
        height: u16,
    ) -> Self
        requires
            width >= 1,
            height >= 2,
    {
        Self {
            top_left,
            top_right,
            vertical_left,
            vertical_right,
            top_line,
            bottom_line,
            bottom_left,
            bottom_right,
            width,
            height,
        }
    }
}

impl Widget for Border {
    fn render_widget(&self, painter: &mut TerminalWriter) {
        proof {
            use_type_invariant(&*self);
        }
        let mut line = repeat_value(self.top_line, self.width as usize);
        line.set(0, self.top_left);
        line.set(self.width as usize - 1, self.top_right);
        painter.write_simbles(line.as_slice(), Rect::new(0, 0, self.width, 1));
        line = repeat_value(self.bottom_line, self.width as usize);
        line.set(0, self.bottom_left);
        line.set(self.width as usize - 1, self.bottom_right);
        painter.write_simbles(line.as_slice(), Rect::new(0, self.height - 1, self.width, 1));
        line = repeat_value(self.vertical_left, self.height as usize - 2);
        painter.write_simbles(line.as_slice(), Rect::new(0, 1, 1, self.height - 2));
        line = repeat_value(self.vertical_right, self.height as usize - 2);
        painter.write_simbles(line.as_slice(), Rect::new(self.width - 1, 1, 1, self.height - 2));
    }
}

} // verus!
