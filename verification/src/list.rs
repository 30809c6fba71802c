//! A vertical list widget: renders its elements one under another, each in a
//! fixed-size row with one blank line between rows, handing every element the
//! same scroll offset. Rows that fall outside the list's own viewport are
//! clipped by the painter without affecting their siblings.

use vstd::prelude::*;

use crate::rect::Rect;
use crate::widget::Widget;
use crate::writer::TerminalWriter;

verus! {

pub struct ListWidget<T> {
    elements: Vec<T>,
    element_width: u16,
    element_height: u16,
    scroll: u16,
}

impl<T> ListWidget<T> {
    /// The cumulative row positions must stay within the coordinate type:
    /// each element advances the cursor by `element_height + 1` rows.
    #[verifier::type_invariant]
    spec fn wf(&self) -> bool {
        self.elements@.len() * (self.element_height + 1) <= u16::MAX
    }

    pub fn new(elements: Vec<T>, scroll: u16, element_width: u16, element_height: u16) -> Self
        requires
            elements@.len() * (element_height + 1) <= u16::MAX,
    {
        Self { elements, element_width, element_height, scroll }
    }
}

impl<T: Widget> Widget for ListWidget<T> {
    fn render_widget(&self, painter: &mut TerminalWriter) {
        proof {
            use_type_invariant(&*self);
        }
        let ghost p0 = *painter;
        let mut y: u16 = 0;
        let mut idx: usize = 0;
        while idx < self.elements.len()
            invariant
                painter.inv(),
                painter.same_frame(p0),
                p0 == *old(painter),
                idx <= self.elements@.len(),
                y == idx * (self.element_height + 1),
                self.elements@.len() * (self.element_height + 1) <= u16::MAX,
            decreases self.elements@.len() - idx,
        {
            proof {
                assert((idx + 1) * (self.element_height + 1) <= self.elements@.len() * (
                self.element_height + 1) && (idx + 1) * (self.element_height + 1) == idx * (
                self.element_height + 1) + (self.element_height + 1)) by (nonlinear_arith)
                    requires
                        idx + 1 <= self.elements@.len(),
                        self.element_height + 1 >= 1,
                ;
            }
            let area = Rect::new(0, y, self.element_width, self.element_height);
            painter.render_widget(&self.elements[idx], area, 0, self.scroll);
            y = y + self.element_height + 1;
            idx = idx + 1;
        }
    }
}

} // verus!
