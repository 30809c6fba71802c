//! A scrollbar widget: a linear track of glyphs with a grabbable segment and
//! an arrow at each end, drawable along any of the four directions. The
//! track, the grabbable segment and the arrows can each carry their own
//! colors.

use vstd::prelude::*;

use crate::cell::{BackgroundColor, ForegroundColor, Simble};
use crate::rect::Rect;
use crate::widget::{Direction, Widget};
use crate::writer::{repeat_value, reversed_run, TerminalWriter};

verus! {

pub struct Scrollbar {
    lenght: u16,
    grabbable_lenght: u16,
    position: u16,
    bar_simble: Simble,
    grabbable_simble: Simble,
    less_arrow_simble: Simble,
    more_arrow_simble: Simble,
    direction: Direction,
    background_color: Option<BackgroundColor>,
    foreground_color: Option<ForegroundColor>,
    background_color_grabbable: Option<BackgroundColor>,
    foreground_color_grabbable: Option<ForegroundColor>,
    background_color_arrow: Option<BackgroundColor>,
    foreground_color_arrow: Option<ForegroundColor>,
}

impl Scrollbar {
    /// The bar holds its two arrows, and the grabbable segment fits inside
    /// the track. A zero-length grabbable segment at position zero cannot be
    /// placed on a reversed (up or left) bar when it carries its own colors.
    #[verifier::type_invariant]
    spec fn wf(&self) -> bool {
        &&& self.lenght >= 2
        &&& self.position + self.grabbable_lenght <= self.lenght
        &&& ((self.background_color_grabbable is Some || self.foreground_color_grabbable is Some)
            && (self.direction is UP || self.direction is Left)) ==> self.position
            + self.grabbable_lenght >= 1
    }

    pub fn new(
        lenght: u16,
        grabbable_lenght: u16,
        position: u16,
        bar_simble: Simble,
        grabbable_simble: Simble,
        less_arrow_simble: Simble,
        more_arrow_simble: Simble,
        direction: Direction,
        background_color: Option<BackgroundColor>,
        foreground_color: Option<ForegroundColor>,
        background_color_grabbable: Option<BackgroundColor>,
        foreground_color_grabbable: Option<ForegroundColor>,
        background_color_arrow: Option<BackgroundColor>,
        foreground_color_arrow: Option<ForegroundColor>,
    ) -> Self
        requires
            lenght >= 2,
            grabbable_lenght + position <= lenght,
            ((background_color_grabbable is Some || foreground_color_grabbable is Some) && (
            direction is UP || direction is Left)) ==> position + grabbable_lenght >= 1,
    {
        Self {
            lenght,
            grabbable_lenght,
            position,
            bar_simble,
            grabbable_simble,
            less_arrow_simble,
            more_arrow_simble,
            direction,
            background_color,
            foreground_color,
            background_color_grabbable,
            foreground_color_grabbable,
            background_color_arrow,
            foreground_color_arrow,
        }
    }

    /// Places a run of `lenght` cells starting `start` cells from the bar's
    /// origin, as a rectangle along the bar's direction; the flag says
    /// whether the run's data must be reversed to follow the direction.
    fn handle_direction(&self, start: u16, lenght: u16) -> (r: (Rect, bool))
        requires
            self.lenght >= 2,
            start + lenght <= self.lenght,
            (self.direction is UP || self.direction is Left) ==> start + lenght >= 1,
        ensures
            r.0.width * r.0.height == lenght,
    {
        match self.direction {
            Direction::UP => (Rect::new(0, self.lenght - (start + lenght - 1), 1, lenght), true),
            Direction::Down => (Rect::new(0, start, 1, lenght), false),
            Direction::Left => (Rect::new(self.lenght - (start + lenght - 1), 0, lenght, 1), true),
            Direction::Right => (Rect::new(start, 0, lenght, 1), false),
        }
    }
}

impl Widget for Scrollbar {
    fn render_widget(&self, painter: &mut TerminalWriter) {
        proof {
            use_type_invariant(&*self);
        }
        let mut simbles = repeat_value(self.bar_simble, self.lenght as usize);
        let mut j: usize = 0;
        while j < self.grabbable_lenght as usize
            invariant
                j <= self.grabbable_lenght,
                self.position + self.grabbable_lenght <= self.lenght,
                simbles@.len() == self.lenght,
            decreases self.grabbable_lenght - j,
        {
            simbles.set(self.position as usize + j, self.grabbable_simble);
            j = j + 1;
        }
        simbles.set(0, self.less_arrow_simble);
        simbles.set(self.lenght as usize - 1, self.more_arrow_simble);

        let s = self.handle_direction(0, self.lenght);
        let simbles = if s.1 {
            reversed_run(&simbles)
        } else {
            simbles
        };
        painter.write_simbles(simbles.as_slice(), s.0);

        if let Some(color) = self.background_color {
            let t = repeat_value(color, self.lenght as usize);
            let bc = self.handle_direction(0, self.lenght);
            painter.write_background_color(t.as_slice(), bc.0);
        }
        if let Some(color) = self.foreground_color {
            let t = repeat_value(color, self.lenght as usize);
            let fc = self.handle_direction(0, self.lenght);
            painter.write_foreground_color(t.as_slice(), fc.0);
        }
        if let Some(color) = self.background_color_grabbable {
            let t = repeat_value(color, self.grabbable_lenght as usize);
            let bc = self.handle_direction(self.position, self.grabbable_lenght);
            let t = if bc.1 {
                reversed_run(&t)
            } else {
                t
            };
            painter.write_background_color(t.as_slice(), bc.0);
        }
        if let Some(color) = self.foreground_color_grabbable {
            let t = repeat_value(color, self.grabbable_lenght as usize);
            let fc = self.handle_direction(self.position, self.grabbable_lenght);
            let t = if fc.1 {
                reversed_run(&t)
            } else {
                t
            };
            painter.write_foreground_color(t.as_slice(), fc.0);
        }
        if let Some(color) = self.background_color_arrow {
            let t = repeat_value(color, 1);
            let bc = self.handle_direction(0, 1);
            painter.write_background_color(t.as_slice(), bc.0);
            let bc = self.handle_direction(self.lenght - 1, 1);
            painter.write_background_color(t.as_slice(), bc.0);
        }
        if let Some(color) = self.foreground_color_arrow {
            let t = repeat_value(color, 1);
            let fc = self.handle_direction(0, 1);
            painter.write_foreground_color(t.as_slice(), fc.0);
            let fc = self.handle_direction(self.lenght - 1, 1);
            painter.write_foreground_color(t.as_slice(), fc.0);
        }
    }
}

} // verus!
