//! Two small composite widgets: one that embeds another widget at a fixed
//! position inside its own area, and one that numbers its rows with decimal
//! numerals, demonstrating how nesting and text placement compose through the
//! painter.

use vstd::prelude::*;

use crate::cell::Simble;
use crate::rect::Rect;
use crate::widget::Widget;
use crate::writer::{reversed_run, TerminalWriter};

verus! {

pub struct Wrappper<T> {
    inner: T,
}

impl<T> Wrappper<T> {
    pub fn new(a: T) -> Self {
        Self { inner: a }
    }
}

impl<T: Widget> Widget for Wrappper<T> {
    fn render_widget(&self, painter: &mut TerminalWriter) {
        painter.render_widget(&self.inner, Rect::new(2, 2, 8, 5), 0, 0);
    }
}

/// The decimal digits of `n`, most significant first, each in `0..=9`.
pub open spec fn decimal_digit_values(n: int) -> Seq<int>
    decreases n,
{
    if n <= 9 {
        seq![n]
    } else {
        decimal_digit_values(n / 10).push(n % 10)
    }
}

/// The glyph of one decimal digit.
pub open spec fn digit_glyph(d: int) -> Simble {
    if d == 0 {
        Simble('0')
    } else if d == 1 {
        Simble('1')
    } else if d == 2 {
        Simble('2')
    } else if d == 3 {
        Simble('3')
    } else if d == 4 {
        Simble('4')
    } else if d == 5 {
        Simble('5')
    } else if d == 6 {
        Simble('6')
    } else if d == 7 {
        Simble('7')
    } else if d == 8 {
        Simble('8')
    } else {
        Simble('9')
    }
}

/// Any value of the coordinate type has at most five decimal digits.
proof fn lemma_decimal_len(n: int)
    requires
        0 <= n <= 0xffff,
    ensures
        1 <= decimal_digit_values(n).len() <= 5,
{
    if n > 9 {
        assert(decimal_digit_values(n) == decimal_digit_values(n / 10).push(n % 10));
        if n / 10 > 9 {
            assert(decimal_digit_values(n / 10) == decimal_digit_values(n / 100).push(
                n / 10 % 10,
            ));
            if n / 100 > 9 {
                assert(decimal_digit_values(n / 100) == decimal_digit_values(n / 1000).push(
                    n / 100 % 10,
                ));
                if n / 1000 > 9 {
                    assert(decimal_digit_values(n / 1000) == decimal_digit_values(n / 10000).push(
                        n / 1000 % 10,
                    ));
                    assert(n / 10000 <= 9);
                }
            }
        }
    }
}

/// The glyph of one digit.
fn digit_simble(d: u16) -> (r: Simble)
    requires
        d <= 9,
    ensures
        r == digit_glyph(d as int),
{
    if d == 0 {
        Simble('0')
    } else if d == 1 {
        Simble('1')
    } else if d == 2 {
        Simble('2')
    } else if d == 3 {
        Simble('3')
    } else if d == 4 {
        Simble('4')
    } else if d == 5 {
        Simble('5')
    } else if d == 6 {
        Simble('6')
    } else if d == 7 {
        Simble('7')
    } else if d == 8 {
        Simble('8')
    } else {
        Simble('9')
    }
}

/// The decimal numeral of `n` as a run of glyphs, most significant first.
pub fn decimal_simbles(n: u16) -> (r: Vec<Simble>)
    ensures
        r@.len() == decimal_digit_values(n as int).len(),
        1 <= r@.len() <= 5,
        forall|k: int|
            0 <= k < r@.len() ==> r@[k] == digit_glyph(decimal_digit_values(n as int)[k]),
{
    proof {
        lemma_decimal_len(n as int);
    }
    let ghost whole = decimal_digit_values(n as int);
    let mut rev: Vec<Simble> = Vec::new();
    rev.push(digit_simble(n % 10));
    let mut m: u16 = n / 10;
    while m > 0
        invariant
            whole == decimal_digit_values(n as int),
            1 <= rev@.len(),
            whole.len() == (if m > 0 {
                decimal_digit_values(m as int).len() + rev@.len()
            } else {
                rev@.len() as nat
            }),
            forall|k: int|
                0 <= k < rev@.len() ==> rev@[k] == digit_glyph(whole[whole.len() - 1 - k]),
            m > 0 ==> forall|k: int|
                0 <= k < decimal_digit_values(m as int).len() ==> decimal_digit_values(
                    m as int,
                )[k] == whole[k],
        decreases m,
    {
        proof {
            if m > 9 {
                assert(decimal_digit_values(m as int) == decimal_digit_values(
                    m as int / 10,
                ).push(m as int % 10));
            }
        }
        rev.push(digit_simble(m % 10));
        m = m / 10;
    }
    reversed_run(&rev)
}

/// A widget that numbers the rows of its area from the top down.
#[derive(Clone)]
pub struct Count {}

impl Widget for Count {
    fn render_widget(&self, painter: &mut TerminalWriter) {
        let mut i: u16 = 0;
        let ghost p0 = *painter;
        while i < 20
            invariant
                painter.inv(),
                painter.same_frame(p0),
                p0 == *old(painter),
            decreases 20 - i,
        {
            let digits = decimal_simbles(i);
            let width = digits.len() as u16;
            painter.write_simbles(digits.as_slice(), Rect::new(0, i, width, 1));
            i = i + 1;
        }
    }
}

} // verus!
