//! The frame writer: owns the double-buffered grids (current and previous
//! background, foreground and glyph), the viewport stack widgets render
//! through, and the diff pass that turns a finished frame into the minimal
//! list of cell updates a terminal driver must emit.

use vstd::prelude::*;

use crate::buffer::{lemma_area_small, lemma_cell_index, Buffer, VecBuffer};
use crate::cell::{BackgroundColor, CellValue, ForegroundColor, Simble};
use crate::mediator::BufferMediator;
use crate::rect::Rect;

verus! {

/// The request rectangle a fill resolves to: the given area, or the
/// mediator's whole visible extent when none is given.
pub open spec fn fill_request(m: BufferMediator, area: Option<Rect>) -> Rect {
    match area {
        Some(a) => a,
        None => Rect { x: 0, y: 0, width: m.area.width, height: m.area.height },
    }
}

/// A vector holding `n` copies of one value.
pub(crate) fn repeat_value<T: CellValue>(content: T, n: usize) -> (r: Vec<T>)
    ensures
        r@.len() == n,
        forall|k: int| 0 <= k < n ==> r@[k] == content,
{
    let mut data: Vec<T> = Vec::new();
    while data.len() < n
        invariant
            data@.len() <= n,
            forall|k: int| 0 <= k < data@.len() ==> data@[k] == content,
        decreases n - data@.len(),
    {
        data.push(content);
    }
    data
}

/// Fills the part of `area` visible through `mediator` with one value,
/// leaving every other cell of the grid unchanged.
fn fill_region<T: CellValue>(
    mediator: &BufferMediator,
    content: T,
    area: Rect,
    buff: &mut VecBuffer<T>,
)
    requires
        old(buff).cells().len() == old(buff).grid_width() * old(buff).grid_height(),
        mediator.area.width > 0 && mediator.area.height > 0 ==> mediator.area.x
            + mediator.area.width <= old(buff).grid_width() && mediator.area.y
            + mediator.area.height <= old(buff).grid_height(),
    ensures
        final(buff).cells().len() == final(buff).grid_width() * final(buff).grid_height(),
        final(buff).grid_width() == old(buff).grid_width(),
        final(buff).grid_height() == old(buff).grid_height(),
        forall|px: int, py: int| #![trigger mediator.writes_cell(area, px, py)]
            0 <= px < old(buff).grid_width() && 0 <= py < old(buff).grid_height() ==> final(buff).cells()[py * old(buff).grid_width() + px] == (if mediator.writes_cell(
                area,
                px,
                py,
            ) {
                content
            } else {
                old(buff).cells()[py * old(buff).grid_width() + px]
            }),
{
    proof {
        lemma_area_small(area.width as int, area.height as int);
    }
    let n = area.width as usize * area.height as usize;
    let fill: Vec<T> = repeat_value(content, n);
    mediator.write(fill.as_slice(), area, buff);
    proof {
        let gw = old(buff).grid_width();
        let gh = old(buff).grid_height();
        assert forall|px: int, py: int| #![trigger mediator.writes_cell(area, px, py)]
            0 <= px < gw && 0 <= py < gh implies buff.cells()[py * gw + px] == (
        if mediator.writes_cell(area, px, py) {
            content
        } else {
            old(buff).cells()[py * gw + px]
        }) by {
            if mediator.writes_cell(area, px, py) {
                let v = mediator.visible_of(area);
                let col = px - mediator.to_screen_x(v.x as int) + (v.x - area.x);
                let row = py - mediator.to_screen_y(v.y as int) + (v.y - area.y);
                lemma_cell_index(col, row, area.width as int, area.height as int);
                assert(fill@[mediator.source_index(area, px, py)] == content);
            }
        }
    }
}

/// A vector with the same entries in the opposite order.
pub(crate) fn reversed_run<T: CellValue>(v: &Vec<T>) -> (r: Vec<T>)
    ensures
        r@.len() == v@.len(),
        forall|k: int| 0 <= k < v@.len() ==> r@[k] == v@[v@.len() - 1 - k],
{
    let n = v.len();
    let mut r: Vec<T> = Vec::new();
    let mut i: usize = 0;
    while i < n
        invariant
            i <= n,
            n == v@.len(),
            r@.len() == i,
            forall|k: int| 0 <= k < i ==> r@[k] == v@[n - 1 - k],
        decreases n - i,
    {
        r.push(v[n - 1 - i]);
        i = i + 1;
    }
    r
}

/// One terminal update unit: reposition the cursor to `(x, y)`, set the two
/// colors, print the glyph.
#[derive(Clone, Copy, PartialEq, Eq, Structural, Debug)]
pub struct CellUpdate {
    pub x: u16,
    pub y: u16,
    pub background: BackgroundColor,
    pub foreground: ForegroundColor,
    pub simble: Simble,
}

/// The double-buffered frame writer. Widgets paint into the three current
/// grids through the viewport stack; a frame ends with a diff against the
/// three previous grids, and a swap.
pub struct TerminalWriter {
    pub background: VecBuffer<BackgroundColor>,
    pub previous_background: VecBuffer<BackgroundColor>,
    pub foreground: VecBuffer<ForegroundColor>,
    pub previous_foreground: VecBuffer<ForegroundColor>,
    pub text: VecBuffer<Simble>,
    pub previous_text: VecBuffer<Simble>,
    pub mediator_stack: Vec<BufferMediator>,
}

impl TerminalWriter {
    /// Number of columns of every grid.
    pub open spec fn width(&self) -> u16 {
        self.background.grid_width()
    }

    /// Number of rows of every grid.
    pub open spec fn height(&self) -> u16 {
        self.background.grid_height()
    }

    /// A non-empty mediator must lie inside the grids; an empty one reaches
    /// no cell and may sit anywhere.
    pub open spec fn mediator_fits(&self, m: BufferMediator) -> bool {
        m.area.width > 0 && m.area.height > 0 ==> m.area.x + m.area.width <= self.width()
            && m.area.y + m.area.height <= self.height()
    }

    /// All six grids share one size and are fully allocated, and every
    /// mediator on the stack stays inside them.
    pub open spec fn inv(&self) -> bool {
        &&& self.background.cells().len() == self.width() * self.height()
        &&& self.previous_background.grid_width() == self.width()
        &&& self.previous_background.grid_height() == self.height()
        &&& self.previous_background.cells().len() == self.width() * self.height()
        &&& self.foreground.grid_width() == self.width()
        &&& self.foreground.grid_height() == self.height()
        &&& self.foreground.cells().len() == self.width() * self.height()
        &&& self.previous_foreground.grid_width() == self.width()
        &&& self.previous_foreground.grid_height() == self.height()
        &&& self.previous_foreground.cells().len() == self.width() * self.height()
        &&& self.text.grid_width() == self.width()
        &&& self.text.grid_height() == self.height()
        &&& self.text.cells().len() == self.width() * self.height()
        &&& self.previous_text.grid_width() == self.width()
        &&& self.previous_text.grid_height() == self.height()
        &&& self.previous_text.cells().len() == self.width() * self.height()
        &&& forall|k: int|
            0 <= k < self.mediator_stack@.len() ==> self.mediator_fits(
                #[trigger] self.mediator_stack@[k],
            )
    }

    /// The writer's dimensions and viewport stack are unchanged: what a
    /// painting operation or a widget's render pass must preserve.
    pub open spec fn same_frame(&self, other: TerminalWriter) -> bool {
        &&& self.width() == other.width()
        &&& self.height() == other.height()
        &&& self.mediator_stack@ == other.mediator_stack@
    }

    /// The mediator painting goes through: the top of the viewport stack, or
    /// the whole-grid root mediator when the stack is empty.
    pub open spec fn current_mediator(&self) -> BufferMediator {
        if self.mediator_stack@.len() > 0 {
            self.mediator_stack@[self.mediator_stack@.len() - 1]
        } else {
            BufferMediator {
                area: Rect { x: 0, y: 0, width: self.width(), height: self.height() },
                offset_x: 0,
                offset_y: 0,
            }
        }
    }

    /// A fresh writer: six blank grids of the given size and an empty
    /// viewport stack.
    pub fn new(width: u16, height: u16) -> (w: TerminalWriter)
        ensures
            w.inv(),
            w.width() == width,
            w.height() == height,
            w.mediator_stack@.len() == 0,
            forall|k: int|
                0 <= k < width * height ==> w.background.cells()[k]
                    == BackgroundColor::blank_value() && w.previous_background.cells()[k]
                    == BackgroundColor::blank_value() && w.foreground.cells()[k]
                    == ForegroundColor::blank_value() && w.previous_foreground.cells()[k]
                    == ForegroundColor::blank_value() && w.text.cells()[k]
                    == Simble::blank_value() && w.previous_text.cells()[k]
                    == Simble::blank_value(),
    {
        TerminalWriter {
            background: VecBuffer::new(width, height),
            previous_background: VecBuffer::new(width, height),
            foreground: VecBuffer::new(width, height),
            previous_foreground: VecBuffer::new(width, height),
            text: VecBuffer::new(width, height),
            previous_text: VecBuffer::new(width, height),
            mediator_stack: Vec::new(),
        }
    }

    /// Reallocates all six grids to the new size and clears them; the diff
    /// history is gone, so the next frame starts from blank on both sides.
    /// Resizing happens between frames, never inside a render pass.
    pub fn resize(&mut self, width: u16, height: u16)
        requires
            old(self).inv(),
            old(self).mediator_stack@.len() == 0,
        ensures
            final(self).inv(),
            final(self).width() == width,
            final(self).height() == height,
            final(self).mediator_stack@.len() == 0,
            forall|k: int|
                0 <= k < width * height ==> final(self).background.cells()[k]
                    == BackgroundColor::blank_value() && final(self).previous_background.cells()[k]
                    == BackgroundColor::blank_value() && final(self).foreground.cells()[k]
                    == ForegroundColor::blank_value() && final(self).previous_foreground.cells()[k] == ForegroundColor::blank_value() && final(self).text.cells()[k] == Simble::blank_value() && final(self).previous_text.cells()[k]
                    == Simble::blank_value(),
    {
        self.background.resize(width, height);
        self.previous_background.resize(width, height);
        self.foreground.resize(width, height);
        self.previous_foreground.resize(width, height);
        self.text.resize(width, height);
        self.previous_text.resize(width, height);
    }

    /// The mediator the next painting call goes through.
    fn top_mediator(&self) -> (m: BufferMediator)
        ensures
            m == self.current_mediator(),
    {
        let n = self.mediator_stack.len();
        if n > 0 {
            self.mediator_stack[n - 1]
        } else {
            BufferMediator::new(self.background.area(), 0, 0)
        }
    }

    /// The zero-origin extent of the current viewport: how much room the
    /// running widget actually has.
    pub fn area(&self) -> (r: Rect)
        ensures
            r == (Rect {
                x: 0,
                y: 0,
                width: self.current_mediator().area.width,
                height: self.current_mediator().area.height,
            }),
    {
        let mediator = self.top_mediator();
        mediator.size()
    }

    /// Instantiates the stack invariant for the top mediator.
    proof fn lemma_current_fits(&self)
        requires
            self.inv(),
        ensures
            self.mediator_fits(self.current_mediator()),
    {
        if self.mediator_stack@.len() > 0 {
            assert(self.mediator_fits(self.mediator_stack@[self.mediator_stack@.len() - 1]));
        }
    }

    /// Fills `area` (or, when none is given, the whole current viewport
    /// extent) of the background grid with one color, clipped by the current
    /// viewport.
    pub fn background_fill(&mut self, color: BackgroundColor, area: Option<Rect>)
        requires
            old(self).inv(),
        ensures
            final(self).inv(),
            final(self).same_frame(*old(self)),
            final(self).foreground == old(self).foreground,
            final(self).text == old(self).text,
            final(self).previous_background == old(self).previous_background,
            final(self).previous_foreground == old(self).previous_foreground,
            final(self).previous_text == old(self).previous_text,
            forall|px: int, py: int|
                #![trigger old(self).current_mediator().writes_cell(fill_request(old(self).current_mediator(), area), px, py)]
                0 <= px < old(self).width() && 0 <= py < old(self).height() ==> final(self).background.cells()[py * old(self).width() + px] == (if old(self).current_mediator().writes_cell(
                    fill_request(old(self).current_mediator(), area),
                    px,
                    py,
                ) {
                    color
                } else {
                    old(self).background.cells()[py * old(self).width() + px]
                }),
    {
        proof {
            self.lemma_current_fits();
        }
        let mediator = self.top_mediator();
        let request = match area {
            Some(a) => a,
            None => mediator.size(),
        };
        fill_region(&mediator, color, request, &mut self.background);
    }

    /// Fills `area` (or the whole current viewport extent) of the foreground
    /// grid with one color, clipped by the current viewport.
    pub fn foreground_fill(&mut self, color: ForegroundColor, area: Option<Rect>)
        requires
            old(self).inv(),
        ensures
            final(self).inv(),
            final(self).same_frame(*old(self)),
            final(self).background == old(self).background,
            final(self).text == old(self).text,
            final(self).previous_background == old(self).previous_background,
            final(self).previous_foreground == old(self).previous_foreground,
            final(self).previous_text == old(self).previous_text,
            forall|px: int, py: int|
                #![trigger old(self).current_mediator().writes_cell(fill_request(old(self).current_mediator(), area), px, py)]
                0 <= px < old(self).width() && 0 <= py < old(self).height() ==> final(self).foreground.cells()[py * old(self).width() + px] == (if old(self).current_mediator().writes_cell(
                    fill_request(old(self).current_mediator(), area),
                    px,
                    py,
                ) {
                    color
                } else {
                    old(self).foreground.cells()[py * old(self).width() + px]
                }),
    {
        proof {
            self.lemma_current_fits();
        }
        let mediator = self.top_mediator();
        let request = match area {
            Some(a) => a,
            None => mediator.size(),
        };
        fill_region(&mediator, color, request, &mut self.foreground);
    }

    /// Fills `area` (or the whole current viewport extent) of the glyph grid
    /// with one glyph, clipped by the current viewport.
    pub fn simble_fill(&mut self, simble: Simble, area: Option<Rect>)
        requires
            old(self).inv(),
        ensures
            final(self).inv(),
            final(self).same_frame(*old(self)),
            final(self).background == old(self).background,
            final(self).foreground == old(self).foreground,
            final(self).previous_background == old(self).previous_background,
            final(self).previous_foreground == old(self).previous_foreground,
            final(self).previous_text == old(self).previous_text,
            forall|px: int, py: int|
                #![trigger old(self).current_mediator().writes_cell(fill_request(old(self).current_mediator(), area), px, py)]
                0 <= px < old(self).width() && 0 <= py < old(self).height() ==> final(self).text.cells()[py * old(self).width() + px] == (if old(self).current_mediator().writes_cell(
                    fill_request(old(self).current_mediator(), area),
                    px,
                    py,
                ) {
                    simble
                } else {
                    old(self).text.cells()[py * old(self).width() + px]
                }),
    {
        proof {
            self.lemma_current_fits();
        }
        let mediator = self.top_mediator();
        let request = match area {
            Some(a) => a,
            None => mediator.size(),
        };
        fill_region(&mediator, simble, request, &mut self.text);
    }

    /// Writes a run of glyphs, laid out row-major with `area`'s dimensions,
    /// into the glyph grid through the current viewport.
    pub fn write_simbles(&mut self, text: &[Simble], area: Rect)
        requires
            old(self).inv(),
            text@.len() == area.width * area.height,
        ensures
            final(self).inv(),
            final(self).same_frame(*old(self)),
            final(self).background == old(self).background,
            final(self).foreground == old(self).foreground,
            final(self).previous_background == old(self).previous_background,
            final(self).previous_foreground == old(self).previous_foreground,
            final(self).previous_text == old(self).previous_text,
            forall|px: int, py: int|
                #![trigger old(self).current_mediator().writes_cell(area, px, py)]
                0 <= px < old(self).width() && 0 <= py < old(self).height() ==> final(self).text.cells()[py * old(self).width() + px] == (if old(self).current_mediator().writes_cell(area, px, py) {
                    text@[old(self).current_mediator().source_index(area, px, py)]
                } else {
                    old(self).text.cells()[py * old(self).width() + px]
                }),
    {
        proof {
            self.lemma_current_fits();
        }
        let mediator = self.top_mediator();
        mediator.write(text, area, &mut self.text);
    }

    /// Writes a run of background colors, laid out row-major with `area`'s
    /// dimensions, into the background grid through the current viewport.
    pub fn write_background_color(&mut self, color: &[BackgroundColor], area: Rect)
        requires
            old(self).inv(),
            color@.len() == area.width * area.height,
        ensures
            final(self).inv(),
            final(self).same_frame(*old(self)),
            final(self).foreground == old(self).foreground,
            final(self).text == old(self).text,
            final(self).previous_background == old(self).previous_background,
            final(self).previous_foreground == old(self).previous_foreground,
            final(self).previous_text == old(self).previous_text,
            forall|px: int, py: int|
                #![trigger old(self).current_mediator().writes_cell(area, px, py)]
                0 <= px < old(self).width() && 0 <= py < old(self).height() ==> final(self).background.cells()[py * old(self).width() + px] == (if old(self).current_mediator().writes_cell(area, px, py) {
                    color@[old(self).current_mediator().source_index(area, px, py)]
                } else {
                    old(self).background.cells()[py * old(self).width() + px]
                }),
    {
        proof {
            self.lemma_current_fits();
        }
        let mediator = self.top_mediator();
        mediator.write(color, area, &mut self.background);
    }

    /// Writes a run of foreground colors, laid out row-major with `area`'s
    /// dimensions, into the foreground grid through the current viewport.
    pub fn write_foreground_color(&mut self, color: &[ForegroundColor], area: Rect)
        requires
            old(self).inv(),
            color@.len() == area.width * area.height,
        ensures
            final(self).inv(),
            final(self).same_frame(*old(self)),
            final(self).background == old(self).background,
            final(self).text == old(self).text,
            final(self).previous_background == old(self).previous_background,
            final(self).previous_foreground == old(self).previous_foreground,
            final(self).previous_text == old(self).previous_text,
            forall|px: int, py: int|
                #![trigger old(self).current_mediator().writes_cell(area, px, py)]
                0 <= px < old(self).width() && 0 <= py < old(self).height() ==> final(self).foreground.cells()[py * old(self).width() + px] == (if old(self).current_mediator().writes_cell(area, px, py) {
                    color@[old(self).current_mediator().source_index(area, px, py)]
                } else {
                    old(self).foreground.cells()[py * old(self).width() + px]
                }),
    {
        proof {
            self.lemma_current_fits();
        }
        let mediator = self.top_mediator();
        mediator.write(color, area, &mut self.foreground);
    }

    /// The cell `(px, py)` differs between the current frame and the
    /// previous one in at least one of its three attributes.
    pub open spec fn cell_changed(&self, px: int, py: int) -> bool {
        let k = py * self.width() + px;
        ||| self.background.cells()[k] != self.previous_background.cells()[k]
        ||| self.foreground.cells()[k] != self.previous_foreground.cells()[k]
        ||| self.text.cells()[k] != self.previous_text.cells()[k]
    }

    /// An update unit is sound: it points at an in-bounds, changed cell and
    /// carries that cell's current attributes.
    pub open spec fn update_ok(&self, u: CellUpdate) -> bool {
        &&& u.x < self.width()
        &&& u.y < self.height()
        &&& self.cell_changed(u.x as int, u.y as int)
        &&& u.background == self.background.cells()[u.y * self.width() + u.x]
        &&& u.foreground == self.foreground.cells()[u.y * self.width() + u.x]
        &&& u.simble == self.text.cells()[u.y * self.width() + u.x]
    }

    /// The diff pass: scans the grids in row-major order and returns one
    /// update unit for every cell whose triple changed since the previous
    /// frame. Each update is sound, they come in strictly increasing
    /// row-major order, and every changed cell is covered.
    #[verifier::loop_isolation(false)]
    pub fn compute_updates(&self) -> (ups: Vec<CellUpdate>)
        requires
            self.inv(),
        ensures
            forall|n: int| #![trigger ups@[n]] 0 <= n < ups@.len() ==> self.update_ok(ups@[n]),
            forall|n1: int, n2: int| #![trigger ups@[n1], ups@[n2]]
                0 <= n1 < n2 < ups@.len() ==> ups@[n1].y * self.width() + ups@[n1].x < ups@[n2].y
                    * self.width() + ups@[n2].x,
            forall|px: int, py: int| #![trigger self.cell_changed(px, py)]
                0 <= px < self.width() && 0 <= py < self.height() && self.cell_changed(px, py)
                    ==> exists|n: int|
                    0 <= n < ups@.len() && ups@[n].x == px && ups@[n].y == py,
    {
        let gw = self.background.width;
        let gh = self.background.height;
        let mut ups: Vec<CellUpdate> = Vec::new();
        let mut y: u16 = 0;
        while y < gh
            invariant
                y <= gh,
                forall|n: int| #![trigger ups@[n]] 0 <= n < ups@.len() ==> self.update_ok(ups@[n]),
                forall|n: int| #![trigger ups@[n]]
                    0 <= n < ups@.len() ==> ups@[n].y * gw + ups@[n].x < y * gw,
                forall|n1: int, n2: int| #![trigger ups@[n1], ups@[n2]]
                    0 <= n1 < n2 < ups@.len() ==> ups@[n1].y * gw + ups@[n1].x < ups@[n2].y * gw
                        + ups@[n2].x,
                forall|px: int, py: int| #![trigger self.cell_changed(px, py)]
                    0 <= px < gw && 0 <= py < y && self.cell_changed(px, py) ==> exists|n: int|
                        0 <= n < ups@.len() && ups@[n].x == px && ups@[n].y == py,
            decreases gh - y,
        {
            let mut x: u16 = 0;
            while x < gw
                invariant
                    x <= gw,
                    y < gh,
                    forall|n: int| #![trigger ups@[n]]
                        0 <= n < ups@.len() ==> self.update_ok(ups@[n]),
                    forall|n: int| #![trigger ups@[n]]
                        0 <= n < ups@.len() ==> ups@[n].y * gw + ups@[n].x < y * gw + x,
                    forall|n1: int, n2: int| #![trigger ups@[n1], ups@[n2]]
                        0 <= n1 < n2 < ups@.len() ==> ups@[n1].y * gw + ups@[n1].x < ups@[n2].y
                            * gw + ups@[n2].x,
                    forall|px: int, py: int| #![trigger self.cell_changed(px, py)]
                        0 <= px < gw && 0 <= py < gh && (py < y || (py == y && px < x))
                            && self.cell_changed(px, py) ==> exists|n: int|
                            0 <= n < ups@.len() && ups@[n].x == px && ups@[n].y == py,
                decreases gw - x,
            {
                let bg = self.background.get(x, y);
                let pbg = self.previous_background.get(x, y);
                let fg = self.foreground.get(x, y);
                let pfg = self.previous_foreground.get(x, y);
                let tx = self.text.get(x, y);
                let ptx = self.previous_text.get(x, y);
                if bg != pbg || fg != pfg || tx != ptx {
                    let ghost len0 = ups@.len() as int;
                    let ghost ups0 = ups@;
                    ups.push(CellUpdate { x, y, background: bg, foreground: fg, simble: tx });
                    proof {
                        assert(self.cell_changed(x as int, y as int));
                        assert(self.update_ok(ups@[len0]));
                        assert forall|px: int, py: int| #![trigger self.cell_changed(px, py)]
                            0 <= px < gw && 0 <= py < gh && (py < y || (py == y && px < x + 1))
                                && self.cell_changed(px, py) implies exists|n: int|
                            0 <= n < ups@.len() && ups@[n].x == px && ups@[n].y == py by {
                            if py == y && px == x {
                                assert(ups@[len0].x == px && ups@[len0].y == py);
                            } else {
                                let n0 = choose|n: int|
                                    0 <= n < len0 && #[trigger] ups0[n].x == px && ups0[n].y
                                        == py;
                                assert(ups@[n0] == ups0[n0]);
                                assert(ups@[n0].x == px && ups@[n0].y == py);
                            }
                        }
                    }
                } else {
                    proof {
                        assert(!self.cell_changed(x as int, y as int));
                        assert forall|px: int, py: int| #![trigger self.cell_changed(px, py)]
                            0 <= px < gw && 0 <= py < gh && (py < y || (py == y && px < x + 1))
                                && self.cell_changed(px, py) implies exists|n: int|
                            0 <= n < ups@.len() && ups@[n].x == px && ups@[n].y == py by {
                            let n0 = choose|n: int|
                                0 <= n < ups@.len() && #[trigger] ups@[n].x == px && ups@[n].y
                                    == py;
                        }
                    }
                }
                x = x + 1;
            }
            proof {
                assert((y + 1) * gw == y * gw + gw) by (nonlinear_arith);
            }
            y = y + 1;
        }
        ups
    }

    /// Ends the frame: the three current grids become the previous ones, and
    /// the swapped-in current grids are cleared back to blank, ready for the
    /// next frame's widgets.
    pub fn commit_frame(&mut self)
        requires
            old(self).inv(),
        ensures
            final(self).inv(),
            final(self).same_frame(*old(self)),
            final(self).previous_background == old(self).background,
            final(self).previous_foreground == old(self).foreground,
            final(self).previous_text == old(self).text,
            forall|k: int|
                0 <= k < final(self).width() * final(self).height() ==> final(self).background.cells()[k] == BackgroundColor::blank_value() && final(self).foreground.cells()[k] == ForegroundColor::blank_value() && final(self).text.cells()[k] == Simble::blank_value(),
    {
        core::mem::swap(&mut self.background, &mut self.previous_background);
        core::mem::swap(&mut self.foreground, &mut self.previous_foreground);
        core::mem::swap(&mut self.text, &mut self.previous_text);
        self.background.reset();
        self.foreground.reset();
        self.text.reset();
    }

    /// The nesting primitive: derives the child viewport for `area` with the
    /// given scroll, pushes it, lets the widget render through it, and
    /// restores the stack. This is how nested, scrolled widgets compose
    /// without a retained widget tree.
    pub fn render_widget<W: crate::widget::Widget>(
        &mut self,
        widget: &W,
        area: Rect,
        scroll_x: u16,
        scroll_y: u16,
    )
        requires
            old(self).inv(),
        ensures
            final(self).inv(),
            final(self).same_frame(*old(self)),
    {
        proof {
            self.lemma_current_fits();
        }
        let mediator = self.top_mediator();
        let inner = mediator.generate_inner(&area, scroll_x, scroll_y);
        proof {
            crate::mediator::lemma_inner_of_fits(
                mediator,
                area,
                scroll_x,
                scroll_y,
                self.width(),
                self.height(),
            );
        }
        self.mediator_stack.push(inner);
        proof {
            assert forall|k: int|
                0 <= k < self.mediator_stack@.len() implies self.mediator_fits(
                #[trigger] self.mediator_stack@[k],
            ) by {
                if k < self.mediator_stack@.len() - 1 {
                    assert(old(self).mediator_fits(old(self).mediator_stack@[k]));
                }
            }
        }
        widget.render_widget(self);
        self.mediator_stack.pop();
        proof {
            assert(self.mediator_stack@ =~= old(self).mediator_stack@);
        }
    }
}



/// Rendering the identical frame twice emits nothing: when every current
/// grid equals its previous snapshot, any update list that is sound for this
/// writer is empty.
pub proof fn lemma_identical_frame_emits_nothing(w: TerminalWriter, ups: Seq<CellUpdate>)
    requires
        w.inv(),
        forall|n: int| #![trigger ups[n]] 0 <= n < ups.len() ==> w.update_ok(ups[n]),
        w.background.cells() == w.previous_background.cells(),
        w.foreground.cells() == w.previous_foreground.cells(),
        w.text.cells() == w.previous_text.cells(),
    ensures
        ups.len() == 0,
{
    if ups.len() > 0 {
        assert(w.update_ok(ups[0]));
        assert(!w.cell_changed(ups[0].x as int, ups[0].y as int));
    }
}

/// Changing a single cell emits exactly one update, at that cell: when the
/// only changed cell is `(cx, cy)`, an update list that is sound, strictly
/// ordered and complete for this writer has exactly one element, placed
/// there and carrying that cell's current attributes.
pub proof fn lemma_single_change_emits_one(
    w: TerminalWriter,
    ups: Seq<CellUpdate>,
    cx: int,
    cy: int,
)
    requires
        w.inv(),
        forall|n: int| #![trigger ups[n]] 0 <= n < ups.len() ==> w.update_ok(ups[n]),
        forall|n1: int, n2: int| #![trigger ups[n1], ups[n2]]
            0 <= n1 < n2 < ups.len() ==> ups[n1].y * w.width() + ups[n1].x < ups[n2].y * w.width()
                + ups[n2].x,
        forall|px: int, py: int| #![trigger w.cell_changed(px, py)]
            0 <= px < w.width() && 0 <= py < w.height() && w.cell_changed(px, py) ==> exists|n: int|
                0 <= n < ups.len() && ups[n].x == px && ups[n].y == py,
        0 <= cx < w.width(),
        0 <= cy < w.height(),
        w.cell_changed(cx, cy),
        forall|px: int, py: int|
            0 <= px < w.width() && 0 <= py < w.height() && #[trigger] w.cell_changed(px, py)
                ==> px == cx && py == cy,
    ensures
        ups.len() == 1,
        ups[0].x == cx,
        ups[0].y == cy,
        ups[0].background == w.background.cells()[cy * w.width() + cx],
        ups[0].foreground == w.foreground.cells()[cy * w.width() + cx],
        ups[0].simble == w.text.cells()[cy * w.width() + cx],
{
    let n0 = choose|n: int| 0 <= n < ups.len() && #[trigger] ups[n].x == cx && ups[n].y == cy;
    if ups.len() > 1 {
        assert(w.update_ok(ups[0]));
        assert(w.update_ok(ups[1]));
        assert(ups[0].x == cx && ups[0].y == cy);
        assert(ups[1].x == cx && ups[1].y == cy);
        assert(false);
    }
    assert(w.update_ok(ups[0]));
}

/// A resize forces a full repaint: it leaves both snapshots blank, so a cell
/// is emitted by the next diff exactly when the frame painted it non-blank.
/// Nothing a fresh frame draws can be wrongly suppressed by stale history.
pub proof fn lemma_resize_forces_repaint(w: TerminalWriter, px: int, py: int)
    requires
        w.inv(),
        0 <= px < w.width(),
        0 <= py < w.height(),
        forall|k: int|
            0 <= k < w.width() * w.height() ==> w.previous_background.cells()[k]
                == BackgroundColor::blank_value() && w.previous_foreground.cells()[k]
                == ForegroundColor::blank_value() && w.previous_text.cells()[k]
                == Simble::blank_value(),
    ensures
        w.cell_changed(px, py) <==> (w.background.cells()[py * w.width() + px]
            != BackgroundColor::blank_value() || w.foreground.cells()[py * w.width() + px]
            != ForegroundColor::blank_value() || w.text.cells()[py * w.width() + px]
            != Simble::blank_value()),
{
    lemma_cell_index(px, py, w.width() as int, w.height() as int);
}


} // verus!
