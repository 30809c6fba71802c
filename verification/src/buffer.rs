//! Cell grids: a fixed-size two-dimensional array of one cell attribute,
//! stored row-major, with whole-row run writes and resize-to-blank semantics.

use vstd::prelude::*;

use crate::cell::CellValue;
use crate::mediator::BufferMediator;
use crate::rect::Rect;

verus! {

/// The grid's cell sequence has exactly one entry per coordinate pair.
pub open spec fn buffer_wf<T: CellValue, B: Buffer<T>>(b: B) -> bool {
    b.cells().len() == b.grid_width() * b.grid_height()
}

/// The row-major index of an in-bounds cell lies inside the grid's storage.
pub proof fn lemma_cell_index(x: int, y: int, w: int, h: int)
    requires
        0 <= x < w,
        0 <= y < h,
    ensures
        0 <= y * w + x < w * h,
{
    assert(0 <= y * w + x < w * h) by (nonlinear_arith)
        requires
            0 <= x < w,
            0 <= y < h,
    ;
}

/// A run that stays inside row `y` ends inside the grid's storage.
pub proof fn lemma_run_end(x: int, len: int, y: int, w: int, h: int)
    requires
        0 <= x,
        0 <= len,
        0 <= y < h,
        x + len <= w,
    ensures
        0 <= y * w + x,
        y * w + x + len <= w * h,
{
    assert(0 <= y * w + x && y * w + x + len <= w * h) by (nonlinear_arith)
        requires
            0 <= x,
            0 <= len,
            0 <= y < h,
            x + len <= w,
    ;
}

/// A grid with coordinates stored in sixteen bits holds fewer cells than the
/// pointer width can count.
pub proof fn lemma_area_small(w: int, h: int)
    requires
        0 <= w <= 0xffff,
        0 <= h <= 0xffff,
    ensures
        0 <= w * h <= 0xffff * 0xffff,
{
    assert(0 <= w * h <= 0xffff * 0xffff) by (nonlinear_arith)
        requires
            0 <= w <= 0xffff,
            0 <= h <= 0xffff,
    ;
}

/// A two-dimensional grid of one cell attribute, addressed by `(x, y)` with
/// `x < width`, `y < height`, stored row-major: cell `(x, y)` is entry
/// `y * width + x` of `cells()`.
pub trait Buffer<T: CellValue>: Sized {
    /// Number of columns.
    spec fn grid_width(&self) -> u16;

    /// Number of rows.
    spec fn grid_height(&self) -> u16;

    /// The cell contents, row-major.
    spec fn cells(&self) -> Seq<T>;

    /// A fresh grid of the given dimensions, every cell blank.
    fn new(width: u16, height: u16) -> (r: Self)
        ensures
            r.cells().len() == r.grid_width() * r.grid_height(),
            r.grid_width() == width,
            r.grid_height() == height,
            forall|k: int| 0 <= k < r.cells().len() ==> r.cells()[k] == T::blank_value(),
    ;

    /// Overwrites `length` consecutive cells of row `y` starting at column
    /// `x` with the first `length` entries of `data`; the run must not cross
    /// the right edge.
    fn draw_line(&mut self, data: &[T], x: u16, y: u16, length: u16)
        requires
            old(self).cells().len() == old(self).grid_width() * old(self).grid_height(),
            x + length <= old(self).grid_width(),
            y < old(self).grid_height(),
            length <= data@.len(),
        ensures
            final(self).cells().len() == final(self).grid_width() * final(self).grid_height(),
            final(self).grid_width() == old(self).grid_width(),
            final(self).grid_height() == old(self).grid_height(),
            forall|j: int|
                0 <= j < length ==> final(self).cells()[y * old(self).grid_width() + x + j]
                    == data@[j],
            forall|k: int|
                0 <= k < old(self).cells().len() && !(y * old(self).grid_width() + x <= k < y
                    * old(self).grid_width() + x + length) ==> final(self).cells()[k] == old(
                    self,
                ).cells()[k],
    ;

    /// A mediator rooted at this grid: its screen area is the whole grid
    /// cropped to `region` when one is given, and its offset is zero.
    fn get_mediator(&self, region: Option<Rect>) -> (m: BufferMediator)
        ensures
            m.area == (match region {
                Some(r) => Rect::crop_of(
                    Rect { x: 0, y: 0, width: self.grid_width(), height: self.grid_height() },
                    r,
                ),
                None => Rect {
                    x: 0,
                    y: 0,
                    width: self.grid_width(),
                    height: self.grid_height(),
                },
            }),
            m.offset_x == 0,
            m.offset_y == 0,
    ;

    /// The grid's own extent as a rectangle at the origin.
    fn area(&self) -> (r: Rect)
        ensures
            r == (Rect { x: 0, y: 0, width: self.grid_width(), height: self.grid_height() }),
    ;

    /// Clears every cell back to blank, keeping the dimensions.
    fn reset(&mut self)
        requires
            old(self).cells().len() == old(self).grid_width() * old(self).grid_height(),
        ensures
            final(self).cells().len() == final(self).grid_width() * final(self).grid_height(),
            final(self).grid_width() == old(self).grid_width(),
            final(self).grid_height() == old(self).grid_height(),
            forall|k: int|
                0 <= k < final(self).cells().len() ==> final(self).cells()[k] == T::blank_value(),
    ;

    /// Reallocates to the new dimensions; all cells are blank afterwards.
    fn resize(&mut self, width: u16, height: u16)
        ensures
            final(self).cells().len() == final(self).grid_width() * final(self).grid_height(),
            final(self).grid_width() == width,
            final(self).grid_height() == height,
            forall|k: int|
                0 <= k < final(self).cells().len() ==> final(self).cells()[k] == T::blank_value(),
    ;

    /// Reads the cell at `(x, y)`.
    fn get(&self, x: u16, y: u16) -> (r: T)
        requires
            self.cells().len() == self.grid_width() * self.grid_height(),
            x < self.grid_width(),
            y < self.grid_height(),
        ensures
            r == self.cells()[y * self.grid_width() + x],
    ;

    /// Overwrites the cell at `(x, y)`.
    fn set(&mut self, x: u16, y: u16, value: T)
        requires
            old(self).cells().len() == old(self).grid_width() * old(self).grid_height(),
            x < old(self).grid_width(),
            y < old(self).grid_height(),
        ensures
            final(self).cells().len() == final(self).grid_width() * final(self).grid_height(),
            final(self).grid_width() == old(self).grid_width(),
            final(self).grid_height() == old(self).grid_height(),
            final(self).cells() == old(self).cells().update(
                y * old(self).grid_width() + x,
                value,
            ),
    ;
}

/// The one grid implementation: a `Vec` of `width * height` cells.
pub struct VecBuffer<T> {
    pub width: u16,
    pub height: u16,
    pub data: Vec<T>,
}

impl<T: CellValue> VecBuffer<T> {
    /// A vector of `n` blank cells.
    fn blank_data(n: usize) -> (r: Vec<T>)
        ensures
            r@.len() == n,
            forall|k: int| 0 <= k < n ==> r@[k] == T::blank_value(),
    {
        let mut data: Vec<T> = Vec::new();
        while data.len() < n
            invariant
                data@.len() <= n,
                forall|k: int| 0 <= k < data@.len() ==> data@[k] == T::blank_value(),
            decreases n - data@.len(),
        {
            data.push(T::blank());
        }
        data
    }
}

impl<T: CellValue> Buffer<T> for VecBuffer<T> {
    open spec fn grid_width(&self) -> u16 {
        self.width
    }

    open spec fn grid_height(&self) -> u16 {
        self.height
    }

    open spec fn cells(&self) -> Seq<T> {
        self.data@
    }

    fn new(width: u16, height: u16) -> (r: Self) {
        proof {
            lemma_area_small(width as int, height as int);
        }
        VecBuffer { width, height, data: Self::blank_data(width as usize * height as usize) }
    }

    fn draw_line(&mut self, data: &[T], x: u16, y: u16, length: u16) {
        proof {
            lemma_area_small(self.width as int, self.height as int);
            lemma_run_end(x as int, length as int, y as int, self.width as int, self.height as int);
        }
        let start: usize = y as usize * self.width as usize + x as usize;
        let mut j: usize = 0;
        while j < length as usize
            invariant
                self.data@.len() == self.width * self.height,
                self.width == old(self).width,
                self.height == old(self).height,
                start == y * self.width + x,
                x + length <= self.width,
                start + length <= self.data@.len(),
                start + length <= usize::MAX,
                j <= length,
                length <= data@.len(),
                forall|i: int| 0 <= i < j ==> self.data@[start + i] == data@[i],
                forall|k: int|
                    0 <= k < self.data@.len() && !(start <= k < start + j) ==> self.data@[k]
                        == old(self).data@[k],
            decreases length - j,
        {
            self.data.set(start + j, data[j]);
            j = j + 1;
        }
    }

    fn get_mediator(&self, region: Option<Rect>) -> (m: BufferMediator) {
        let buffer_area = self.area();
        let mediator_region = if let Some(r) = region {
            buffer_area.crop(&r)
        } else {
            buffer_area
        };
        BufferMediator::new(mediator_region, 0, 0)
    }

    fn area(&self) -> (r: Rect) {
        Rect::new(0, 0, self.width, self.height)
    }

    fn reset(&mut self) {
        let width = self.width;
        let height = self.height;
        self.resize(width, height);
    }

    fn resize(&mut self, width: u16, height: u16) {
        proof {
            lemma_area_small(width as int, height as int);
        }
        self.width = width;
        self.height = height;
        self.data = Self::blank_data(width as usize * height as usize);
    }

    fn get(&self, x: u16, y: u16) -> (r: T) {
        proof {
            lemma_area_small(self.width as int, self.height as int);
            lemma_cell_index(x as int, y as int, self.width as int, self.height as int);
        }
        self.data[y as usize * self.width as usize + x as usize]
    }

    fn set(&mut self, x: u16, y: u16, value: T) {
        proof {
            lemma_area_small(self.width as int, self.height as int);
            lemma_cell_index(x as int, y as int, self.width as int, self.height as int);
        }
        let k: usize = y as usize * self.width as usize + x as usize;
        self.data.set(k, value);
    }
}

} // verus!
