//! The viewport mediator: the coordinate transform between the virtual space
//! a widget draws in and the physical grid region its writes land in.
//!
//! A mediator holds a physical screen rectangle `area` and a virtual offset
//! `(offset_x, offset_y)`: the virtual coordinate that corresponds to `area`'s
//! top-left corner. Requests expressed in virtual space are clipped against
//! the window `(offset_x, offset_y, area.width, area.height)` and translated
//! into `area`; whatever falls outside is silently dropped.

use vstd::prelude::*;

use crate::buffer::{lemma_area_small, lemma_cell_index, lemma_run_end, Buffer};
use crate::cell::CellValue;
use crate::rect::{int_max, int_min, Rect};

verus! {

/// Inside row `y` of a row-major grid of width `w`, the storage range of a
/// run of `len` cells starting at column `x` holds exactly the indices of the
/// cells `(px, y)` with `x <= px < x + len`.
pub proof fn lemma_row_range(px: int, py: int, x: int, y: int, len: int, w: int, h: int)
    requires
        0 <= px < w,
        0 <= py < h,
        0 <= x,
        0 <= len,
        x + len <= w,
        0 <= y < h,
    ensures
        (y * w + x <= py * w + px < y * w + x + len) <==> (py == y && x <= px < x + len),
{
    assert((y * w + x <= py * w + px < y * w + x + len) <==> (py == y && x <= px < x + len))
        by (nonlinear_arith)
        requires
            0 <= px < w,
            0 <= py < h,
            0 <= x,
            0 <= len,
            x + len <= w,
            0 <= y < h,
    ;
}

#[derive(Clone, Copy, PartialEq, Eq, Structural, Debug)]
pub struct BufferMediator {
    pub area: Rect,
    pub offset_x: u16,
    pub offset_y: u16,
}

impl BufferMediator {
    /// The window this mediator can see, in virtual space: the viewport's
    /// extent anchored at the virtual offset.
    pub open spec fn window(&self) -> Rect {
        Rect {
            x: self.offset_x,
            y: self.offset_y,
            width: self.area.width,
            height: self.area.height,
        }
    }

    /// The part of a virtual-space request that this mediator can reach.
    pub open spec fn visible_of(&self, request: Rect) -> Rect {
        Rect::crop_of(self.window(), request)
    }

    /// Translates a virtual x-coordinate into physical grid space, clamped
    /// the way the executable translation saturates.
    pub open spec fn to_screen_x(&self, vx: int) -> int {
        int_min(int_max(vx - self.offset_x, 0) + self.area.x, u16::MAX as int)
    }

    /// Translates a virtual y-coordinate into physical grid space.
    pub open spec fn to_screen_y(&self, vy: int) -> int {
        int_min(int_max(vy - self.offset_y, 0) + self.area.y, u16::MAX as int)
    }

    /// Writing `request` through this mediator touches the physical cell
    /// `(px, py)`: the cell lies in the screen image of the visible part of
    /// the request.
    pub open spec fn writes_cell(&self, request: Rect, px: int, py: int) -> bool {
        let v = self.visible_of(request);
        &&& !v.is_empty()
        &&& self.to_screen_x(v.x as int) <= px < self.to_screen_x(v.x as int) + v.width
        &&& self.to_screen_y(v.y as int) <= py < self.to_screen_y(v.y as int) + v.height
    }

    /// The entry of the row-major request data that lands on the physical
    /// cell `(px, py)` when writing `request` through this mediator.
    pub open spec fn source_index(&self, request: Rect, px: int, py: int) -> int {
        let v = self.visible_of(request);
        let row = py - self.to_screen_y(v.y as int) + (v.y - request.y);
        let col = px - self.to_screen_x(v.x as int) + (v.x - request.x);
        row * request.width + col
    }

    /// The mediator derived for a child widget: its screen area is the
    /// visible part of `request` mapped to physical space, and its offset is
    /// the requested scroll, corrected on an edge where the parent's own
    /// window (not the request) did the clipping.
    pub open spec fn inner_of(&self, request: Rect, scroll_x: u16, scroll_y: u16) -> BufferMediator {
        let v = self.visible_of(request);
        let cx = self.to_screen_x(v.x as int);
        let cy = self.to_screen_y(v.y as int);
        let ox = if cx == self.area.x {
            int_min(scroll_x + request.width - v.width, u16::MAX as int)
        } else {
            scroll_x as int
        };
        let oy = if cy == self.area.y {
            int_min(scroll_y + request.height - v.height, u16::MAX as int)
        } else {
            scroll_y as int
        };
        BufferMediator {
            area: Rect { x: cx as u16, y: cy as u16, width: v.width, height: v.height },
            offset_x: ox as u16,
            offset_y: oy as u16,
        }
    }

    pub fn new(area: Rect, offset_x: u16, offset_y: u16) -> (m: BufferMediator)
        ensures
            m == (BufferMediator { area, offset_x, offset_y }),
    {
        BufferMediator { area, offset_x, offset_y }
    }

    /// Clips a virtual-space request to this mediator's window: the returned
    /// rectangle is the reachable part of `area`, still in virtual space, and
    /// is empty when the request is wholly outside the window.
    pub fn get_visible_region(&self, area: &Rect) -> (r: Rect)
        ensures
            r == self.visible_of(*area),
    {
        let window = Rect::new(self.offset_x, self.offset_y, self.area.width, self.area.height);
        window.crop(area)
    }

    /// Translates a virtual-space rectangle into physical grid space by
    /// removing the virtual offset and anchoring at the viewport's corner;
    /// the corner translation saturates instead of wrapping.
    pub fn map_to_screen_space(&self, area: &Rect) -> (r: Rect)
        ensures
            r.x == self.to_screen_x(area.x as int),
            r.y == self.to_screen_y(area.y as int),
            r.width == area.width,
            r.height == area.height,
    {
        Rect::new(
            area.x.saturating_sub(self.offset_x).saturating_add(self.area.x),
            area.y.saturating_sub(self.offset_y).saturating_add(self.area.y),
            area.width,
            area.height,
        )
    }

    /// The zero-origin extent a widget drawing through this mediator can use.
    pub fn size(&self) -> (r: Rect)
        ensures
            r == (Rect { x: 0, y: 0, width: self.area.width, height: self.area.height }),
    {
        Rect::new(0, 0, self.area.width, self.area.height)
    }

    /// Writes `data`, laid out row-major with `area`'s dimensions, into the
    /// part of `area` this mediator can see. Whatever falls outside the
    /// window is silently dropped, and a fully hidden request changes
    /// nothing: scrolled-off content is expected, not an error.
    #[verifier::rlimit(60)]
    pub fn write<T: CellValue, B: Buffer<T>>(&self, data: &[T], area: Rect, buffer: &mut B)
        requires
            old(buffer).cells().len() == old(buffer).grid_width() * old(buffer).grid_height(),
            self.area.width > 0 && self.area.height > 0 ==> self.area.x + self.area.width <= old(
                buffer,
            ).grid_width() && self.area.y + self.area.height <= old(buffer).grid_height(),
            data@.len() == area.width * area.height,
        ensures
            final(buffer).cells().len() == final(buffer).grid_width() * final(buffer).grid_height(),
            final(buffer).grid_width() == old(buffer).grid_width(),
            final(buffer).grid_height() == old(buffer).grid_height(),
            forall|px: int, py: int| #![trigger self.writes_cell(area, px, py)]
                0 <= px < old(buffer).grid_width() && 0 <= py < old(buffer).grid_height() ==> final(buffer).cells()[py * old(buffer).grid_width() + px] == (if self.writes_cell(
                    area,
                    px,
                    py,
                ) {
                    data@[self.source_index(area, px, py)]
                } else {
                    old(buffer).cells()[py * old(buffer).grid_width() + px]
                }),
    {
        let visible = self.get_visible_region(&area);
        if visible.width == 0 || visible.height == 0 {
            return;
        }
        let first_x = visible.x - area.x;
        let first_y = visible.y - area.y;
        let screen = self.map_to_screen_space(&visible);
        proof {
            lemma_area_small(area.width as int, area.height as int);
        }
        let ghost buf0 = *buffer;
        let ghost gw = buf0.grid_width();
        let ghost gh = buf0.grid_height();
        let mut i: u16 = 0;
        while i < visible.height
            invariant
                buffer.cells().len() == gw * gh,
                buffer.grid_width() == gw,
                buffer.grid_height() == gh,
                buf0.cells().len() == gw * gh,
                buf0.grid_width() == gw,
                buf0.grid_height() == gh,
                self.area.width > 0 && self.area.height > 0,
                self.area.x + self.area.width <= gw,
                self.area.y + self.area.height <= gh,
                data@.len() == area.width * area.height,
                data@.len() <= 0xffff * 0xffff,
                visible == self.visible_of(area),
                !visible.is_empty(),
                screen.x == self.to_screen_x(visible.x as int),
                screen.y == self.to_screen_y(visible.y as int),
                screen.x == visible.x - self.offset_x + self.area.x,
                screen.y == visible.y - self.offset_y + self.area.y,
                first_x == visible.x - area.x,
                first_y == visible.y - area.y,
                first_x + visible.width <= area.width,
                first_y + visible.height <= area.height,
                screen.x + visible.width <= gw,
                screen.y + visible.height <= gh,
                i <= visible.height,
                forall|px: int, py: int| #![trigger self.writes_cell(area, px, py)]
                    0 <= px < gw && 0 <= py < gh ==> buffer.cells()[py * gw + px] == (
                    if self.writes_cell(area, px, py) && py < screen.y + i {
                        data@[self.source_index(area, px, py)]
                    } else {
                        buf0.cells()[py * gw + px]
                    }),
            decreases visible.height - i,
        {
            proof {
                lemma_run_end(
                    first_x as int,
                    visible.width as int,
                    i + first_y,
                    area.width as int,
                    area.height as int,
                );
            }
            let row_start: usize = (i as usize + first_y as usize) * (area.width as usize)
                + first_x as usize;
            let row: &[T] = vstd::slice::slice_subrange(
                data,
                row_start,
                row_start + visible.width as usize,
            );
            let ghost pre = *buffer;
            buffer.draw_line(row, screen.x, screen.y + i, visible.width);
            let ghost prev_i = i;
            i = i + 1;
            proof {
                let w = gw as int;
                let h = gh as int;
                let sx = screen.x as int;
                let sy = screen.y + prev_i;
                let len = visible.width as int;
                assert(pre.grid_width() == gw && pre.grid_height() == gh);
                assert forall|px: int, py: int| #![trigger self.writes_cell(area, px, py)]
                    0 <= px < gw && 0 <= py < gh implies buffer.cells()[py * gw + px] == (
                    if self.writes_cell(area, px, py) && py < screen.y + i {
                    data@[self.source_index(area, px, py)]
                } else {
                    buf0.cells()[py * gw + px]
                }) by {
                    lemma_cell_index(px, py, w, h);
                    lemma_row_range(px, py, sx, sy, len, w, h);
                    let k = py * w + px;
                    if self.writes_cell(area, px, py) {
                        if py == sy && sx <= px < sx + len {
                            let q = px - sx;
                            assert(buffer.cells()[sy * w + sx + q] == row@[q]);
                            assert(row@[q] == data@[row_start + q]);
                        } else {
                            assert(buffer.cells()[k] == pre.cells()[k]);
                            assert(pre.cells()[py * gw + px] == (if self.writes_cell(
                                area,
                                px,
                                py,
                            ) && py < screen.y + prev_i {
                                data@[self.source_index(area, px, py)]
                            } else {
                                buf0.cells()[py * gw + px]
                            }));
                        }
                    } else {
                        assert(buffer.cells()[k] == pre.cells()[k]);
                        assert(pre.cells()[py * gw + px] == (if self.writes_cell(area, px, py)
                            && py < screen.y + prev_i {
                            data@[self.source_index(area, px, py)]
                        } else {
                            buf0.cells()[py * gw + px]
                        }));
                    }
                }
            }
        }
    }

    /// Derives the mediator a child widget receives when the parent delegates
    /// rendering into `area` with additional scroll `(offset_x, offset_y)`.
    /// The child sees the visible part of the request, mapped to physical
    /// space; its offset is the requested scroll, increased by the clipped
    /// amount on an edge where the parent's own window did the clipping.
    pub fn generate_inner(&self, area: &Rect, offset_x: u16, offset_y: u16) -> (m: BufferMediator)
        ensures
            m == self.inner_of(*area, offset_x, offset_y),
    {
        let visible = self.get_visible_region(area);
        let client_area = self.map_to_screen_space(&visible);
        let offset_x = if client_area.x == self.area.x {
            offset_x.saturating_add(area.width - client_area.width)
        } else {
            offset_x
        };
        let offset_y = if client_area.y == self.area.y {
            offset_y.saturating_add(area.height - client_area.height)
        } else {
            offset_y
        };
        BufferMediator { area: client_area, offset_x, offset_y }
    }
}

/// Every cell a mediated write can touch lies inside the mediator's screen
/// area: writes can never escape the viewport, however large the request.
pub proof fn lemma_writes_stay_inside_area(m: BufferMediator, request: Rect, px: int, py: int)
    requires
        m.area.x + m.area.width <= u16::MAX,
        m.area.y + m.area.height <= u16::MAX,
        m.writes_cell(request, px, py),
    ensures
        m.area.covers_point(px, py),
{
}

/// A request wholly outside the mediator's window touches no cell: writing
/// any data to it leaves every cell of the grid unchanged.
pub proof fn lemma_outside_window_writes_nothing(
    m: BufferMediator,
    request: Rect,
    px: int,
    py: int,
)
    requires
        !m.window().overlaps(request),
    ensures
        !m.writes_cell(request, px, py),
{
    crate::rect::lemma_disjoint_crop_empty(m.window(), request);
}

/// A child mediator derived from a parent that stays inside a grid stays
/// inside the same grid: nesting viewports can never escape the screen.
pub proof fn lemma_inner_of_fits(
    m: BufferMediator,
    request: Rect,
    sx: u16,
    sy: u16,
    gw: u16,
    gh: u16,
)
    requires
        m.area.width > 0 && m.area.height > 0 ==> m.area.x + m.area.width <= gw && m.area.y
            + m.area.height <= gh,
    ensures
        m.inner_of(request, sx, sy).area.width > 0 && m.inner_of(request, sx, sy).area.height > 0
            ==> m.inner_of(request, sx, sy).area.x + m.inner_of(request, sx, sy).area.width <= gw
            && m.inner_of(request, sx, sy).area.y + m.inner_of(request, sx, sy).area.height <= gh,
{
}

/// A request fully inside the parent's window derives a child whose area is
/// exactly the mapped request and whose offset is exactly the requested
/// scroll: no boundary correction applies.
pub proof fn lemma_inner_of_contained(m: BufferMediator, request: Rect, sx: u16, sy: u16)
    requires
        !request.is_empty(),
        m.window().encloses(request),
        request.x + request.width <= u16::MAX,
        request.y + request.height <= u16::MAX,
        m.area.x + m.area.width <= u16::MAX,
        m.area.y + m.area.height <= u16::MAX,
    ensures
        m.inner_of(request, sx, sy).area == (Rect {
            x: (request.x - m.offset_x + m.area.x) as u16,
            y: (request.y - m.offset_y + m.area.y) as u16,
            width: request.width,
            height: request.height,
        }),
        m.inner_of(request, sx, sy).offset_x == sx,
        m.inner_of(request, sx, sy).offset_y == sy,
{
    assert(m.visible_of(request) == request);
}

} // verus!
