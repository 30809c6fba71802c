//! Text painting helpers on the frame writer: a single line of glyphs, and a
//! paragraph laid out over several rows, both clipped through the current
//! viewport like every other write.

use vstd::prelude::*;

use crate::buffer::{lemma_cell_index, Buffer};
use crate::cell::Simble;
use crate::mediator::BufferMediator;
use crate::rect::Rect;
use crate::writer::TerminalWriter;

verus! {

/// The one-row request rectangle of a text line of `len` glyphs at `(x, y)`.
pub open spec fn line_area(x: u16, y: u16, len: nat) -> Rect {
    Rect { x, y, width: len as u16, height: 1 }
}

impl TerminalWriter {
    /// Writes one line of text, one glyph per character, with its left end at
    /// `(x, y)` in the current viewport's virtual space; whatever is scrolled
    /// or clipped away is dropped silently.
    pub fn write_text_line(&mut self, text: &str, x: u16, y: u16)
        requires
            old(self).inv(),
            text@.len() <= u16::MAX,
        ensures
            final(self).inv(),
            final(self).same_frame(*old(self)),
            final(self).background == old(self).background,
            final(self).foreground == old(self).foreground,
            final(self).previous_background == old(self).previous_background,
            final(self).previous_foreground == old(self).previous_foreground,
            final(self).previous_text == old(self).previous_text,
            forall|px: int, py: int|
                #![trigger old(self).current_mediator().writes_cell(line_area(x, y, text@.len()), px, py)]
                0 <= px < old(self).width() && 0 <= py < old(self).height() ==> final(self).text.cells()[py * old(self).width() + px] == (if old(self).current_mediator().writes_cell(
                    line_area(x, y, text@.len()),
                    px,
                    py,
                ) {
                    Simble(
                        text@[old(self).current_mediator().source_index(
                            line_area(x, y, text@.len()),
                            px,
                            py,
                        )],
                    )
                } else {
                    old(self).text.cells()[py * old(self).width() + px]
                }),
    {
        let n = text.unicode_len();
        let mut simblevector: Vec<Simble> = Vec::new();
        let mut i: usize = 0;
        while i < n
            invariant
                n == text@.len(),
                i <= n,
                simblevector@.len() == i,
                forall|k: int| 0 <= k < i ==> simblevector@[k] == Simble(text@[k]),
            decreases n - i,
        {
            simblevector.push(Simble(text.get_char(i)));
            i = i + 1;
        }
        let area = Rect::new(x, y, n as u16, 1);
        let ghost m = self.current_mediator();
        let ghost pre = *self;
        self.write_simbles(simblevector.as_slice(), area);
        proof {
            let gw = pre.width();
            let gh = pre.height();
            assert forall|px: int, py: int|
                #![trigger m.writes_cell(line_area(x, y, text@.len()), px, py)]
                0 <= px < gw && 0 <= py < gh implies self.text.cells()[py * gw + px] == (
            if m.writes_cell(line_area(x, y, text@.len()), px, py) {
                Simble(text@[m.source_index(line_area(x, y, text@.len()), px, py)])
            } else {
                pre.text.cells()[py * gw + px]
            }) by {
                if m.writes_cell(area, px, py) {
                    let v = m.visible_of(area);
                    let col = px - m.to_screen_x(v.x as int) + (v.x - area.x);
                    let row = py - m.to_screen_y(v.y as int) + (v.y - area.y);
                    lemma_cell_index(col, row, area.width as int, area.height as int);
                    assert(simblevector@[m.source_index(area, px, py)] == Simble(
                        text@[m.source_index(area, px, py)],
                    ));
                }
            }
        }
    }
}


/// A line as the `lines` split sees it: a trailing carriage return before the
/// newline is dropped.
pub open spec fn strip_cr(line: Seq<char>) -> Seq<char> {
    if line.len() > 0 && line.last() == '\r' {
        line.drop_last()
    } else {
        line
    }
}

/// The wrapping scan after consuming `s`: the finished rows and the pending
/// line. A newline finishes the pending line; so does exceeding `break_at`
/// glyphs, in which case the character starts the next line.
pub open spec fn wrap_state(s: Seq<char>, break_at: int) -> (Seq<Seq<char>>, Seq<char>)
    decreases s.len(),
{
    if s.len() == 0 {
        (Seq::empty(), Seq::empty())
    } else {
        let prev = wrap_state(s.drop_last(), break_at);
        let c = s.last();
        if c == '\n' || prev.1.len() > break_at {
            (prev.0.push(prev.1), if c == '\n' {
                Seq::empty()
            } else {
                seq![c]
            })
        } else {
            (prev.0, prev.1.push(c))
        }
    }
}

/// The rows a wrapped paragraph occupies: the finished rows plus the pending
/// line if it is not empty.
pub open spec fn wrapped_rows(s: Seq<char>, break_at: int) -> Seq<Seq<char>> {
    let st = wrap_state(s, break_at);
    if st.1.len() > 0 {
        st.0.push(st.1)
    } else {
        st.0
    }
}

/// The line-splitting scan after consuming `s`: rows finished by a newline
/// (with a carriage return before it dropped) and the pending line.
pub open spec fn lines_state(s: Seq<char>) -> (Seq<Seq<char>>, Seq<char>)
    decreases s.len(),
{
    if s.len() == 0 {
        (Seq::empty(), Seq::empty())
    } else {
        let prev = lines_state(s.drop_last());
        let c = s.last();
        if c == '\n' {
            (prev.0.push(strip_cr(prev.1)), Seq::empty())
        } else {
            (prev.0, prev.1.push(c))
        }
    }
}

/// The rows of a text split at newlines, the way an unwrapped paragraph
/// writes them: a trailing segment only if it is not empty.
pub open spec fn split_lines(s: Seq<char>) -> Seq<Seq<char>> {
    let st = lines_state(s);
    if st.1.len() > 0 {
        st.0.push(st.1)
    } else {
        st.0
    }
}

/// The rows a paragraph paints: wrapped at `break_at` glyphs when a break
/// width is given, split at newlines only when it is not.
pub open spec fn rows_of(s: Seq<char>, line_break: Option<u16>) -> Seq<Seq<char>> {
    match line_break {
        Some(bp) => wrapped_rows(s, bp as int),
        None => split_lines(s),
    }
}

/// The row where row `r` of a paragraph starts: rows advance down the screen
/// when a break width is given; without one every line lands on `y`, each
/// overwriting what the previous left there.
pub open spec fn row_y(line_break: Option<u16>, y: u16, r: int) -> int {
    match line_break {
        Some(_) => y + r,
        None => y as int,
    }
}

/// The request rectangle of row `r` of a paragraph at `(x, y)`.
pub open spec fn row_rect(rows: Seq<Seq<char>>, line_break: Option<u16>, x: u16, y: u16, r: int) -> Rect {
    Rect { x, y: row_y(line_break, y, r) as u16, width: rows[r].len() as u16, height: 1 }
}

/// The last row among the first `t` whose write reaches the physical cell
/// `(px, py)`, or -1 when none does: since later rows are written later,
/// this is the row whose glyph the cell ends up holding.
pub open spec fn last_covering(
    m: BufferMediator,
    rows: Seq<Seq<char>>,
    line_break: Option<u16>,
    x: u16,
    y: u16,
    px: int,
    py: int,
    t: int,
) -> int
    decreases t,
{
    if t <= 0 {
        -1
    } else if m.writes_cell(row_rect(rows, line_break, x, y, t - 1), px, py) {
        t - 1
    } else {
        last_covering(m, rows, line_break, x, y, px, py, t - 1)
    }
}

/// One step of the wrapping scan.
proof fn lemma_wrap_state_step(s: Seq<char>, i: int, break_at: int)
    requires
        0 <= i < s.len(),
    ensures
        wrap_state(s.take(i + 1), break_at) == (if s[i] == '\n' || wrap_state(
            s.take(i),
            break_at,
        ).1.len() > break_at {
            (
                wrap_state(s.take(i), break_at).0.push(wrap_state(s.take(i), break_at).1),
                if s[i] == '\n' {
                    Seq::<char>::empty()
                } else {
                    seq![s[i]]
                },
            )
        } else {
            (wrap_state(s.take(i), break_at).0, wrap_state(s.take(i), break_at).1.push(s[i]))
        }),
{
    assert(s.take(i + 1).drop_last() =~= s.take(i));
    assert(s.take(i + 1).last() == s[i]);
}

/// One step of the line-splitting scan.
proof fn lemma_lines_state_step(s: Seq<char>, i: int)
    requires
        0 <= i < s.len(),
    ensures
        lines_state(s.take(i + 1)) == (if s[i] == '\n' {
            (lines_state(s.take(i)).0.push(strip_cr(lines_state(s.take(i)).1)), Seq::<char>::empty())
        } else {
            (lines_state(s.take(i)).0, lines_state(s.take(i)).1.push(s[i]))
        }),
{
    assert(s.take(i + 1).drop_last() =~= s.take(i));
    assert(s.take(i + 1).last() == s[i]);
}

/// A whole text is its own `take`.
proof fn lemma_take_all(s: Seq<char>)
    ensures
        s.take(s.len() as int) == s,
{
    assert(s.take(s.len() as int) =~= s);
}

/// One step of the row scan that finds the winning row of a cell.
proof fn lemma_last_covering_step(
    m: BufferMediator,
    rows: Seq<Seq<char>>,
    line_break: Option<u16>,
    x: u16,
    y: u16,
    px: int,
    py: int,
    t: int,
)
    requires
        t >= 0,
    ensures
        last_covering(m, rows, line_break, x, y, px, py, t + 1) == (if m.writes_cell(
            row_rect(rows, line_break, x, y, t),
            px,
            py,
        ) {
            t
        } else {
            last_covering(m, rows, line_break, x, y, px, py, t)
        }),
{
}


/// Splits a text into wrapped paragraph rows, one glyph per character.
fn layout_wrapped(text: &str, break_at: u16) -> (rows: Vec<Vec<Simble>>)
    ensures
        rows@.len() == wrapped_rows(text@, break_at as int).len(),
        forall|r: int|
            0 <= r < rows@.len() ==> (#[trigger] rows@[r])@.len() == wrapped_rows(
                text@,
                break_at as int,
            )[r].len() && rows@[r]@.len() <= text@.len(),
        forall|r: int, k: int|
            0 <= r < rows@.len() && 0 <= k < rows@[r]@.len() ==> #[trigger] (rows@[r]@[k])
                == Simble(wrapped_rows(text@, break_at as int)[r][k]),
{
    let n = text.unicode_len();
    let mut rows: Vec<Vec<Simble>> = Vec::new();
    let mut cur: Vec<Simble> = Vec::new();
    let mut i: usize = 0;
    while i < n
        invariant
            n == text@.len(),
            i <= n,
            rows@.len() == wrap_state(text@.take(i as int), break_at as int).0.len(),
            forall|r: int|
                0 <= r < rows@.len() ==> (#[trigger] rows@[r])@.len() == wrap_state(
                    text@.take(i as int),
                    break_at as int,
                ).0[r].len() && rows@[r]@.len() <= n,
            forall|r: int, k: int|
                0 <= r < rows@.len() && 0 <= k < rows@[r]@.len() ==> #[trigger] (rows@[r]@[k])
                    == Simble(wrap_state(text@.take(i as int), break_at as int).0[r][k]),
            cur@.len() == wrap_state(text@.take(i as int), break_at as int).1.len(),
            cur@.len() <= i,
            forall|k: int|
                0 <= k < cur@.len() ==> cur@[k] == Simble(
                    wrap_state(text@.take(i as int), break_at as int).1[k],
                ),
        decreases n - i,
    {
        let c = text.get_char(i);
        proof {
            lemma_wrap_state_step(text@, i as int, break_at as int);
        }
        if c == '\n' || cur.len() > break_at as usize {
            rows.push(cur);
            cur = Vec::new();
            if c != '\n' {
                cur.push(Simble(c));
            }
        } else {
            cur.push(Simble(c));
        }
        i = i + 1;
    }
    proof {
        lemma_take_all(text@);
    }
    if cur.len() > 0 {
        rows.push(cur);
    }
    rows
}

/// Splits a text at newlines into paragraph rows, one glyph per character,
/// dropping a carriage return that stands just before a newline.
fn layout_lines(text: &str) -> (rows: Vec<Vec<Simble>>)
    ensures
        rows@.len() == split_lines(text@).len(),
        forall|r: int|
            0 <= r < rows@.len() ==> (#[trigger] rows@[r])@.len() == split_lines(text@)[r].len()
                && rows@[r]@.len() <= text@.len(),
        forall|r: int, k: int|
            0 <= r < rows@.len() && 0 <= k < rows@[r]@.len() ==> #[trigger] (rows@[r]@[k])
                == Simble(split_lines(text@)[r][k]),
{
    let n = text.unicode_len();
    let mut rows: Vec<Vec<Simble>> = Vec::new();
    let mut cur: Vec<Simble> = Vec::new();
    let mut i: usize = 0;
    while i < n
        invariant
            n == text@.len(),
            i <= n,
            rows@.len() == lines_state(text@.take(i as int)).0.len(),
            forall|r: int|
                0 <= r < rows@.len() ==> (#[trigger] rows@[r])@.len() == lines_state(
                    text@.take(i as int),
                ).0[r].len() && rows@[r]@.len() <= n,
            forall|r: int, k: int|
                0 <= r < rows@.len() && 0 <= k < rows@[r]@.len() ==> #[trigger] (rows@[r]@[k])
                    == Simble(lines_state(text@.take(i as int)).0[r][k]),
            cur@.len() == lines_state(text@.take(i as int)).1.len(),
            cur@.len() <= i,
            forall|k: int|
                0 <= k < cur@.len() ==> cur@[k] == Simble(
                    lines_state(text@.take(i as int)).1[k],
                ),
        decreases n - i,
    {
        let c = text.get_char(i);
        proof {
            lemma_lines_state_step(text@, i as int);
        }
        if c == '\n' {
            let len_cur = cur.len();
            if len_cur > 0 {
                if cur[len_cur - 1] == Simble('\r') {
                    let _ = cur.pop();
                }
            }
            rows.push(cur);
            cur = Vec::new();
        } else {
            cur.push(Simble(c));
        }
        i = i + 1;
    }
    proof {
        lemma_take_all(text@);
    }
    if cur.len() > 0 {
        rows.push(cur);
    }
    rows
}

/// The rows a paragraph paints, as glyph runs.
fn layout_rows(text: &str, line_break: Option<u16>) -> (rows: Vec<Vec<Simble>>)
    ensures
        rows@.len() == rows_of(text@, line_break).len(),
        forall|r: int|
            0 <= r < rows@.len() ==> (#[trigger] rows@[r])@.len() == rows_of(
                text@,
                line_break,
            )[r].len() && rows@[r]@.len() <= text@.len(),
        forall|r: int, k: int|
            0 <= r < rows@.len() && 0 <= k < rows@[r]@.len() ==> #[trigger] (rows@[r]@[k])
                == Simble(rows_of(text@, line_break)[r][k]),
{
    match line_break {
        Some(bp) => layout_wrapped(text, bp),
        None => layout_lines(text),
    }
}

impl TerminalWriter {
    /// Writes a paragraph starting at `(x, y)`. With a break width the text
    /// is wrapped: rows end at a newline or after exceeding the width, and
    /// each row lands one screen row further down. Without one the text is
    /// split at newlines only, and every line is written at `y` itself, each
    /// overwriting what the previous one left there.
    pub fn write_paragraph(&mut self, text: &str, x: u16, y: u16, line_break: Option<u16>)
        requires
            old(self).inv(),
            text@.len() <= u16::MAX,
            line_break is Some ==> y + rows_of(text@, line_break).len() <= u16::MAX,
        ensures
            final(self).inv(),
            final(self).same_frame(*old(self)),
            final(self).background == old(self).background,
            final(self).foreground == old(self).foreground,
            final(self).previous_background == old(self).previous_background,
            final(self).previous_foreground == old(self).previous_foreground,
            final(self).previous_text == old(self).previous_text,
            forall|px: int, py: int|
                #![trigger last_covering(old(self).current_mediator(), rows_of(text@, line_break), line_break, x, y, px, py, rows_of(text@, line_break).len() as int)]
                0 <= px < old(self).width() && 0 <= py < old(self).height() ==> final(self).text.cells()[py * old(self).width() + px] == ({
                    let lc = last_covering(
                        old(self).current_mediator(),
                        rows_of(text@, line_break),
                        line_break,
                        x,
                        y,
                        px,
                        py,
                        rows_of(text@, line_break).len() as int,
                    );
                    if lc >= 0 {
                        Simble(
                            rows_of(text@, line_break)[lc][old(self).current_mediator().source_index(
                                row_rect(rows_of(text@, line_break), line_break, x, y, lc),
                                px,
                                py,
                            )],
                        )
                    } else {
                        old(self).text.cells()[py * old(self).width() + px]
                    }
                }),
    {
        let rows = layout_rows(text, line_break);
        let ghost m = self.current_mediator();
        let ghost rows_spec = rows_of(text@, line_break);
        let ghost p0 = *self;
        let ghost gw = p0.width();
        let ghost gh = p0.height();
        let mut t: usize = 0;
        let mut curret_y: u16 = y;
        while t < rows.len()
            invariant
                self.inv(),
                self.same_frame(p0),
                p0 == *old(self),
                self.background == p0.background,
                self.foreground == p0.foreground,
                self.previous_background == p0.previous_background,
                self.previous_foreground == p0.previous_foreground,
                self.previous_text == p0.previous_text,
                gw == p0.width(),
                gh == p0.height(),
                m == p0.current_mediator(),
                rows_spec == rows_of(text@, line_break),
                rows@.len() == rows_spec.len(),
                forall|r: int|
                    0 <= r < rows@.len() ==> (#[trigger] rows@[r])@.len() == rows_spec[r].len()
                        && rows@[r]@.len() <= u16::MAX,
                forall|r: int, k: int|
                    0 <= r < rows@.len() && 0 <= k < rows@[r]@.len() ==> #[trigger] (rows@[r]@[k])
                        == Simble(rows_spec[r][k]),
                t <= rows@.len(),
                curret_y == row_y(line_break, y, t as int),
                line_break is Some ==> y + rows_spec.len() <= u16::MAX,
                forall|px: int, py: int|
                    #![trigger last_covering(m, rows_spec, line_break, x, y, px, py, t as int)]
                    0 <= px < gw && 0 <= py < gh ==> self.text.cells()[py * gw + px] == ({
                        let lc = last_covering(m, rows_spec, line_break, x, y, px, py, t as int);
                        if lc >= 0 {
                            Simble(
                                rows_spec[lc][m.source_index(
                                    row_rect(rows_spec, line_break, x, y, lc),
                                    px,
                                    py,
                                )],
                            )
                        } else {
                            p0.text.cells()[py * gw + px]
                        }
                    }),
            decreases rows@.len() - t,
        {
            let row = &rows[t];
            let area = Rect::new(x, curret_y, row.len() as u16, 1);
            proof {
                assert(area == row_rect(rows_spec, line_break, x, y, t as int));
            }
            let ghost pre = *self;
            self.write_simbles(row.as_slice(), area);
            proof {
                assert(pre.current_mediator() == m);
                assert forall|px: int, py: int|
                    #![trigger last_covering(m, rows_spec, line_break, x, y, px, py, t + 1)]
                    0 <= px < gw && 0 <= py < gh implies self.text.cells()[py * gw + px] == ({
                    let lc = last_covering(m, rows_spec, line_break, x, y, px, py, t + 1);
                    if lc >= 0 {
                        Simble(
                            rows_spec[lc][m.source_index(
                                row_rect(rows_spec, line_break, x, y, lc),
                                px,
                                py,
                            )],
                        )
                    } else {
                        p0.text.cells()[py * gw + px]
                    }
                }) by {
                    lemma_last_covering_step(m, rows_spec, line_break, x, y, px, py, t as int);
                    if m.writes_cell(area, px, py) {
                        let v = m.visible_of(area);
                        let col = px - m.to_screen_x(v.x as int) + (v.x - area.x);
                        let row_i = py - m.to_screen_y(v.y as int) + (v.y - area.y);
                        lemma_cell_index(col, row_i, area.width as int, area.height as int);
                        assert(row@[m.source_index(area, px, py)] == Simble(
                            rows_spec[t as int][m.source_index(area, px, py)],
                        ));
                    } else {
                        assert(self.text.cells()[py * gw + px] == pre.text.cells()[py * gw + px]);
                        assert(pre.text.cells()[py * gw + px] == ({
                            let lc = last_covering(m, rows_spec, line_break, x, y, px, py, t as int);
                            if lc >= 0 {
                                Simble(
                                    rows_spec[lc][m.source_index(
                                        row_rect(rows_spec, line_break, x, y, lc),
                                        px,
                                        py,
                                    )],
                                )
                            } else {
                                p0.text.cells()[py * gw + px]
                            }
                        }));
                    }
                }
            }
            if line_break.is_some() {
                curret_y = curret_y + 1;
            }
            t = t + 1;
        }
    }
}

} // verus!
