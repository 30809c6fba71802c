//! The three attributes a terminal cell carries: a background color, a
//! foreground color and a glyph, together with the trait that gives each
//! attribute its blank (default) value for freshly allocated grids.

use vstd::prelude::*;

verus! {

/// A terminal color, either one of the sixteen named colors, the terminal's
/// reset color, a 24-bit color, or an ANSI palette index.
#[derive(Clone, Copy, Debug, PartialEq, Eq, Structural)]
pub enum Color {
    Reset,
    Black,
    DarkGrey,
    Red,
    DarkRed,
    Green,
    DarkGreen,
    Yellow,
    DarkYellow,
    Blue,
    DarkBlue,
    Magenta,
    DarkMagenta,
    Cyan,
    DarkCyan,
    White,
    Grey,
    Rgb { r: u8, g: u8, b: u8 },
    AnsiValue(u8),
}

/// The background color attribute of a cell.
#[derive(Clone, Copy, Debug, PartialEq, Eq, Structural)]
pub struct BackgroundColor(pub Color);

/// The foreground color attribute of a cell.
#[derive(Clone, Copy, Debug, PartialEq, Eq, Structural)]
pub struct ForegroundColor(pub Color);

/// The glyph drawn in a cell.
#[derive(Clone, Copy, Debug, PartialEq, Eq, Structural)]
pub struct Simble(pub char);

/// A value that can fill one cell of a grid: it is plain data and has a
/// designated blank value, the one a fresh or reset grid holds everywhere.
pub trait CellValue: Sized + Copy {
    /// The blank value, as a mathematical constant.
    spec fn blank_value() -> Self;

    /// Returns the blank value.
    fn blank() -> (r: Self)
        ensures
            r == Self::blank_value(),
    ;
}

impl CellValue for BackgroundColor {
    open spec fn blank_value() -> Self {
        BackgroundColor(Color::Black)
    }

    fn blank() -> Self {
        BackgroundColor(Color::Black)
    }
}

impl CellValue for ForegroundColor {
    open spec fn blank_value() -> Self {
        ForegroundColor(Color::White)
    }

    fn blank() -> Self {
        ForegroundColor(Color::White)
    }
}

impl CellValue for Simble {
    open spec fn blank_value() -> Self {
        Simble(' ')
    }

    fn blank() -> Self {
        Simble(' ')
    }
}

impl CellValue for u8 {
    open spec fn blank_value() -> Self {
        0u8
    }

    fn blank() -> Self {
        0u8
    }
}

impl CellValue for bool {
    open spec fn blank_value() -> Self {
        false
    }

    fn blank() -> Self {
        false
    }
}

impl Default for BackgroundColor {
    /// A cell's background defaults to black.
    fn default() -> (r: Self)
        ensures
            r == BackgroundColor(Color::Black),
    {
        BackgroundColor(Color::Black)
    }
}

impl Default for ForegroundColor {
    /// A cell's foreground defaults to white.
    fn default() -> (r: Self)
        ensures
            r == ForegroundColor(Color::White),
    {
        ForegroundColor(Color::White)
    }
}

impl Default for Simble {
    /// A cell's glyph defaults to a space.
    fn default() -> (r: Self)
        ensures
            r == Simble(' '),
    {
        Simble(' ')
    }
}

} // verus!
