//! Terminal colors and styles for the board display.
use vstd::prelude::*;

verus! {

/// A terminal color, as far as the board display needs one. `Reset` stands
/// for the terminal's default color.
#[derive(Clone, Copy, Debug, PartialEq, Eq, Structural)]
pub enum Hue {
    White,
    Black,
    Magenta,
    Yellow,
    Reset,
}

/// A character style: a foreground and a background color.
#[derive(Clone, Copy, Debug, PartialEq, Eq, Structural)]
pub struct Style {
    pub fg: Hue,
    pub bg: Hue,
}

/// One cell of the styled character buffer.
#[derive(Clone, Copy, Debug, PartialEq, Eq, Structural)]
pub struct Cell {
    pub ch: char,
    pub style: Style,
}

/// The style of a buffer cell that nothing has drawn on.
pub open spec fn default_style() -> Style {
    Style { fg: Hue::Reset, bg: Hue::Reset }
}

/// The blank cell that the buffer is initially filled with.
pub open spec fn blank_cell() -> Cell {
    Cell { ch: ' ', style: default_style() }
}

/// Builds a cell from a character and a style.
pub open spec fn spec_cell(c: char, st: Style) -> Cell {
    Cell { ch: c, style: st }
}

} // verus!
