//! How the rows of the file list are drawn.

use vstd::prelude::*;

verus! {

/// A colour of the terminal's palette.
#[derive(Clone, Copy, Debug, PartialEq, Eq)]
pub enum Color {
    Yellow,
}

/// The style of a piece of text: its colour, where it has one of its own,
/// and whether it is bold.
#[derive(Clone, Copy, Debug, PartialEq, Eq)]
pub struct Style {
    pub foreground: Option<Color>,
    pub bold: bool,
}

/// The style of a row of the file list: bold and yellow for the selected
/// entry, the terminal's own style for every other.
pub open spec fn row_style(selected: bool) -> Style {
    if selected {
        Style { foreground: Some(Color::Yellow), bold: true }
    } else {
        Style { foreground: None, bold: false }
    }
}

impl Style {
    /// Gives the style of a row of the file list.
    pub fn for_row(selected: bool) -> (style: Style)
        ensures
            style == row_style(selected),
    {
        if selected {
            Style { foreground: Some(Color::Yellow), bold: true }
        } else {
            Style { foreground: None, bold: false }
        }
    }
}

} // verus!
