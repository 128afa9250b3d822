//! The two panels of a frame: the file list on the left, the content on the
//! right.

use tui::layout::{Constraint, Direction, Layout, Rect};
use vstd::prelude::*;

verus! {

/// A rectangle of terminal cells.
#[derive(Clone, Copy, Debug, PartialEq, Eq, Structural)]
pub struct Area {
    pub x: u16,
    pub y: u16,
    pub width: u16,
    pub height: u16,
}

/// Where the two panels of a frame are drawn.
#[derive(Clone, Copy, Debug, PartialEq, Eq, Structural)]
pub struct Panels {
    /// The file list.
    pub files: Area,
    /// The content of the selected entry.
    pub content: Area,
}

/// The title on the border of the file list.
pub const FILES_TITLE: &'static str = "Files";

/// The title on the border of the content panel.
pub const CONTENT_TITLE: &'static str = "Content";

/// The share of the frame's width that the file list asks for, in percent.
pub const FILES_PERCENT: u16 = 30;

/// The share of the frame's width that the content asks for, in percent.
pub const CONTENT_PERCENT: u16 = 70;

/// The areas that the layout solver can take with a column that asks for
/// `percent` of the width: the solver multiplies the two, and adds the
/// area's height to its top row, in sixteen bits.
pub open spec fn solver_takes(area: Area, percent: u16) -> bool {
    &&& percent * area.width <= u16::MAX
    &&& area.y + area.height <= u16::MAX
}

/// The area ends within the columns that sixteen bits can count.
pub open spec fn ends_in_range(area: Area) -> bool {
    area.x + area.width <= u16::MAX
}

/// The frames that can be split into the two panels: those that the layout
/// solver can take and that end within the columns that sixteen bits can
/// count.
pub open spec fn can_split(area: Area) -> bool {
    &&& solver_takes(area, FILES_PERCENT)
    &&& solver_takes(area, CONTENT_PERCENT)
    &&& ends_in_range(area)
}

/// The width of the file list in a frame of the given width: 30% of it,
/// rounded down.
pub open spec fn files_width(width: u16) -> int {
    FILES_PERCENT * width / 100
}

/// The two panels of a frame, side by side over its whole height: the file
/// list on the left with 30% of the width, rounded down, and the content on
/// the right with the rest.
pub open spec fn panels_for(area: Area) -> Panels {
    Panels {
        files: Area {
            x: area.x,
            y: area.y,
            width: files_width(area.width) as u16,
            height: area.height,
        },
        content: Area {
            x: (area.x + files_width(area.width)) as u16,
            y: area.y,
            width: (area.width - files_width(area.width)) as u16,
            height: area.height,
        },
    }
}

/// Calls `tui::layout::Layout::split` on a horizontal layout of two columns
/// that ask for `left_percent` and `right_percent` of the width of `area`.
///
/// The areas left out are those on which the solver's own arithmetic
/// overflows or its required constraints cannot be met.
///
/// What the contract claims, and on what ground:
/// - one rectangle comes back for each column;
/// - the first column starts at the left edge of the area, and both columns
///   have the area's top row and height: tui hands these to the solver as
///   required constraints, which the solver never violates;
/// - where the area ends within range, the second column ends at the
///   area's right edge: tui sets its width to what is left up to that edge;
/// - where moreover the two shares add up to 100, the first column has its
///   share of the width, rounded down, and the second begins where the
///   first ends: the shares are weak constraints, the solver enforces every
///   constraint where all can hold together, as they can here, and tui
///   cuts each value down to a whole number.
///
/// Where the shares do not add up to 100, or the area ends out of range,
/// the shares compete, and the contract says nothing of how the solver
/// settles them.
#[verifier::external_body]
fn split_columns(area: Area, left_percent: u16, right_percent: u16) -> (columns: Vec<Area>)
    requires
        solver_takes(area, left_percent),
        solver_takes(area, right_percent),
    ensures
        columns@.len() == 2,
        columns@[0].x == area.x,
        columns@[0].y == area.y,
        columns@[1].y == area.y,
        columns@[0].height == area.height,
        columns@[1].height == area.height,
        ends_in_range(area) ==> columns@[1].x + columns@[1].width == area.x + area.width,
        ends_in_range(area) && left_percent + right_percent == 100
            ==> columns@[0].width == left_percent * area.width / 100,
        ends_in_range(area) && left_percent + right_percent == 100
            ==> columns@[1].x == columns@[0].x + columns@[0].width,
{
    let rect = Rect { x: area.x, y: area.y, width: area.width, height: area.height };
    let shares = [Constraint::Percentage(left_percent), Constraint::Percentage(right_percent)];
    let layout = Layout::default().direction(Direction::Horizontal).constraints(shares.as_ref());
    let mut columns = Vec::new();
    for r in layout.split(rect) {
        columns.push(Area { x: r.x, y: r.y, width: r.width, height: r.height });
    }
    columns
}

/// Takes the panels from the columns of a split: the file list is the
/// first column and the content the second. Fewer than two columns hold no
/// panels.
pub fn panels_of(columns: &Vec<Area>) -> (panels: Option<Panels>)
    ensures
        panels == if columns@.len() >= 2 {
            Some(Panels { files: columns@[0], content: columns@[1] })
        } else {
            None
        },
{
    if columns.len() >= 2 {
        Some(Panels { files: columns[0], content: columns[1] })
    } else {
        None
    }
}

/// Tells whether `area` can be split into the two panels.
pub fn splits(area: Area) -> (yes: bool)
    ensures
        yes == can_split(area),
{
    let widest: u16 = u16::MAX / CONTENT_PERCENT;
    area.width <= widest && area.height <= u16::MAX - area.y && area.width <= u16::MAX - area.x
}

/// Splits the frame into the two panels, side by side over its whole
/// height: the file list asks the layout solver for 30% of the width and
/// the content for 70%, which gives the file list 30% of the width, rounded
/// down, and the content the rest. A frame that cannot be split has no
/// panels.
pub fn split_panels(area: Area) -> (panels: Option<Panels>)
    ensures
        panels == if can_split(area) {
            Some(panels_for(area))
        } else {
            None::<Panels>
        },
{
    if splits(area) {
        let columns = split_columns(area, FILES_PERCENT, CONTENT_PERCENT);
        panels_of(&columns)
    } else {
        None
    }
}

} // verus!
