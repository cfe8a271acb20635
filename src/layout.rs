//! Placement of a pop-up on the screen.

use vstd::prelude::*;
use ratatui::layout::{Constraint, Direction, Layout, Rect};

verus! {

/// A rectangle of the screen, in cells.
#[derive(Clone, Copy, Debug, PartialEq, Eq, Structural)]
pub struct Area {
    pub x: u16,
    pub y: u16,
    pub width: u16,
    pub height: u16,
}

/// The middle part of `area` cut in three by the percentages `side`,
/// `middle` and `side`, top to bottom when `vertical`, else left to right.
pub uninterp spec fn middle_band(vertical: bool, side: u16, middle: u16, area: Area) -> Area;

/// Relies on ratatui's `Layout::split` with three percentage constraints:
/// its result depends on the direction, the constraints and the area alone.
#[verifier::external_body]
fn split_middle(vertical: bool, side: u16, middle: u16, area: Area) -> (r: Area)
    ensures
        r == middle_band(vertical, side, middle, area),
{
    let direction = if vertical { Direction::Vertical } else { Direction::Horizontal };
    let parts = Layout::default().direction(direction).constraints(
        [Constraint::Percentage(side), Constraint::Percentage(middle), Constraint::Percentage(side)],
    ).split(Rect { x: area.x, y: area.y, width: area.width, height: area.height });
    Area { x: parts[1].x, y: parts[1].y, width: parts[1].width, height: parts[1].height }
}

/// The rectangle of `percent_x` of the width and `percent_y` of the height
/// of `r`, centred in it.
pub fn centered_rect(percent_x: u16, percent_y: u16, r: Area) -> (c: Area)
    requires
        percent_x <= 100,
        percent_y <= 100,
    ensures
        c == middle_band(
            false,
            ((100 - percent_x) / 2) as u16,
            percent_x,
            middle_band(true, ((100 - percent_y) / 2) as u16, percent_y, r),
        ),
{
    let band = split_middle(true, (100 - percent_y) / 2, percent_y, r);
    split_middle(false, (100 - percent_x) / 2, percent_x, band)
}

} // verus!
