//! Placing a popup in the middle of the screen. A rectangle of the screen
//! is given as its column, row, width and height.
use vstd::prelude::*;
use ratatui::layout::{Constraint, Layout, Rect};

verus! {

/// The middle band of `area` that ratatui's vertical layout gives for the
/// constraints `Percentage(outer)`, `Percentage(middle)`, `Percentage(outer)`.
pub uninterp spec fn middle_row(area: (u16, u16, u16, u16), outer: u16, middle: u16) -> (u16, u16, u16, u16);

/// The middle band of `area` that ratatui's horizontal layout gives for the
/// same constraints.
pub uninterp spec fn middle_column(area: (u16, u16, u16, u16), outer: u16, middle: u16) -> (u16, u16, u16, u16);

/// `Layout::vertical([Percentage(outer), Percentage(middle), Percentage(outer)]).split(area)[1]`.
/// Its contract names the result: where the three percentages add up to at
/// most 100, every band can have its share and the layout that gives it is
/// the only best one, so the result depends on the area and the two
/// percentages alone. Where they do not
/// fit, ratatui's solver may pick among equally good layouts, so the call
/// is not made there. Nothing more of the constraint solver is stated.
#[verifier::external_body]
fn split_middle_row(area: (u16, u16, u16, u16), outer: u16, middle: u16) -> (r: (u16, u16, u16, u16))
    requires
        outer * 2 + middle <= 100,
    ensures
        r == middle_row(area, outer, middle),
{
    let rect = Rect { x: area.0, y: area.1, width: area.2, height: area.3 };
    let parts = Layout::vertical(
        [Constraint::Percentage(outer), Constraint::Percentage(middle), Constraint::Percentage(outer)],
    ).split(rect);
    (parts[1].x, parts[1].y, parts[1].width, parts[1].height)
}

/// `Layout::horizontal([Percentage(outer), Percentage(middle), Percentage(outer)]).split(area)[1]`.
/// Its contract names the result, on the same bound as the vertical split.
#[verifier::external_body]
fn split_middle_column(area: (u16, u16, u16, u16), outer: u16, middle: u16) -> (r: (u16, u16, u16, u16))
    requires
        outer * 2 + middle <= 100,
    ensures
        r == middle_column(area, outer, middle),
{
    let rect = Rect { x: area.0, y: area.1, width: area.2, height: area.3 };
    let parts = Layout::horizontal(
        [Constraint::Percentage(outer), Constraint::Percentage(middle), Constraint::Percentage(outer)],
    ).split(rect);
    (parts[1].x, parts[1].y, parts[1].width, parts[1].height)
}

/// The rectangle of `percent_x`% by `percent_y`% in the middle of `area`:
/// the middle row of the area, with equal margins above and below, then the
/// middle column of that row.
pub fn centered_rect(percent_x: u16, percent_y: u16, area: (u16, u16, u16, u16)) -> (r: (u16, u16, u16, u16))
    requires
        percent_x <= 100,
        percent_y <= 100,
    ensures
        r == middle_column(
            middle_row(area, ((100 - percent_y) / 2) as u16, percent_y),
            ((100 - percent_x) / 2) as u16,
            percent_x,
        ),
{
    let row = split_middle_row(area, (100 - percent_y) / 2, percent_y);
    split_middle_column(row, (100 - percent_x) / 2, percent_x)
}

} // verus!
