//! Areas of the screen, and how they are divided.

use ratatui::layout::{Constraint, Direction, Layout, Margin, Rect};
use ratatui::widgets::Block;
use vstd::prelude::*;

verus! {

/// A rectangle on the screen.
#[derive(Debug, Clone, Copy, PartialEq, Eq, Structural)]
pub struct Area {
    pub x: u16,
    pub y: u16,
    pub width: u16,
    pub height: u16,
}

/// The direction in which an area is divided.
#[derive(Debug, Clone, Copy, PartialEq, Eq, Structural)]
pub enum Axis {
    Across,
    Down,
}

/// The share of an area that a part of it should have.
#[derive(Debug, Clone, Copy, PartialEq, Eq, Structural)]
pub enum Share {
    Percentage(u16),
    Length(u16),
    Min(u16),
}

impl Area {
    /// The far edges of the area have coordinates too.
    pub open spec fn on_screen(self) -> bool {
        &&& self.x + self.width <= u16::MAX
        &&& self.y + self.height <= u16::MAX
    }

    /// The area lies within another.
    pub open spec fn lies_in(self, outer: Area) -> bool {
        &&& outer.x <= self.x
        &&& self.x + self.width <= outer.x + outer.width
        &&& outer.y <= self.y
        &&& self.y + self.height <= outer.y + outer.height
    }

    /// What a frame around the area leaves of it.
    pub open spec fn framed(self) -> Area {
        Area {
            x: if self.width > 0 {
                (self.x + 1) as u16
            } else {
                self.x
            },
            y: if self.height > 0 {
                (self.y + 1) as u16
            } else {
                self.y
            },
            width: if self.width > 2 {
                (self.width - 2) as u16
            } else {
                0
            },
            height: if self.height > 2 {
                (self.height - 2) as u16
            } else {
                0
            },
        }
    }

    /// The area without its first and its last row; nothing where it has no two rows.
    pub open spec fn without_end_rows(self) -> Area {
        if self.height < 2 {
            Area { x: 0, y: 0, width: 0, height: 0 }
        } else {
            Area { y: (self.y + 1) as u16, height: (self.height - 2) as u16, ..self }
        }
    }

    /// Row `k` of the area.
    pub open spec fn row(self, k: int) -> Area {
        Area { y: (self.y + k) as u16, height: 1, ..self }
    }

    /// Whether the far edges of the area have coordinates too.
    pub fn fits_screen(&self) -> (r: bool)
        ensures
            r == self.on_screen(),
    {
        self.width <= u16::MAX - self.x && self.height <= u16::MAX - self.y
    }

    /// Row `k` of the area.
    pub fn row_at(&self, k: u16) -> (r: Area)
        requires
            self.on_screen(),
            k < self.height,
        ensures
            r == self.row(k as int),
            r.lies_in(*self),
            r.on_screen(),
    {
        Area { x: self.x, y: self.y + k, width: self.width, height: 1 }
    }
}

/// What a frame leaves of an area lies in it.
pub proof fn frame_shrinks(a: Area)
    requires
        a.on_screen(),
    ensures
        a.framed().lies_in(a),
        a.framed().on_screen(),
{
}

/// A part of an area that was divided along an axis: it lies in the area, and has its
/// full extent along the other axis.
pub open spec fn is_part(part: Area, whole: Area, axis: Axis) -> bool {
    &&& part.lies_in(whole)
    &&& match axis {
        Axis::Across => part.y == whole.y && part.height == whole.height,
        Axis::Down => part.x == whole.x && part.width == whole.width,
    }
}

/// The shares are percentages.
pub open spec fn all_percentages(shares: Seq<Share>) -> bool {
    forall|i: int| 0 <= i < shares.len() ==> #[trigger] shares[i] is Percentage
}

/// The sum of the first `n` percentages.
pub open spec fn percents_before(shares: Seq<Share>, n: int) -> int
    decreases n,
{
    if n <= 0 {
        0
    } else {
        percents_before(shares, n - 1) + shares[n - 1]->Percentage_0
    }
}

/// The coordinate that lies `percent` percent of the way through a size, rounded to the
/// nearest, and up where two are as near.
pub open spec fn way(origin: u16, size: u16, percent: int) -> int {
    origin + (size * percent + 50) / 100
}

/// The part runs from coordinate `start` to coordinate `end` along the axis.
pub open spec fn spans(part: Area, axis: Axis, start: int, end: int) -> bool {
    match axis {
        Axis::Across => part.x == start && part.width == end - start,
        Axis::Down => part.y == start && part.height == end - start,
    }
}

/// The first coordinate of an area along an axis.
pub open spec fn origin(area: Area, axis: Axis) -> u16 {
    match axis {
        Axis::Across => area.x,
        Axis::Down => area.y,
    }
}

/// The size of an area along an axis.
pub open spec fn extent(area: Area, axis: Axis) -> u16 {
    match axis {
        Axis::Across => area.width,
        Axis::Down => area.height,
    }
}

/// Divides an area, by `ratatui::layout::Layout::split`: there are as many parts as
/// shares, and each lies in the area and has its full extent along the other axis.
/// Percentages that do not exceed the whole are met one after the other, each edge
/// rounded to the nearest coordinate. A length after a minimum is met at the end and
/// leaves the rest, where both have room. Of other shares nothing is said: where they
/// cannot all be met the solver settles on one of several outcomes.
#[verifier::external_body]
fn divide(area: Area, axis: Axis, shares: &Vec<Share>) -> (r: Vec<Area>)
    requires
        area.on_screen(),
    ensures
        r@.len() == shares@.len(),
        forall|i: int| 0 <= i < r@.len() ==> is_part(#[trigger] r@[i], area, axis),
        all_percentages(shares@) && percents_before(shares@, shares@.len() as int) <= 100
            ==> forall|i: int|
            0 <= i < r@.len() ==> spans(
                #[trigger] r@[i],
                axis,
                way(origin(area, axis), extent(area, axis), percents_before(shares@, i)),
                way(origin(area, axis), extent(area, axis), percents_before(shares@, i + 1)),
            ),
        shares@.len() == 2 && shares@[0] is Min && shares@[1] is Length && shares@[0]->Min_0
            + shares@[1]->Length_0 <= extent(area, axis) ==> spans(
            r@[1],
            axis,
            origin(area, axis) + extent(area, axis) - shares@[1]->Length_0,
            origin(area, axis) + extent(area, axis),
        ) && spans(
            r@[0],
            axis,
            origin(area, axis) as int,
            origin(area, axis) + extent(area, axis) - shares@[1]->Length_0,
        ),
{
    let constraints = shares.iter().map(|s| match s {
        Share::Percentage(n) => Constraint::Percentage(*n),
        Share::Length(n) => Constraint::Length(*n),
        Share::Min(n) => Constraint::Min(*n),
    });
    let direction = match axis {
        Axis::Across => Direction::Horizontal,
        Axis::Down => Direction::Vertical,
    };
    let whole = Rect::new(area.x, area.y, area.width, area.height);
    let parts = Layout::default().direction(direction).constraints(constraints).split(whole);
    parts.iter().map(|p| Area { x: p.x, y: p.y, width: p.width, height: p.height }).collect()
}

/// What a frame leaves of an area, by `ratatui::widgets::Block::inner` of a block with
/// all borders: one column on the left and the right and one row above and below are
/// taken off, as far as there are any.
#[verifier::external_body]
pub(crate) fn inside_frame(area: Area) -> (r: Area)
    requires
        area.on_screen(),
    ensures
        r == area.framed(),
{
    let p = Block::bordered().inner(Rect::new(area.x, area.y, area.width, area.height));
    Area { x: p.x, y: p.y, width: p.width, height: p.height }
}

/// The area without its first and last row, by `ratatui::layout::Rect::inner` with a
/// vertical margin of one: an area with fewer rows gives the empty area at the origin.
#[verifier::external_body]
pub(crate) fn between_end_rows(area: Area) -> (r: Area)
    requires
        area.on_screen(),
    ensures
        r == area.without_end_rows(),
{
    let margin = Margin { vertical: 1, horizontal: 0 };
    let p = Rect::new(area.x, area.y, area.width, area.height).inner(margin);
    Area { x: p.x, y: p.y, width: p.width, height: p.height }
}

// ---------------------------------------------------------------------------
// Divisions
// ---------------------------------------------------------------------------

/// The area in the middle of another with the given percentages of its width and its
/// height; what is left is shared evenly between the sides.
pub open spec fn centered(percent_x: u16, percent_y: u16, area: Area) -> Area {
    let left = (100 - percent_x) / 2;
    let above = (100 - percent_y) / 2;
    let x = way(area.x, area.width, left);
    let y = way(area.y, area.height, above);
    Area {
        x: x as u16,
        y: y as u16,
        width: (way(area.x, area.width, left + percent_x) - x) as u16,
        height: (way(area.y, area.height, above + percent_y) - y) as u16,
    }
}

/// Quarter `col` of the width of an area.
pub open spec fn quarter(area: Area, col: int) -> Area {
    let x = way(area.x, area.width, 25 * col);
    Area {
        x: x as u16,
        width: (way(area.x, area.width, 25 * (col + 1)) - x) as u16,
        ..area
    }
}

/// The last row of an area, if it has a row.
pub open spec fn last_row(area: Area) -> Area {
    if area.height == 0 {
        area
    } else {
        Area { y: (area.y + area.height - 1) as u16, height: 1, ..area }
    }
}

/// An area without its last row, if it has a row.
pub open spec fn above_last_row(area: Area) -> Area {
    if area.height == 0 {
        area
    } else {
        Area { height: (area.height - 1) as u16, ..area }
    }
}

fn middle_shares(percent: u16) -> (r: Vec<Share>)
    requires
        percent <= 100,
    ensures
        r@.len() == 3,
        all_percentages(r@),
        percents_before(r@, 1) == (100 - percent) / 2,
        percents_before(r@, 2) == (100 - percent) / 2 + percent,
        percents_before(r@, 3) <= 100,
{
    let rest: u16 = (100 - percent) / 2;
    let r = vec![Share::Percentage(rest), Share::Percentage(percent), Share::Percentage(rest)];
    proof {
        reveal_with_fuel(percents_before, 4);
    }
    r
}

/// The area in the middle of another with the given percentages of its width and its
/// height. It lies in the other.
pub fn centered_rect(percent_x: u16, percent_y: u16, area: Area) -> (r: Area)
    requires
        percent_x <= 100,
        percent_y <= 100,
        area.on_screen(),
    ensures
        r == centered(percent_x, percent_y, area),
        r.lies_in(area),
        r.on_screen(),
{
    let rows = divide(area, Axis::Down, &middle_shares(percent_y));
    let middle = rows[1];
    assert(is_part(rows@[1], area, Axis::Down));
    let columns = divide(middle, Axis::Across, &middle_shares(percent_x));
    assert(is_part(columns@[1], middle, Axis::Across));
    columns[1]
}

/// The areas of the columns on the board: a quarter of the width each.
pub fn column_areas(area: Area) -> (r: Vec<Area>)
    requires
        area.on_screen(),
    ensures
        r@.len() == 4,
        forall|col: int|
            0 <= col < 4 ==> #[trigger] r@[col] == quarter(area, col) && r@[col].lies_in(area)
                && r@[col].on_screen(),
{
    let shares = vec![
        Share::Percentage(25),
        Share::Percentage(25),
        Share::Percentage(25),
        Share::Percentage(25),
    ];
    proof {
        reveal_with_fuel(percents_before, 5);
    }
    let r = divide(area, Axis::Across, &shares);
    assert forall|col: int| 0 <= col < 4 implies #[trigger] r@[col] == quarter(area, col)
        && r@[col].lies_in(area) && r@[col].on_screen() by {
        assert(is_part(r@[col], area, Axis::Across));
        assert(percents_before(shares@, col) == 25 * col);
        assert(percents_before(shares@, col + 1) == 25 * (col + 1));
    }
    r
}

/// The areas of the board and of the status bar, which takes the last row.
pub fn screen_areas(area: Area) -> (r: (Area, Area))
    requires
        area.on_screen(),
    ensures
        r.0 == above_last_row(area),
        r.1 == last_row(area),
        r.0.lies_in(area),
        r.1.lies_in(area),
        r.0.on_screen(),
        r.1.on_screen(),
{
    let parts = divide(area, Axis::Down, &vec![Share::Min(0), Share::Length(1)]);
    assert(is_part(parts@[0], area, Axis::Down));
    assert(is_part(parts@[1], area, Axis::Down));
    (parts[0], parts[1])
}

/// Going a greater part of the way leads no less far, and all of the way leads to the
/// end.
pub proof fn way_goes_forward(origin: u16, size: u16, a: int, b: int)
    requires
        0 <= a <= b <= 100,
    ensures
        origin <= way(origin, size, a) <= way(origin, size, b) <= origin + size,
        way(origin, size, 0) == origin,
        way(origin, size, 100) == origin + size,
{
    assert(0 <= size * a <= size * b <= size * 100) by (nonlinear_arith)
        requires
            0 <= a <= b <= 100,
            0 <= size,
    ;
}

/// The columns stand next to one another and fill the width of the board.
pub proof fn columns_fill_the_board(area: Area)
    requires
        area.on_screen(),
    ensures
        quarter(area, 0).x == area.x,
        forall|col: int|
            0 <= col < 3 ==> #[trigger] quarter(area, col).x + quarter(area, col).width
                == quarter(area, col + 1).x,
        quarter(area, 3).x + quarter(area, 3).width == area.x + area.width,
{
    way_goes_forward(area.x, area.width, 0, 25);
    way_goes_forward(area.x, area.width, 75, 100);
    assert forall|col: int| 0 <= col < 3 implies #[trigger] quarter(area, col).x + quarter(
        area,
        col,
    ).width == quarter(area, col + 1).x by {
        way_goes_forward(area.x, area.width, 25 * col, 25 * (col + 1));
    }
}

/// A centred area has as much room on its left as on its right and above as below, up to
/// one coordinate for the rounding, if the percentages leave an even rest.
pub proof fn centered_is_in_the_middle(percent_x: u16, percent_y: u16, area: Area)
    requires
        percent_x <= 100,
        percent_y <= 100,
        percent_x % 2 == 0,
        percent_y % 2 == 0,
        area.on_screen(),
    ensures
        ({
            let c = centered(percent_x, percent_y, area);
            let left = c.x - area.x;
            let right = area.x + area.width - c.x - c.width;
            let above = c.y - area.y;
            let below = area.y + area.height - c.y - c.height;
            &&& -1 <= left - right <= 1
            &&& -1 <= above - below <= 1
            &&& -100 <= 100 * c.width - area.width * percent_x <= 100
            &&& -100 <= 100 * c.height - area.height * percent_y <= 100
        }),
{
    let l = (100 - percent_x) / 2;
    let a = (100 - percent_y) / 2;
    way_goes_forward(area.x, area.width, l, l + percent_x);
    way_goes_forward(area.y, area.height, a, a + percent_y);
    middle_of(area.width as int, l, percent_x as int);
    middle_of(area.height as int, a, percent_y as int);
}

proof fn middle_of(size: int, side: int, percent: int)
    requires
        0 <= size,
        0 <= side,
        0 <= percent,
        2 * side + percent == 100,
    ensures
        ({
            let start = (size * side + 50) / 100;
            let end = (size * (side + percent) + 50) / 100;
            &&& -1 <= start - (size - end) <= 1
            &&& -100 <= 100 * (end - start) - size * percent <= 100
        }),
{
    let x = size * side;
    let y = size * (side + percent);
    assert(x + y == 100 * size) by (nonlinear_arith)
        requires
            x == size * side,
            y == size * (side + percent),
            2 * side + percent == 100,
    ;
    assert(y - x == size * percent) by (nonlinear_arith)
        requires
            x == size * side,
            y == size * (side + percent),
    ;
}

/// The status bar takes the last row of the screen, and the board all rows above it.
pub proof fn status_bar_takes_the_last_row(area: Area)
    requires
        area.on_screen(),
        area.height > 0,
    ensures
        last_row(area).height == 1,
        last_row(area).y == area.y + area.height - 1,
        above_last_row(area).y == area.y,
        above_last_row(area).y + above_last_row(area).height == last_row(area).y,
        last_row(area).width == area.width && above_last_row(area).width == area.width,
        last_row(area).x == area.x && above_last_row(area).x == area.x,
{
}

/// Four columns are as wide as one another, up to one coordinate for the rounding.
pub proof fn columns_are_as_wide(area: Area, a: int, b: int)
    requires
        area.on_screen(),
        0 <= a < 4,
        0 <= b < 4,
    ensures
        -1 <= quarter(area, a).width - quarter(area, b).width <= 1,
        quarter(area, a).y == area.y && quarter(area, a).height == area.height,
{
    way_goes_forward(area.x, area.width, 25 * a, 25 * (a + 1));
    way_goes_forward(area.x, area.width, 25 * b, 25 * (b + 1));
    let w = area.width as int;
    assert(w * (25 * a) == 25 * (w * a)) by (nonlinear_arith);
    assert(w * (25 * b) == 25 * (w * b)) by (nonlinear_arith);
    assert(w * (25 * (a + 1)) == 25 * (w * a) + 25 * w) by (nonlinear_arith);
    assert(w * (25 * (b + 1)) == 25 * (w * b) + 25 * w) by (nonlinear_arith);
}

} // verus!
