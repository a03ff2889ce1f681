use vstd::prelude::*;

use ratatui::layout::{Constraint, Direction, Layout, Rect};

verus! {

/// A rectangle of terminal cells.
#[derive(Clone, Copy, Debug, PartialEq, Eq, Structural)]
pub struct Area {
    pub x: u16,
    pub y: u16,
    pub width: u16,
    pub height: u16,
}

/// The usable length of a side that starts at `start` and is `size` long:
/// a side never reaches past the last cell coordinate, `u16::MAX`.
pub open spec fn side_len(start: u16, size: u16) -> int {
    if start + size > u16::MAX {
        u16::MAX - start
    } else {
        size as int
    }
}

/// Where the cut at `percent` percent of a side of length `len` starting at
/// `start` falls: the exact point, rounded to the nearest cell (halves up).
pub open spec fn cut_at(start: u16, len: int, percent: int) -> int {
    start + (len * percent + 50) / 100
}

/// The percentage of the side before part `i` of a split by `first`,
/// `middle`, `last` (`i` = 3 gives the end of the last part).
pub open spec fn percent_before(first: u16, middle: u16, last: u16, i: int) -> int {
    if i <= 0 {
        0
    } else if i == 1 {
        first as int
    } else if i == 2 {
        first + middle
    } else {
        first + middle + last
    }
}

/// Splits `area` with ratatui's `Layout::split` (no margin, no spacing, the
/// default `Flex::Start`) into three parts sized by the percentages `first`,
/// `middle` and `last`, which together take at most the whole side.
///
/// What the contract states comes from ratatui's source: the solver meets
/// every percentage exactly (they outweigh the weaker growth preferences,
/// and the rest of the side goes to the trailing spacer), and each boundary
/// is rounded to the nearest cell. So part `i` runs from the cut at the sum
/// of the percentages before it to the cut at the sum up to and including
/// it, and spans the area across the axis.
#[verifier::external_body]
fn split_in_three(vertical: bool, first: u16, middle: u16, last: u16, area: Area) -> (parts: Vec<Area>)
    requires
        first + middle + last <= 100,
    ensures
        parts@.len() == 3,
        forall|i: int|
            #![trigger parts@[i]]
            0 <= i < 3 ==> (if vertical {
                &&& parts@[i].x == area.x
                &&& parts@[i].width == area.width
                &&& parts@[i].y == cut_at(
                    area.y,
                    side_len(area.y, area.height),
                    percent_before(first, middle, last, i),
                )
                &&& parts@[i].y + parts@[i].height == cut_at(
                    area.y,
                    side_len(area.y, area.height),
                    percent_before(first, middle, last, i + 1),
                )
            } else {
                &&& parts@[i].y == area.y
                &&& parts@[i].height == area.height
                &&& parts@[i].x == cut_at(
                    area.x,
                    side_len(area.x, area.width),
                    percent_before(first, middle, last, i),
                )
                &&& parts@[i].x + parts@[i].width == cut_at(
                    area.x,
                    side_len(area.x, area.width),
                    percent_before(first, middle, last, i + 1),
                )
            }),
{
    let direction = if vertical {
        Direction::Vertical
    } else {
        Direction::Horizontal
    };
    let rect = Rect { x: area.x, y: area.y, width: area.width, height: area.height };
    let rects = Layout::default().direction(direction).constraints(
        [Constraint::Percentage(first), Constraint::Percentage(middle), Constraint::Percentage(last)],
    ).split(rect);
    rects.iter().map(|r| Area { x: r.x, y: r.y, width: r.width, height: r.height }).collect()
}

/// The margin share of a centred band that takes `percent` of the space.
pub open spec fn side_share(percent: u16) -> int {
    (100 - percent) / 2
}

/// The popup area: `percent_x` of the width and `percent_y` of the height of
/// `r`, centred, each edge rounded to the nearest cell.
pub open spec fn centered(percent_x: u16, percent_y: u16, r: Area) -> Area {
    let lx = side_len(r.x, r.width);
    let ly = side_len(r.y, r.height);
    let x0 = cut_at(r.x, lx, side_share(percent_x));
    let x1 = cut_at(r.x, lx, side_share(percent_x) + percent_x);
    let y0 = cut_at(r.y, ly, side_share(percent_y));
    let y1 = cut_at(r.y, ly, side_share(percent_y) + percent_y);
    Area { x: x0 as u16, y: y0 as u16, width: (x1 - x0) as u16, height: (y1 - y0) as u16 }
}

proof fn lemma_cut_bounds(start: u16, len: int, p: int, q: int)
    requires
        0 <= len,
        start + len <= u16::MAX,
        0 <= p <= q <= 100,
    ensures
        start <= cut_at(start, len, p) <= cut_at(start, len, q) <= start + len,
{
    assert(len * p <= len * q) by (nonlinear_arith)
        requires
            0 <= len,
            p <= q,
    ;
    assert(len * q <= len * 100) by (nonlinear_arith)
        requires
            0 <= len,
            q <= 100,
    ;
    assert(0 <= len * p) by (nonlinear_arith)
        requires
            0 <= len,
            0 <= p,
    ;
}

/// A rectangle centred in `r`, `percent_x` of its width and `percent_y` of
/// its height.
pub fn centered_rect(percent_x: u16, percent_y: u16, r: Area) -> (c: Area)
    requires
        percent_x <= 100,
        percent_y <= 100,
    ensures
        c == centered(percent_x, percent_y, r),
        r.x <= c.x && c.x + c.width <= r.x + r.width,
        r.y <= c.y && c.y + c.height <= r.y + r.height,
{
    let side_y: u16 = (100 - percent_y) / 2;
    let rows: Vec<Area> = split_in_three(true, side_y, percent_y, side_y, r);
    let band: Area = rows[1];
    let side_x: u16 = (100 - percent_x) / 2;
    let cols: Vec<Area> = split_in_three(false, side_x, percent_x, side_x, band);
    proof {
        lemma_cut_bounds(r.y, side_len(r.y, r.height), side_y as int, side_y + percent_y);
        lemma_cut_bounds(r.x, side_len(r.x, r.width), side_x as int, side_x + percent_x);
        assert(rows@[1].x == r.x && rows@[1].width == r.width);
        assert(cols@[1].y == band.y && cols@[1].height == band.height);
    }
    cols[1]
}

} // verus!
