//! Where each part of a screen goes. The areas come from ratatui's layout
//! solver.

use ratatui::layout::{Constraint, Direction, Layout, Rect};
use vstd::prelude::*;

verus! {

/// A rectangle of terminal cells.
#[derive(Clone, Copy, Debug, PartialEq, Eq, Structural)]
pub struct Area {
    pub x: u16,
    pub y: u16,
    pub width: u16,
    pub height: u16,
}

/// The direction in which an area is split.
#[derive(Clone, Copy, Debug, PartialEq, Eq, Structural)]
pub enum Axis {
    Horizontal,
    Vertical,
}

/// How large one part of a split is.
#[derive(Clone, Copy, Debug, PartialEq, Eq, Structural)]
pub enum Extent {
    /// Exactly this many cells.
    Length(u16),
    /// At least this many cells.
    Min(u16),
    /// This share of the area, in percent.
    Percentage(u16),
}

/// The area that ratatui lays out: `area` with its width and height cut so
/// that it ends within the `u16` range, as `Rect::new` cuts them.
pub open spec fn clipped(area: Area) -> Area {
    Area {
        x: area.x,
        y: area.y,
        width: if area.width > u16::MAX - area.x {
            (u16::MAX - area.x) as u16
        } else {
            area.width
        },
        height: if area.height > u16::MAX - area.y {
            (u16::MAX - area.y) as u16
        } else {
            area.height
        },
    }
}

/// `part` is a slice of `area` cut along `axis`: across the axis it spans the
/// whole (clipped) area, and along the axis it lies within it.
pub open spec fn slice_of(axis: Axis, area: Area, part: Area) -> bool {
    let c = clipped(area);
    match axis {
        Axis::Vertical => {
            &&& part.x == c.x
            &&& part.width == c.width
            &&& c.y <= part.y
            &&& part.y + part.height <= c.y + c.height
        },
        Axis::Horizontal => {
            &&& part.y == c.y
            &&& part.height == c.height
            &&& c.x <= part.x
            &&& part.x + part.width <= c.x + c.width
        },
    }
}

/// `a` comes before `b` along `axis`: `a` ends where `b` starts, or before.
pub open spec fn before(axis: Axis, a: Area, b: Area) -> bool {
    match axis {
        Axis::Vertical => a.y + a.height <= b.y,
        Axis::Horizontal => a.x + a.width <= b.x,
    }
}

/// `part` lies within the (clipped) `area`.
pub open spec fn within(area: Area, part: Area) -> bool {
    let c = clipped(area);
    &&& c.x <= part.x
    &&& part.x + part.width <= c.x + c.width
    &&& c.y <= part.y
    &&& part.y + part.height <= c.y + c.height
}

/// The length of `a` along `axis`, in cells.
pub open spec fn length_along(axis: Axis, a: Area) -> nat {
    match axis {
        Axis::Vertical => a.height as nat,
        Axis::Horizontal => a.width as nat,
    }
}

/// What an extent asks for of an area `size` cells long, in hundredths of a
/// cell.
pub open spec fn demand_of(e: Extent, size: nat) -> int {
    match e {
        Extent::Length(n) => 100 * n,
        Extent::Min(m) => 100 * m,
        Extent::Percentage(p) => p * size,
    }
}

/// What the extents ask for together, in hundredths of a cell.
pub open spec fn demand(es: Seq<Extent>, size: nat) -> int
    decreases es.len(),
{
    if es.len() == 0 {
        0
    } else {
        demand_of(es[0], size) + demand(es.drop_first(), size)
    }
}

/// The extents fit in an area `size` cells long: together they ask for no
/// more than it has.
pub open spec fn fits(es: Seq<Extent>, size: nat) -> bool {
    demand(es, size) <= 100 * size
}

/// A part `s` cells long that the extent `e` gave, in an area `size` cells
/// long where the extents fit: a length to within a cell, at least a
/// minimum less a cell, a percentage share to within less than two cells
/// (each end of a part is rounded to a whole cell).
pub open spec fn meets(e: Extent, size: nat, s: nat) -> bool {
    match e {
        Extent::Length(n) => n - 1 <= s && s <= n + 1,
        Extent::Min(m) => m <= s + 1,
        Extent::Percentage(p) => p * size - 200 < 100 * s && 100 * s < p * size + 200,
    }
}

/// The cells that the `Length` extents take.
pub open spec fn lengths(es: Seq<Extent>) -> nat
    decreases es.len(),
{
    if es.len() == 0 {
        0
    } else {
        (match es[0] {
            Extent::Length(n) => n as nat,
            _ => 0nat,
        }) + lengths(es.drop_first())
    }
}

/// How many `Min` extents there are.
pub open spec fn min_count(es: Seq<Extent>) -> nat
    decreases es.len(),
{
    if es.len() == 0 {
        0
    } else {
        (if es[0] is Min {
            1nat
        } else {
            0nat
        }) + min_count(es.drop_first())
    }
}

/// The extents ask for whole cells only: no percentage, and at most one
/// minimum, which takes what the lengths leave.
pub open spec fn whole_cells(es: Seq<Extent>) -> bool {
    &&& forall|i: int| 0 <= i < es.len() ==> !(#[trigger] es[i] is Percentage)
    &&& min_count(es) <= 1
}

/// The exact length `s` of the part that `e` gave when the extents `es` ask
/// for whole cells and fit in `size` cells: a length exactly, and for the
/// minimum all that the lengths leave.
pub open spec fn exact(e: Extent, es: Seq<Extent>, size: nat, s: nat) -> bool {
    match e {
        Extent::Length(n) => s == n,
        Extent::Min(_) => s == size - lengths(es),
        Extent::Percentage(_) => true,
    }
}

/// Splits `area` along `axis` into one part per extent, with ratatui's
/// `Layout::split` (default margin, spacing and flex `Start`). The contract
/// claims:
/// - one part per extent, as the source builds one segment per constraint;
/// - every part spans the clipped area across the axis and lies within it
///   along the axis, as `changes_to_rects` builds each part from variables
///   that required constraints keep inside the area;
/// - the parts come one after another in the order of the extents: each
///   spacer between two parts is held at zero by a constraint that
///   outweighs every size constraint;
/// - when the extents fit, every part meets its extent up to the rounding of
///   its ends to whole cells: the size constraints are strong and can all be
///   met, and the weaker ones (growth, equal sizes) weigh far less than any
///   of them, so every optimum meets them;
/// - when the extents moreover ask for whole cells (no percentage, at most
///   one minimum), no rounding occurs, each length is exact and the minimum
///   grows to fill what the lengths leave (its growth outweighs that of the
///   last spacer).
/// It says nothing more of the sizes, in particular when the extents do not
/// fit: the solver may then break ties differently from one call to the next.
#[verifier::external_body]
fn split_area(axis: Axis, extents: &[Extent], area: Area) -> (parts: Vec<Area>)
    ensures
        parts@.len() == extents@.len(),
        forall|i: int| 0 <= i < parts@.len() ==> slice_of(axis, area, #[trigger] parts@[i]),
        forall|i: int, j: int|
            0 <= i < j < parts@.len() ==> before(axis, #[trigger] parts@[i], #[trigger] parts@[j]),
        fits(extents@, length_along(axis, clipped(area))) ==> forall|i: int|
            0 <= i < parts@.len() ==> meets(
                extents@[i],
                length_along(axis, clipped(area)),
                length_along(axis, #[trigger] parts@[i]),
            ),
        fits(extents@, length_along(axis, clipped(area))) && whole_cells(extents@) ==> forall|i: int|
            0 <= i < parts@.len() ==> exact(
                extents@[i],
                extents@,
                length_along(axis, clipped(area)),
                length_along(axis, #[trigger] parts@[i]),
            ),
{
    let direction = match axis {
        Axis::Horizontal => Direction::Horizontal,
        Axis::Vertical => Direction::Vertical,
    };
    let constraints = extents.iter().map(|e| match *e {
        Extent::Length(n) => Constraint::Length(n),
        Extent::Min(n) => Constraint::Min(n),
        Extent::Percentage(n) => Constraint::Percentage(n),
    });
    let rects = Layout::default().direction(direction).constraints(constraints).split(
        Rect::new(area.x, area.y, area.width, area.height),
    );
    rects.iter().map(|r| Area { x: r.x, y: r.y, width: r.width, height: r.height }).collect()
}

/// Splits `area` into three parts.
fn split3(axis: Axis, a: Extent, b: Extent, c: Extent, area: Area) -> (r: (Area, Area, Area))
    ensures
        slice_of(axis, area, r.0),
        slice_of(axis, area, r.1),
        slice_of(axis, area, r.2),
        before(axis, r.0, r.1),
        before(axis, r.1, r.2),
        fits(seq![a, b, c], length_along(axis, clipped(area))) ==> {
            &&& meets(a, length_along(axis, clipped(area)), length_along(axis, r.0))
            &&& meets(b, length_along(axis, clipped(area)), length_along(axis, r.1))
            &&& meets(c, length_along(axis, clipped(area)), length_along(axis, r.2))
        },
        fits(seq![a, b, c], length_along(axis, clipped(area))) && whole_cells(seq![a, b, c]) ==> {
            &&& exact(a, seq![a, b, c], length_along(axis, clipped(area)), length_along(axis, r.0))
            &&& exact(b, seq![a, b, c], length_along(axis, clipped(area)), length_along(axis, r.1))
            &&& exact(c, seq![a, b, c], length_along(axis, clipped(area)), length_along(axis, r.2))
        },
{
    let extents = [a, b, c];
    assert(extents@ =~= seq![a, b, c]);
    let parts = split_area(axis, &extents, area);
    assert(slice_of(axis, area, parts@[0]));
    assert(slice_of(axis, area, parts@[1]));
    assert(slice_of(axis, area, parts@[2]));
    assert(before(axis, parts@[0], parts@[1]));
    assert(before(axis, parts@[1], parts@[2]));
    let ghost s = length_along(axis, clipped(area));
    assert(fits(extents@, s) ==> meets(extents@[0], s, length_along(axis, parts@[0])));
    assert(fits(extents@, s) ==> meets(extents@[1], s, length_along(axis, parts@[1])));
    assert(fits(extents@, s) ==> meets(extents@[2], s, length_along(axis, parts@[2])));
    assert(fits(extents@, s) && whole_cells(extents@) ==> exact(extents@[0], extents@, s, length_along(axis, parts@[0])));
    assert(fits(extents@, s) && whole_cells(extents@) ==> exact(extents@[1], extents@, s, length_along(axis, parts@[1])));
    assert(fits(extents@, s) && whole_cells(extents@) ==> exact(extents@[2], extents@, s, length_along(axis, parts@[2])));
    (parts[0], parts[1], parts[2])
}

/// Splits `area` into two parts.
fn split2(axis: Axis, a: Extent, b: Extent, area: Area) -> (r: (Area, Area))
    ensures
        slice_of(axis, area, r.0),
        slice_of(axis, area, r.1),
        before(axis, r.0, r.1),
        fits(seq![a, b], length_along(axis, clipped(area))) ==> {
            &&& meets(a, length_along(axis, clipped(area)), length_along(axis, r.0))
            &&& meets(b, length_along(axis, clipped(area)), length_along(axis, r.1))
        },
{
    let extents = [a, b];
    assert(extents@ =~= seq![a, b]);
    let parts = split_area(axis, &extents, area);
    assert(slice_of(axis, area, parts@[0]));
    assert(slice_of(axis, area, parts@[1]));
    assert(before(axis, parts@[0], parts@[1]));
    let ghost s = length_along(axis, clipped(area));
    assert(fits(extents@, s) ==> meets(extents@[0], s, length_along(axis, parts@[0])));
    assert(fits(extents@, s) ==> meets(extents@[1], s, length_along(axis, parts@[1])));
    (parts[0], parts[1])
}

/// Header (three rows), body (at least ten) and footer (three rows) of the
/// terminal, one above the other, each as wide as the terminal. When the
/// terminal has at least sixteen rows, the header and footer have three
/// each and the body all the rest.
pub fn screen_areas(area: Area) -> (r: (Area, Area, Area))
    ensures
        slice_of(Axis::Vertical, area, r.0),
        slice_of(Axis::Vertical, area, r.1),
        slice_of(Axis::Vertical, area, r.2),
        before(Axis::Vertical, r.0, r.1),
        before(Axis::Vertical, r.1, r.2),
        clipped(area).height >= 16 ==> {
            &&& r.0.height == 3
            &&& r.1.height == clipped(area).height - 6
            &&& r.2.height == 3
        },
{
    let r = split3(Axis::Vertical, Extent::Length(3), Extent::Min(10), Extent::Length(3), area);
    proof {
        let es = seq![Extent::Length(3), Extent::Min(10), Extent::Length(3)];
        assert(es.drop_first() =~= seq![Extent::Min(10), Extent::Length(3)]);
        assert(es.drop_first().drop_first() =~= seq![Extent::Length(3)]);
        assert(es.drop_first().drop_first().drop_first() =~= Seq::<Extent>::empty());
        reveal_with_fuel(demand, 4);
        reveal_with_fuel(lengths, 4);
        reveal_with_fuel(min_count, 4);
        assert(lengths(es) == 6);
        assert(min_count(es) == 1);
        assert(whole_cells(es));
    }
    r
}

/// The welcome screen: a greeting (a quarter), the menu (eleven rows), and
/// the rest (at least three), one above the other. When the screen has at
/// least nineteen rows, the greeting has a quarter of them and the menu
/// eleven, each to within the rounding of its ends.
pub fn welcome_areas(area: Area) -> (r: (Area, Area, Area))
    ensures
        slice_of(Axis::Vertical, area, r.0),
        slice_of(Axis::Vertical, area, r.1),
        slice_of(Axis::Vertical, area, r.2),
        before(Axis::Vertical, r.0, r.1),
        before(Axis::Vertical, r.1, r.2),
        clipped(area).height >= 19 ==> {
            &&& 25 * clipped(area).height - 200 < 100 * r.0.height
            &&& 100 * r.0.height < 25 * clipped(area).height + 200
            &&& 10 <= r.1.height <= 12
            &&& r.2.height >= 2
        },
{
    let r = split3(Axis::Vertical, Extent::Percentage(25), Extent::Length(11), Extent::Min(3), area);
    proof {
        let es = seq![Extent::Percentage(25), Extent::Length(11), Extent::Min(3)];
        assert(es.drop_first() =~= seq![Extent::Length(11), Extent::Min(3)]);
        assert(es.drop_first().drop_first() =~= seq![Extent::Min(3)]);
        assert(es.drop_first().drop_first().drop_first() =~= Seq::<Extent>::empty());
        reveal_with_fuel(demand, 4);
    }
    r
}

/// Two columns, the left one `left_percent` percent wide and the right one
/// the rest, each to within the rounding of its ends.
pub fn columns(left_percent: u16, area: Area) -> (r: (Area, Area))
    requires
        left_percent <= 100,
    ensures
        slice_of(Axis::Horizontal, area, r.0),
        slice_of(Axis::Horizontal, area, r.1),
        before(Axis::Horizontal, r.0, r.1),
        left_percent * clipped(area).width - 200 < 100 * r.0.width,
        100 * r.0.width < left_percent * clipped(area).width + 200,
        (100 - left_percent) * clipped(area).width - 200 < 100 * r.1.width,
        100 * r.1.width < (100 - left_percent) * clipped(area).width + 200,
{
    let r = split2(
        Axis::Horizontal,
        Extent::Percentage(left_percent),
        Extent::Percentage(100 - left_percent),
        area,
    );
    proof {
        lemma_two_shares_fit(left_percent, length_along(Axis::Horizontal, clipped(area)));
    }
    r
}

/// Two rows, the top one `top_percent` percent high and the bottom one the
/// rest, each to within the rounding of its ends.
pub fn rows(top_percent: u16, area: Area) -> (r: (Area, Area))
    requires
        top_percent <= 100,
    ensures
        slice_of(Axis::Vertical, area, r.0),
        slice_of(Axis::Vertical, area, r.1),
        before(Axis::Vertical, r.0, r.1),
        top_percent * clipped(area).height - 200 < 100 * r.0.height,
        100 * r.0.height < top_percent * clipped(area).height + 200,
        (100 - top_percent) * clipped(area).height - 200 < 100 * r.1.height,
        100 * r.1.height < (100 - top_percent) * clipped(area).height + 200,
{
    let r = split2(Axis::Vertical, Extent::Percentage(top_percent), Extent::Percentage(100 - top_percent), area);
    proof {
        lemma_two_shares_fit(top_percent, length_along(Axis::Vertical, clipped(area)));
    }
    r
}

/// A share of `p` percent and one of the rest fit in any area.
proof fn lemma_two_shares_fit(p: u16, size: nat)
    requires
        p <= 100,
    ensures
        fits(seq![Extent::Percentage(p), Extent::Percentage((100 - p) as u16)], size),
{
    let es = seq![Extent::Percentage(p), Extent::Percentage((100 - p) as u16)];
    assert(es.drop_first() =~= seq![Extent::Percentage((100 - p) as u16)]);
    assert(es.drop_first().drop_first() =~= Seq::<Extent>::empty());
    reveal_with_fuel(demand, 3);
    assert(p * size + (100 - p) * size == 100 * size) by (nonlinear_arith);
}

/// Three shares, `m` percent between two of `(100 - m) / 2` percent, fit in
/// any area.
proof fn lemma_three_shares_fit(m: u16, size: nat)
    requires
        m <= 100,
    ensures
        fits(
            seq![
                Extent::Percentage(((100 - m) / 2) as u16),
                Extent::Percentage(m),
                Extent::Percentage(((100 - m) / 2) as u16),
            ],
            size,
        ),
{
    let side = ((100 - m) / 2) as u16;
    let es = seq![Extent::Percentage(side), Extent::Percentage(m), Extent::Percentage(side)];
    assert(es.drop_first() =~= seq![Extent::Percentage(m), Extent::Percentage(side)]);
    assert(es.drop_first().drop_first() =~= seq![Extent::Percentage(side)]);
    assert(es.drop_first().drop_first().drop_first() =~= Seq::<Extent>::empty());
    reveal_with_fuel(demand, 4);
    assert(side * size + m * size + side * size <= 100 * size) by (nonlinear_arith)
        requires
            2 * side + m <= 100,
    ;
}

/// A box `percent_x` percent wide and `percent_y` percent high, centred in
/// `area`: the middle of three columns of the middle of three rows, each
/// outer one `(100 - percent) / 2` percent. Each of its sides and each
/// margin around it is its share of the area to within the rounding of the
/// ends of the parts (less than two cells).
pub fn centered_rect(percent_x: u16, percent_y: u16, area: Area) -> (r: Area)
    requires
        percent_x <= 100,
        percent_y <= 100,
    ensures
        within(area, r),
        percent_y * clipped(area).height - 200 < 100 * r.height,
        100 * r.height < percent_y * clipped(area).height + 200,
        percent_x * clipped(area).width - 200 < 100 * r.width,
        100 * r.width < percent_x * clipped(area).width + 200,
        ((100 - percent_y) / 2) * clipped(area).height - 200 < 100 * (r.y - clipped(area).y),
        ((100 - percent_y) / 2) * clipped(area).height - 200 < 100 * (clipped(area).y
            + clipped(area).height - (r.y + r.height)),
        ((100 - percent_x) / 2) * clipped(area).width - 200 < 100 * (r.x - clipped(area).x),
        ((100 - percent_x) / 2) * clipped(area).width - 200 < 100 * (clipped(area).x
            + clipped(area).width - (r.x + r.width)),
{
    let (top, band, bottom) = split3(
        Axis::Vertical,
        Extent::Percentage((100 - percent_y) / 2),
        Extent::Percentage(percent_y),
        Extent::Percentage((100 - percent_y) / 2),
        area,
    );
    proof {
        lemma_three_shares_fit(percent_y, length_along(Axis::Vertical, clipped(area)));
    }
    assert(clipped(band) == band);
    let (left, inner, right) = split3(
        Axis::Horizontal,
        Extent::Percentage((100 - percent_x) / 2),
        Extent::Percentage(percent_x),
        Extent::Percentage((100 - percent_x) / 2),
        band,
    );
    proof {
        lemma_three_shares_fit(percent_x, length_along(Axis::Horizontal, clipped(band)));
    }
    inner
}

/// The area of a vertical scrollbar inside a bordered `area`: one row less
/// at the top and at the bottom (ratatui's `Rect::inner` with a vertical
/// margin of 1), or nothing when the area is less than two rows high.
pub open spec fn scrollbar_area_of(area: Area) -> Area {
    if area.height < 2 {
        Area { x: 0, y: 0, width: 0, height: 0 }
    } else {
        Area {
            x: area.x,
            y: if area.y < u16::MAX {
                (area.y + 1) as u16
            } else {
                u16::MAX
            },
            width: area.width,
            height: (area.height - 2) as u16,
        }
    }
}

/// Where the scrollbar of a bordered table goes.
pub fn scrollbar_area(area: Area) -> (r: Area)
    ensures
        r == scrollbar_area_of(area),
{
    if area.height < 2 {
        Area { x: 0, y: 0, width: 0, height: 0 }
    } else {
        Area {
            x: area.x,
            y: if area.y < u16::MAX {
                area.y + 1
            } else {
                u16::MAX
            },
            width: area.width,
            height: area.height - 2,
        }
    }
}

/// Where the cursor stands in the box where a target is typed: after the
/// typed text (its length in bytes, cut to 16 bits), on the first row inside
/// the border.
pub fn input_cursor(popup: Area, input_bytes: usize) -> (r: (u16, u16))
    requires
        popup.x + (input_bytes % 65536) + 1 <= u16::MAX,
        popup.y + 1 <= u16::MAX,
    ensures
        r.0 == popup.x + (input_bytes % 65536) + 1,
        r.1 == popup.y + 1,
{
    let low = (input_bytes % 65536) as u16;
    (popup.x + low + 1, popup.y + 1)
}

} // verus!
