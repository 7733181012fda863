//! Rectangles of terminal cells, and how a rectangle is split.

use vstd::prelude::*;

verus! {

/// A rectangle of cells.
#[derive(Debug, Clone, Copy, PartialEq, Eq, Structural)]
pub struct Rect {
    pub x: u16,
    pub y: u16,
    pub width: u16,
    pub height: u16,
}

impl Rect {
    /// Whether the cells to the right of and below the rectangle still have
    /// coordinates.
    pub open spec fn fits(self) -> bool {
        self.x + self.width <= u16::MAX && self.y + self.height <= u16::MAX
    }

    pub fn new(x: u16, y: u16, width: u16, height: u16) -> (r: Rect)
        ensures
            r == (Rect { x, y, width, height }),
    {
        Rect { x, y, width, height }
    }
}

/// Which way a rectangle is split.
#[derive(Debug, Clone, Copy, PartialEq, Eq, Structural)]
pub enum Direction {
    Horizontal,
    Vertical,
}

/// The size a part asks for.
#[derive(Debug, Clone, Copy, PartialEq, Eq, Structural)]
pub enum Constraint {
    /// Exactly so many cells.
    Length(u16),
    /// So many cells at least, and all that nobody else asks for.
    Min(u16),
}

pub open spec fn amount(c: Constraint) -> nat {
    match c {
        Constraint::Length(n) => n as nat,
        Constraint::Min(n) => n as nat,
    }
}

/// All amounts together.
pub open spec fn total_amount(cs: Seq<Constraint>) -> nat
    decreases cs.len(),
{
    if cs.len() == 0 {
        0
    } else {
        total_amount(cs.drop_last()) + amount(cs.last())
    }
}

/// All fixed lengths together.
pub open spec fn total_length(cs: Seq<Constraint>) -> nat
    decreases cs.len(),
{
    if cs.len() == 0 {
        0
    } else {
        total_length(cs.drop_last()) + (match cs.last() {
            Constraint::Length(n) => n as nat,
            Constraint::Min(_) => 0,
        })
    }
}

/// Whether at most one part takes what is left.
pub open spec fn at_most_one_min(cs: Seq<Constraint>) -> bool {
    forall|i: int, j: int|
        0 <= i < j < cs.len() ==> !(#[trigger] cs[i] is Min && #[trigger] cs[j] is Min)
}

/// Where a rectangle starts along a direction.
pub open spec fn start(r: Rect, d: Direction) -> int {
    match d {
        Direction::Horizontal => r.x as int,
        Direction::Vertical => r.y as int,
    }
}

/// How long a rectangle is along a direction.
pub open spec fn extent(r: Rect, d: Direction) -> int {
    match d {
        Direction::Horizontal => r.width as int,
        Direction::Vertical => r.height as int,
    }
}

/// Whether a part lies beside the whole: same place and size across the
/// direction of the split, and inside the whole along it.
pub open spec fn lies_in(part: Rect, whole: Rect, d: Direction) -> bool {
    &&& start(part, d) >= start(whole, d)
    &&& start(part, d) + extent(part, d) <= start(whole, d) + extent(whole, d)
    &&& match d {
        Direction::Horizontal => part.y == whole.y && part.height == whole.height,
        Direction::Vertical => part.x == whole.x && part.width == whole.width,
    }
}

/// Whether `parts` split `whole` as the constraints ask.
///
/// The parts lie in the whole, in order and without overlap, and the part with
/// a minimum has it, or all there is. Where there is room for everything that is asked for, every fixed part has its length, the
/// part that takes the rest has all of it, and each part begins where the one
/// before it ends.
pub open spec fn splits(d: Direction, cs: Seq<Constraint>, whole: Rect, parts: Seq<Rect>) -> bool {
    &&& parts.len() == cs.len()
    &&& forall|i: int| 0 <= i < parts.len() ==> lies_in(#[trigger] parts[i], whole, d)
    &&& forall|i: int, j: int|
        0 <= i < j < parts.len() ==> start(#[trigger] parts[i], d) + extent(parts[i], d) <= start(
            #[trigger] parts[j],
            d,
        )
    &&& forall|i: int|
        0 <= i < parts.len() ==> (cs[i] matches Constraint::Min(n) ==> extent(
            #[trigger] parts[i],
            d,
        ) >= (if n < extent(whole, d) {
            n as int
        } else {
            extent(whole, d)
        }))
    &&& total_amount(cs) <= extent(whole, d) ==> {
        &&& forall|i: int|
            0 <= i < parts.len() ==> extent(#[trigger] parts[i], d) == (match cs[i] {
                Constraint::Length(n) => n as int,
                Constraint::Min(_) => extent(whole, d) - total_length(cs),
            })
        &&& parts.len() > 0 ==> start(parts[0], d) == start(whole, d)
        &&& forall|i: int, j: int|
            0 <= i < parts.len() && j == i + 1 && j < parts.len() ==> start(
                #[trigger] parts[j],
                d,
            ) == start(#[trigger] parts[i], d) + extent(parts[i], d)
    }
}

/// `ratatui::layout::Layout::split` splits an area by a constraint solver.
///
/// Claimed of it: it hands back one part per constraint; a part is as wide (or
/// as high) as the area across the split; the parts stay inside the area and
/// follow each other without overlap, which the solver holds as required; the
/// part with a minimum has it, or the whole area where that is less, since a
/// minimum outranks a length; and where everything asked for has room, every
/// fixed length is met and the part with a minimum takes the rest, without
/// gaps. Which lengths are cut where they have no room together is left open:
/// the solver walks hash maps and may choose differently from one run to the
/// next.
#[verifier::external_body]
pub(crate) fn split_area(d: Direction, cs: &Vec<Constraint>, whole: Rect) -> (parts: Vec<Rect>)
    requires
        whole.fits(),
        at_most_one_min(cs@),
    ensures
        splits(d, cs@, whole, parts@),
{
    let direction = match d {
        Direction::Horizontal => ratatui::layout::Direction::Horizontal,
        Direction::Vertical => ratatui::layout::Direction::Vertical,
    };
    let constraints = cs.iter().map(|c| match c {
        Constraint::Length(n) => ratatui::layout::Constraint::Length(*n),
        Constraint::Min(n) => ratatui::layout::Constraint::Min(*n),
    });
    let whole = ratatui::layout::Rect { x: whole.x, y: whole.y, width: whole.width, height: whole.height };
    let parts = ratatui::layout::Layout::new(direction, constraints).split(whole);
    parts.iter().map(|r| Rect { x: r.x, y: r.y, width: r.width, height: r.height }).collect()
}

/// The smallest rectangle that holds both.
pub open spec fn union_spec(a: Rect, b: Rect) -> Rect {
    let x = if a.x <= b.x {
        a.x
    } else {
        b.x
    };
    let y = if a.y <= b.y {
        a.y
    } else {
        b.y
    };
    let right = if a.x + a.width >= b.x + b.width {
        a.x + a.width
    } else {
        b.x + b.width
    };
    let bottom = if a.y + a.height >= b.y + b.height {
        a.y + a.height
    } else {
        b.y + b.height
    };
    Rect { x, y, width: (right - x) as u16, height: (bottom - y) as u16 }
}

/// The smallest rectangle that holds both.
pub fn union(a: Rect, b: Rect) -> (r: Rect)
    requires
        a.fits(),
        b.fits(),
    ensures
        r == union_spec(a, b),
        r.fits(),
{
    let x: u16 = if a.x <= b.x {
        a.x
    } else {
        b.x
    };
    let y: u16 = if a.y <= b.y {
        a.y
    } else {
        b.y
    };
    let right: u16 = if a.x + a.width >= b.x + b.width {
        a.x + a.width
    } else {
        b.x + b.width
    };
    let bottom: u16 = if a.y + a.height >= b.y + b.height {
        a.y + a.height
    } else {
        b.y + b.height
    };
    Rect { x, y, width: right - x, height: bottom - y }
}

/// Whether a cell lies in a rectangle.
pub open spec fn holds_cell(r: Rect, x: int, y: int) -> bool {
    r.x <= x < r.x + r.width && r.y <= y < r.y + r.height
}

/// A union does not depend on the order, holds every cell of both, and is as
/// small as any rectangle that does.
pub proof fn union_is_the_smallest_cover(a: Rect, b: Rect, c: Rect)
    requires
        a.fits(),
        b.fits(),
        c.fits(),
    ensures
        union_spec(a, b) == union_spec(b, a),
        forall|x: int, y: int|
            holds_cell(a, x, y) || holds_cell(b, x, y) ==> holds_cell(union_spec(a, b), x, y),
        c.x <= a.x && c.x <= b.x && c.y <= a.y && c.y <= b.y && c.x + c.width >= a.x + a.width
            && c.x + c.width >= b.x + b.width && c.y + c.height >= a.y + a.height && c.y
            + c.height >= b.y + b.height ==> union_spec(a, b).width <= c.width && union_spec(
            a,
            b,
        ).height <= c.height,
{
}

/// Two panels stacked on each other merge without losing or inventing a row.
pub proof fn stacked_panels_merge(top: Rect, bottom: Rect)
    requires
        top.fits(),
        bottom.fits(),
        top.x == bottom.x,
        top.width == bottom.width,
        bottom.y == top.y + top.height,
    ensures
        union_spec(top, bottom) == (Rect {
            x: top.x,
            y: top.y,
            width: top.width,
            height: (top.height + bottom.height) as u16,
        }),
{
}

} // verus!
