//! The regions of the screen.

use crate::ui::geometry::amount;
use crate::ui::geometry::extent;
use crate::ui::geometry::lies_in;
use crate::ui::geometry::split_area;
use crate::ui::geometry::splits;
use crate::ui::geometry::start;
use crate::ui::geometry::total_amount;
use crate::ui::geometry::total_length;
use crate::ui::geometry::Constraint;
use crate::ui::geometry::Direction;
use crate::ui::geometry::Rect;
use vstd::prelude::*;

verus! {

/// The width of the monitoring rail: twenty cells for the audio spectrum and a
/// column on either side.
pub const RAIL_W: u16 = 22;

/// The width of the reference rail.
pub const REF_W: u16 = 26;

/// Where everything is.
#[derive(Debug, Clone, Copy, PartialEq, Eq, Structural)]
pub struct Regions {
    pub rail: Rect,
    pub content: Rect,
    pub reference: Rect,
    pub status: Rect,
    pub command: Rect,
}

/// Two full-width rows at the bottom, the rest above.
pub open spec fn screen_rows() -> Seq<Constraint> {
    seq![Constraint::Min(1), Constraint::Length(1), Constraint::Length(1)]
}

/// How wide the left rail is made.
pub open spec fn rail_width(width: u16) -> u16 {
    if width < RAIL_W {
        width
    } else {
        RAIL_W
    }
}

/// How wide the right rail is made: what the left one leaves, at most.
pub open spec fn reference_width(width: u16) -> u16 {
    let left = (width - rail_width(width)) as u16;
    if left < REF_W {
        left
    } else {
        REF_W
    }
}

/// A rail on either side, the rest between them.
pub open spec fn screen_columns(width: u16) -> Seq<Constraint> {
    seq![
        Constraint::Length(rail_width(width)),
        Constraint::Min(1),
        Constraint::Length(reference_width(width)),
    ]
}

/// The regions made of three rows and three columns.
pub open spec fn regions_of(rows: Seq<Rect>, cols: Seq<Rect>) -> Regions {
    Regions {
        rail: cols[0],
        content: cols[1],
        reference: cols[2],
        status: rows[1],
        command: rows[2],
    }
}

/// Whether `r` are the regions of `area`: the rows split the area, and the
/// columns its first row.
pub open spec fn is_split(area: Rect, r: Regions) -> bool {
    exists|rows: Seq<Rect>, cols: Seq<Rect>|
        #![trigger splits(Direction::Vertical, screen_rows(), area, rows), splits(Direction::Horizontal, screen_columns(rows[0].width), rows[0], cols)]
        splits(Direction::Vertical, screen_rows(), area, rows) && splits(
            Direction::Horizontal,
            screen_columns(rows[0].width),
            rows[0],
            cols,
        ) && r == regions_of(rows, cols)
}

/// The amounts of three parts together.
pub proof fn three_parts(cs: Seq<Constraint>)
    requires
        cs.len() == 3,
    ensures
        total_amount(cs) == amount(cs[0]) + amount(cs[1]) + amount(cs[2]),
        cs[0] is Min && cs[1] is Length && cs[2] is Length ==> total_length(cs) == amount(cs[1])
            + amount(cs[2]),
        cs[0] is Length && cs[1] is Min && cs[2] is Length ==> total_length(cs) == amount(cs[0])
            + amount(cs[2]),
{
    let two = cs.drop_last();
    let one = two.drop_last();
    assert(one.drop_last().len() == 0);
    assert(two.last() == cs[1]);
    assert(one.last() == cs[0]);
    assert(total_amount(one.drop_last()) == 0);
    assert(total_amount(one) == amount(cs[0]));
    assert(total_amount(two) == amount(cs[0]) + amount(cs[1]));
    assert(total_length(one.drop_last()) == 0);
    assert(total_length(one) == (if cs[0] is Length {
        amount(cs[0])
    } else {
        0
    }));
    assert(total_length(two) == total_length(one) + (if cs[1] is Length {
        amount(cs[1])
    } else {
        0
    }));
}

/// The amounts of two parts together.
pub proof fn two_parts(cs: Seq<Constraint>)
    requires
        cs.len() == 2,
    ensures
        total_amount(cs) == amount(cs[0]) + amount(cs[1]),
        cs[0] is Length && cs[1] is Min ==> total_length(cs) == amount(cs[0]),
        cs[0] is Length && cs[1] is Length ==> total_length(cs) == amount(cs[0]) + amount(cs[1]),
{
    let one = cs.drop_last();
    assert(one.drop_last().len() == 0);
    assert(one.last() == cs[0]);
    assert(total_amount(one.drop_last()) == 0);
    assert(total_amount(one) == amount(cs[0]));
    assert(total_length(one.drop_last()) == 0);
    assert(total_length(one) == (if cs[0] is Length {
        amount(cs[0])
    } else {
        0
    }));
}

/// Split the screen. The status strip and the command line are taken off the
/// bottom first: they are the console's and not any tab's. The rails have fixed
/// widths and the content pane takes what is left.
pub fn split(area: Rect) -> (r: Regions)
    requires
        area.fits(),
    ensures
        is_split(area, r),
        r.rail.fits() && r.content.fits() && r.reference.fits() && r.status.fits()
            && r.command.fits(),
{
    let mut row_sizes: Vec<Constraint> = Vec::new();
    row_sizes.push(Constraint::Min(1));
    row_sizes.push(Constraint::Length(1));
    row_sizes.push(Constraint::Length(1));
    assert(row_sizes@ =~= screen_rows());
    let rows = split_area(Direction::Vertical, &row_sizes, area);
    assert(lies_in(rows@[0], area, Direction::Vertical));
    assert(lies_in(rows@[1], area, Direction::Vertical));
    assert(lies_in(rows@[2], area, Direction::Vertical));
    let width: u16 = rows[0].width;
    let rail_w: u16 = if width < RAIL_W {
        width
    } else {
        RAIL_W
    };
    let left: u16 = width - rail_w;
    let ref_w: u16 = if left < REF_W {
        left
    } else {
        REF_W
    };
    let mut column_sizes: Vec<Constraint> = Vec::new();
    column_sizes.push(Constraint::Length(rail_w));
    column_sizes.push(Constraint::Min(1));
    column_sizes.push(Constraint::Length(ref_w));
    assert(column_sizes@ =~= screen_columns(width));
    let cols = split_area(Direction::Horizontal, &column_sizes, rows[0]);
    assert(lies_in(cols@[0], rows@[0], Direction::Horizontal));
    assert(lies_in(cols@[1], rows@[0], Direction::Horizontal));
    assert(lies_in(cols@[2], rows@[0], Direction::Horizontal));
    Regions {
        rail: cols[0],
        content: cols[1],
        reference: cols[2],
        status: rows[1],
        command: rows[2],
    }
}

/// On a screen with room for it the rails have their widths, the content pane
/// takes what is left, and the status strip and the command line are the two
/// full-width rows at the bottom.
pub proof fn the_rails_are_fixed(area: Rect, r: Regions)
    requires
        area.fits(),
        area.height >= 3,
        area.width >= RAIL_W + REF_W + 1,
        is_split(area, r),
    ensures
        r.rail == (Rect {
            x: area.x,
            y: area.y,
            width: RAIL_W,
            height: (area.height - 2) as u16,
        }),
        r.content == (Rect {
            x: (area.x + RAIL_W) as u16,
            y: area.y,
            width: (area.width - RAIL_W - REF_W) as u16,
            height: (area.height - 2) as u16,
        }),
        r.reference == (Rect {
            x: (area.x + area.width - REF_W) as u16,
            y: area.y,
            width: REF_W,
            height: (area.height - 2) as u16,
        }),
        r.status == (Rect {
            x: area.x,
            y: (area.y + area.height - 2) as u16,
            width: area.width,
            height: 1,
        }),
        r.command == (Rect {
            x: area.x,
            y: (area.y + area.height - 1) as u16,
            width: area.width,
            height: 1,
        }),
{
    let (rows, cols): (Seq<Rect>, Seq<Rect>) = choose|rows: Seq<Rect>, cols: Seq<Rect>|
        #![trigger splits(Direction::Vertical, screen_rows(), area, rows), splits(Direction::Horizontal, screen_columns(rows[0].width), rows[0], cols)]
        splits(Direction::Vertical, screen_rows(), area, rows) && splits(
            Direction::Horizontal,
            screen_columns(rows[0].width),
            rows[0],
            cols,
        ) && r == regions_of(rows, cols);
    three_parts(screen_rows());
    assert(lies_in(rows[0], area, Direction::Vertical));
    assert(lies_in(rows[1], area, Direction::Vertical));
    assert(lies_in(rows[2], area, Direction::Vertical));
    assert(extent(rows[0], Direction::Vertical) == area.height - 2);
    assert(extent(rows[1], Direction::Vertical) == 1);
    assert(extent(rows[2], Direction::Vertical) == 1);
    assert(start(rows[1], Direction::Vertical) == start(rows[0], Direction::Vertical) + extent(
        rows[0],
        Direction::Vertical,
    ));
    assert(start(rows[2], Direction::Vertical) == start(rows[1], Direction::Vertical) + extent(
        rows[1],
        Direction::Vertical,
    ));
    three_parts(screen_columns(rows[0].width));
    assert(lies_in(cols[0], rows[0], Direction::Horizontal));
    assert(lies_in(cols[1], rows[0], Direction::Horizontal));
    assert(lies_in(cols[2], rows[0], Direction::Horizontal));
    assert(extent(cols[0], Direction::Horizontal) == RAIL_W);
    assert(extent(cols[1], Direction::Horizontal) == area.width - RAIL_W - REF_W);
    assert(extent(cols[2], Direction::Horizontal) == REF_W);
    assert(start(cols[1], Direction::Horizontal) == start(cols[0], Direction::Horizontal)
        + extent(cols[0], Direction::Horizontal));
    assert(start(cols[2], Direction::Horizontal) == start(cols[1], Direction::Horizontal)
        + extent(cols[1], Direction::Horizontal));
}

/// On any screen the three panes of a row never overlap and never exceed its
/// width.
pub proof fn a_narrow_screen_degrades(area: Rect, r: Regions)
    requires
        area.fits(),
        is_split(area, r),
    ensures
        r.rail.width + r.content.width + r.reference.width <= area.width,
        r.rail.x + r.rail.width <= r.content.x,
        r.content.x + r.content.width <= r.reference.x,
        r.status.y + r.status.height <= r.command.y,
{
    let (rows, cols): (Seq<Rect>, Seq<Rect>) = choose|rows: Seq<Rect>, cols: Seq<Rect>|
        #![trigger splits(Direction::Vertical, screen_rows(), area, rows), splits(Direction::Horizontal, screen_columns(rows[0].width), rows[0], cols)]
        splits(Direction::Vertical, screen_rows(), area, rows) && splits(
            Direction::Horizontal,
            screen_columns(rows[0].width),
            rows[0],
            cols,
        ) && r == regions_of(rows, cols);
    assert(lies_in(rows[0], area, Direction::Vertical));
    assert(lies_in(cols[0], rows[0], Direction::Horizontal));
    assert(lies_in(cols[2], rows[0], Direction::Horizontal));
    assert(start(cols[0], Direction::Horizontal) + extent(cols[0], Direction::Horizontal) <= start(
        cols[1],
        Direction::Horizontal,
    ));
    assert(start(cols[1], Direction::Horizontal) + extent(cols[1], Direction::Horizontal) <= start(
        cols[2],
        Direction::Horizontal,
    ));
    assert(start(rows[1], Direction::Vertical) + extent(rows[1], Direction::Vertical) <= start(
        rows[2],
        Direction::Vertical,
    ));
}

} // verus!
