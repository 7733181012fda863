//! Selection grids for bands, modes and filter widths.

use crate::text::push_repeated;
use crate::text::push_text;
use crate::text::repeated;
use crate::text::text;
use crate::ui::geometry::Rect;
use crate::ui::style::Style;
use vstd::prelude::*;
use vstd::string::*;

verus! {

/// One cell of a selection grid.
///
/// A capability the radio lacks is drawn in place and dimmed, so that the grid
/// keeps its shape.
#[derive(Debug, Clone, Copy, PartialEq, Eq)]
pub struct GridItem<'a> {
    pub label: &'a str,
    pub selected: bool,
    /// Requested, and not yet confirmed by the radio.
    pub pending: bool,
    pub enabled: bool,
}

impl<'a> GridItem<'a> {
    pub fn new(label: &'a str) -> (r: Self)
        ensures
            r.label == label,
            !r.selected,
            !r.pending,
            r.enabled,
    {
        GridItem { label, selected: false, pending: false, enabled: true }
    }

    pub fn selected(self, yes: bool) -> (r: Self)
        ensures
            r == (GridItem { selected: yes, ..self }),
    {
        GridItem { label: self.label, selected: yes, pending: self.pending, enabled: self.enabled }
    }

    pub fn pending(self, yes: bool) -> (r: Self)
        ensures
            r == (GridItem { pending: yes, ..self }),
    {
        GridItem { label: self.label, selected: self.selected, pending: yes, enabled: self.enabled }
    }

    pub fn disabled(self) -> (r: Self)
        ensures
            r == (GridItem { enabled: false, ..self }),
    {
        GridItem {
            label: self.label,
            selected: self.selected,
            pending: self.pending,
            enabled: false,
        }
    }
}

/// The styles a grid picks from.
#[derive(Debug, Clone, Copy, PartialEq, Eq, Structural)]
pub struct GridStyles {
    pub normal: Style,
    pub selected: Style,
    /// Requested, and not yet confirmed: a control that showed it as selected
    /// would claim what the radio has not said.
    pub pending: Style,
    pub disabled: Style,
}

/// A label to be written at a cell.
#[derive(Debug, PartialEq, Eq)]
pub struct GridCell {
    pub x: u16,
    pub y: u16,
    pub text: String,
    pub style: Style,
}

/// The style of an item: disabled before pending before selected.
pub open spec fn item_style(item: GridItem<'_>, styles: GridStyles) -> Style {
    if !item.enabled {
        styles.disabled
    } else if item.pending {
        styles.pending
    } else if item.selected {
        styles.selected
    } else {
        styles.normal
    }
}

fn style_of(item: &GridItem<'_>, styles: &GridStyles) -> (r: Style)
    ensures
        r == item_style(*item, *styles),
{
    if !item.enabled {
        styles.disabled
    } else if item.pending {
        styles.pending
    } else if item.selected {
        styles.selected
    } else {
        styles.normal
    }
}

/// A label in the middle of `width` cells, cut off where it is too long.
pub open spec fn centred(label: Seq<char>, width: int) -> Seq<char> {
    if label.len() >= width {
        label.take(width)
    } else {
        let pad = width - label.len();
        repeated(' ', pad / 2) + label + repeated(' ', pad - pad / 2)
    }
}

/// A label in the middle of `width` cells, cut off where it is too long.
pub fn centre(label: &str, width: u16) -> (r: String)
    ensures
        r@ == centred(label@, width as int),
{
    let w: usize = width as usize;
    let len: usize = label.unicode_len();
    if len >= w {
        return text(label.substring_char(0, w));
    }
    let pad: usize = w - len;
    let left: usize = pad / 2;
    let mut out = String::new();
    push_repeated(&mut out, ' ', left);
    push_text(&mut out, label);
    push_repeated(&mut out, ' ', pad - left);
    assert(out@ =~= centred(label@, width as int));
    out
}

/// A centred label fills its cell exactly, so that it never reaches into the
/// next one.
pub proof fn a_centred_label_fills_its_cell(label: Seq<char>, width: u16)
    ensures
        centred(label, width as int).len() == width,
{
}

/// The row of an item.
pub open spec fn item_row(i: int, columns: u16) -> int {
    i / columns as int
}

/// The column of an item.
pub open spec fn item_column(i: int, columns: u16) -> int {
    i % columns as int
}

/// How many of `len` items have a row in the area.
pub open spec fn drawn_items(len: nat, columns: u16, height: u16) -> nat {
    if height * columns < len {
        (height * columns) as nat
    } else {
        len
    }
}

/// Whether nothing can be drawn at all.
pub open spec fn nothing_to_draw(len: nat, columns: u16, area: Rect) -> bool {
    columns == 0 || area.width == 0 || area.height == 0 || len == 0 || area.width / columns == 0
}

/// Whether `cell` is where and how item `i` of a grid is drawn.
pub open spec fn is_cell(
    cell: GridCell,
    items: Seq<GridItem<'_>>,
    i: int,
    columns: u16,
    area: Rect,
    styles: GridStyles,
) -> bool {
    let cell_w = area.width / columns;
    &&& cell.x == area.x + item_column(i, columns) * cell_w
    &&& cell.y == area.y + item_row(i, columns)
    &&& cell.text@ == centred(items[i].label@, cell_w as int)
    &&& cell.style == item_style(items[i], styles)
}

proof fn column_bound(col: int, columns: int, cell_w: int, width: int)
    requires
        0 <= col < columns,
        0 < cell_w,
        cell_w == width / columns,
    ensures
        col * cell_w + cell_w <= width,
        col * cell_w >= 0,
{
    assert(col * cell_w + cell_w <= width) by (nonlinear_arith)
        requires
            0 <= col < columns,
            0 < cell_w,
            cell_w == width / columns,
    ;
    assert(col * cell_w >= 0) by (nonlinear_arith)
        requires
            0 <= col,
            0 < cell_w,
    ;
}

proof fn row_in_area(i: int, columns: int, height: int)
    requires
        0 <= i,
        columns > 0,
        height > 0,
    ensures
        i / columns < height <==> i < height * columns,
{
    assert(i / columns < height <==> i < height * columns) by (nonlinear_arith)
        requires
            0 <= i,
            columns > 0,
            height > 0,
    ;
}

/// Lay `items` out in a grid `columns` wide, each label in the middle of its
/// cell. The second part of the result is the number of rows used.
pub fn grid(
    items: &Vec<GridItem<'_>>,
    columns: u16,
    area: Rect,
    styles: GridStyles,
) -> (r: (Vec<GridCell>, u16))
    requires
        area.fits(),
    ensures
        nothing_to_draw(items@.len(), columns, area) ==> r.0@.len() == 0 && r.1 == 0,
        !nothing_to_draw(items@.len(), columns, area) ==> {
            let count = drawn_items(items@.len(), columns, area.height);
            &&& r.0@.len() == count
            &&& forall|i: int|
                0 <= i < count ==> is_cell(
                    #[trigger] r.0@[i],
                    items@,
                    i,
                    columns,
                    area,
                    styles,
                )
            &&& r.1 == item_row(count - 1, columns) + 1
        },
{
    let mut cells: Vec<GridCell> = Vec::new();
    if columns == 0 || area.width == 0 || area.height == 0 || items.len() == 0 {
        return (cells, 0);
    }
    let cell_w: u16 = area.width / columns;
    if cell_w == 0 {
        return (cells, 0);
    }
    let mut rows_used: u16 = 0;
    let mut i: usize = 0;
    proof {
        assert(area.height * columns > 0) by (nonlinear_arith)
            requires
                area.height > 0,
                columns > 0,
        ;
    }
    while i < items.len()
        invariant_except_break
            i <= items@.len(),
            i <= drawn_items(items@.len(), columns, area.height),
            i > 0 ==> rows_used == item_row(i - 1, columns) + 1,
            cells@.len() == i,
        invariant
            area.fits(),
            columns > 0,
            cell_w > 0,
            area.height > 0,
            items@.len() > 0,
            area.height * columns > 0,
            cell_w == area.width / columns,
            forall|j: int|
                0 <= j < cells@.len() ==> is_cell(
                    #[trigger] cells@[j],
                    items@,
                    j,
                    columns,
                    area,
                    styles,
                ),
        ensures
            cells@.len() == drawn_items(items@.len(), columns, area.height),
            rows_used == item_row(
                drawn_items(items@.len(), columns, area.height) - 1,
                columns,
            ) + 1,
        decreases items@.len() - i,
    {
        let line: usize = i / (columns as usize);
        proof {
            row_in_area(i as int, columns as int, area.height as int);
        }
        if line >= area.height as usize {
            break;
        }
        let row: u16 = line as u16;
        let col: u16 = (i % (columns as usize)) as u16;
        proof {
            column_bound(col as int, columns as int, cell_w as int, area.width as int);
        }
        rows_used = row + 1;
        let item = &items[i];
        let x: u16 = area.x + col * cell_w;
        cells.push(
            GridCell {
                x,
                y: area.y + row,
                text: centre(item.label, cell_w),
                style: style_of(item, &styles),
            },
        );
        i += 1;
    }
    (cells, rows_used)
}

/// A disabled item still has its cell: whether an item is enabled changes its
/// style and nothing else.
pub proof fn a_disabled_item_keeps_its_cell(
    cell: GridCell,
    items: Seq<GridItem<'_>>,
    i: int,
    columns: u16,
    area: Rect,
    styles: GridStyles,
)
    requires
        0 <= i < items.len(),
        is_cell(cell, items, i, columns, area, styles),
    ensures
        !items[i].enabled ==> cell.style == styles.disabled,
        is_cell(
            GridCell { style: styles.disabled, ..cell },
            items.update(i, GridItem { enabled: false, ..items[i] }),
            i,
            columns,
            area,
            styles,
        ),
{
}

/// A label that fits stands whole in its cell, with blanks on both sides: as
/// many on the left as on the right, or one fewer. One that does not fit shows
/// its beginning.
pub proof fn a_label_stands_in_the_middle(label: Seq<char>, width: u16, left: int)
    requires
        label.len() <= width ==> width - label.len() == 2 * left || width - label.len() == 2 * left
            + 1,
    ensures
        label.len() <= width ==> {
            let text = centred(label, width as int);
            &&& text.subrange(left, left + label.len()) == label
            &&& forall|i: int|
                0 <= i < text.len() && !(left <= i < left + label.len()) ==> #[trigger] text[i]
                    == ' '
        },
        label.len() > width ==> centred(label, width as int) == label.subrange(0, width as int),
{
    let text = centred(label, width as int);
    if label.len() < width {
        assert(text.subrange(left, left + label.len()) =~= label);
    } else if label.len() == width {
        assert(text.subrange(left, left + label.len()) =~= label);
    } else {
        assert(text =~= label.subrange(0, width as int));
    }
}

/// What an item's style tells: what cannot be had looks so whatever else is
/// true of it, what is only asked for never looks selected, and the selected
/// item is told from the others.
pub proof fn a_style_tells_the_state(item: GridItem<'_>, styles: GridStyles)
    ensures
        !item.enabled ==> item_style(item, styles) == styles.disabled,
        item.enabled && item.pending ==> item_style(item, styles) == styles.pending,
        item.enabled && !item.pending && item.selected ==> item_style(item, styles)
            == styles.selected,
        item.enabled && !item.pending && !item.selected ==> item_style(item, styles)
            == styles.normal,
{
}

/// A grid reads like a page: the first item stands at the top left of the
/// area, each next one a cell to the right of the one before it, and behind
/// the last column at the left of the next row. Every cell lies inside the
/// area.
pub proof fn a_grid_reads_like_a_page(
    cells: Seq<GridCell>,
    items: Seq<GridItem<'_>>,
    columns: u16,
    area: Rect,
    styles: GridStyles,
)
    requires
        area.fits(),
        !nothing_to_draw(items.len(), columns, area),
        cells.len() == drawn_items(items.len(), columns, area.height),
        forall|i: int|
            0 <= i < cells.len() ==> is_cell(
                #[trigger] cells[i],
                items,
                i,
                columns,
                area,
                styles,
            ),
    ensures
        cells.len() > 0,
        cells[0].x == area.x,
        cells[0].y == area.y,
        forall|i: int, j: int|
            0 <= i && j == i + 1 && j < cells.len() ==> {
                let a = #[trigger] cells[i];
                let b = #[trigger] cells[j];
                ||| b.y == a.y && b.x == a.x + area.width / columns
                ||| b.y == a.y + 1 && b.x == area.x && a.x + 2 * (area.width / columns) > area.x
                    + columns * (area.width / columns)
            },
        forall|i: int|
            0 <= i < cells.len() ==> {
                let c = #[trigger] cells[i];
                &&& area.x <= c.x
                &&& c.x + c.text@.len() <= area.x + area.width
                &&& area.y <= c.y < area.y + area.height
                &&& c.text@.len() == area.width / columns
            },
        cells.len() < items.len() ==> cells.last().y == area.y + area.height - 1,
{
    let w = (area.width / columns) as int;
    let n = columns as int;
    assert(area.height * columns > 0) by (nonlinear_arith)
        requires
            area.height > 0,
            columns > 0,
    ;
    assert(is_cell(cells[0], items, 0, columns, area, styles));
    assert(0int / n == 0 && 0int % n == 0) by {
        vstd::arithmetic::div_mod::lemma_small_mod(0, columns as nat);
        vstd::arithmetic::div_mod::lemma_basic_div(0, n);
    }
    assert(0 * w == 0);
    assert forall|i: int, j: int| 0 <= i && j == i + 1 && j < cells.len() implies {
        let a = #[trigger] cells[i];
        let b = #[trigger] cells[j];
        ||| b.y == a.y && b.x == a.x + area.width / columns
        ||| b.y == a.y + 1 && b.x == area.x && a.x + 2 * (area.width / columns) > area.x + columns
            * (area.width / columns)
    } by {
        next_item(i, n, w);
        assert(is_cell(cells[i], items, i, columns, area, styles));
        assert(is_cell(cells[j], items, j, columns, area, styles));
    }
    assert forall|i: int| 0 <= i < cells.len() implies {
        let c = #[trigger] cells[i];
        &&& area.x <= c.x
        &&& c.x + c.text@.len() <= area.x + area.width
        &&& area.y <= c.y < area.y + area.height
        &&& c.text@.len() == area.width / columns
    } by {
        assert(is_cell(cells[i], items, i, columns, area, styles));
        vstd::arithmetic::div_mod::lemma_mod_bound(i, n);
        vstd::arithmetic::div_mod::lemma_div_pos_is_pos(i, n);
        column_bound(i % n, n, w, area.width as int);
        row_in_area(i, n, area.height as int);
        a_centred_label_fills_its_cell(items[i].label@, area.width / columns);
    }
    if cells.len() < items.len() {
        let last = cells.len() - 1;
        assert(is_cell(cells[last], items, last, columns, area, styles));
        assert(last / n == area.height - 1) by (nonlinear_arith)
            requires
                last == area.height * n - 1,
                n > 0,
                area.height > 0,
        ;
    }
}

/// The row and the column of the item behind another.
proof fn next_item(i: int, n: int, w: int)
    requires
        0 <= i,
        0 < n,
        0 < w,
    ensures
        (i + 1) / n == i / n && ((i + 1) % n) * w == (i % n) * w + w || (i + 1) / n == i / n + 1
            && (i + 1) % n == 0 && (i % n) * w + 2 * w > n * w,
{
    let q = i / n;
    let r = i % n;
    vstd::arithmetic::div_mod::lemma_fundamental_div_mod(i, n);
    vstd::arithmetic::div_mod::lemma_mod_bound(i, n);
    if r + 1 < n {
        vstd::arithmetic::div_mod::lemma_fundamental_div_mod_converse(i + 1, n, q, r + 1);
        assert((r + 1) * w == r * w + w) by (nonlinear_arith);
    } else {
        assert(i + 1 == (q + 1) * n + 0) by (nonlinear_arith)
            requires
                i == n * q + r,
                r + 1 == n,
        ;
        vstd::arithmetic::div_mod::lemma_fundamental_div_mod_converse(i + 1, n, q + 1, 0);
        assert(r * w + 2 * w > n * w) by (nonlinear_arith)
            requires
                r + 1 == n,
                w > 0,
        ;
    }
}

} // verus!
