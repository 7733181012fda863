//! The arrangement of a console whose server publishes none, and how much room
//! its meters need.

use vstd::prelude::*;

verus! {

/// A panel of the graphical console.
#[derive(Debug, Clone, Copy, PartialEq, Eq, Structural)]
pub enum Panel {
    Readout,
    QuickBar,
    MeterRail,
    LevelsRail,
    Spectrum,
    AfScope,
    AfFft,
    Workspace,
    Status,
    CommandLine,
    BandBar,
    ModeBar,
    Blank,
}

/// How much room a part asks for, in cells.
#[derive(Debug, Clone, Copy, PartialEq, Eq, Structural)]
pub enum Size {
    Fixed(u16),
    Min(u16),
}

/// Which way the parts of a node are stacked.
#[derive(Debug, Clone, Copy, PartialEq, Eq, Structural)]
pub enum Stacking {
    Rows,
    Columns,
}

/// One part of an arrangement, listed parents first. `depth` says how deep it
/// is nested: the parts of a node follow it, one level deeper.
#[derive(Debug, Clone, Copy, PartialEq, Eq, Structural)]
pub struct Part {
    pub depth: u8,
    pub size: Size,
    pub content: Content,
}

#[derive(Debug, Clone, Copy, PartialEq, Eq, Structural)]
pub enum Content {
    Node(Stacking),
    Panel(Panel),
}

/// The parts of the default arrangement: readout and quick bar on top, a rail
/// of meters and audio beside the workspace, status and command line below.
pub open spec fn default_parts() -> Seq<Part> {
    seq![
        Part { depth: 1, size: Size::Fixed(4), content: Content::Panel(Panel::Readout) },
        Part { depth: 1, size: Size::Fixed(2), content: Content::Panel(Panel::QuickBar) },
        Part { depth: 1, size: Size::Min(8), content: Content::Node(Stacking::Columns) },
        Part { depth: 2, size: Size::Fixed(26), content: Content::Node(Stacking::Rows) },
        Part { depth: 3, size: Size::Min(6), content: Content::Panel(Panel::MeterRail) },
        Part { depth: 3, size: Size::Fixed(5), content: Content::Panel(Panel::AfScope) },
        Part { depth: 3, size: Size::Fixed(5), content: Content::Panel(Panel::AfFft) },
        Part { depth: 2, size: Size::Min(20), content: Content::Panel(Panel::Workspace) },
        Part { depth: 1, size: Size::Fixed(1), content: Content::Panel(Panel::Status) },
        Part { depth: 1, size: Size::Fixed(2), content: Content::Panel(Panel::CommandLine) },
    ]
}

fn leaf(depth: u8, size: Size, panel: Panel) -> (r: Part)
    ensures
        r == (Part { depth, size, content: Content::Panel(panel) }),
{
    Part { depth, size, content: Content::Panel(panel) }
}

fn node(depth: u8, size: Size, stacking: Stacking) -> (r: Part)
    ensures
        r == (Part { depth, size, content: Content::Node(stacking) }),
{
    Part { depth, size, content: Content::Node(stacking) }
}

/// The arrangement of a console whose server publishes none, as rows.
pub fn default_layout() -> (r: Vec<Part>)
    ensures
        r@ == default_parts(),
{
    let mut parts: Vec<Part> = Vec::new();
    parts.push(leaf(1, Size::Fixed(4), Panel::Readout));
    parts.push(leaf(1, Size::Fixed(2), Panel::QuickBar));
    parts.push(node(1, Size::Min(8), Stacking::Columns));
    parts.push(node(2, Size::Fixed(26), Stacking::Rows));
    parts.push(leaf(3, Size::Min(6), Panel::MeterRail));
    parts.push(leaf(3, Size::Fixed(5), Panel::AfScope));
    parts.push(leaf(3, Size::Fixed(5), Panel::AfFft));
    parts.push(leaf(2, Size::Min(20), Panel::Workspace));
    parts.push(leaf(1, Size::Fixed(1), Panel::Status));
    parts.push(leaf(1, Size::Fixed(2), Panel::CommandLine));
    assert(parts@ =~= default_parts());
    parts
}

/// Whether an arrangement has a place for a panel.
pub fn places(parts: &Vec<Part>, panel: Panel) -> (r: bool)
    ensures
        r == exists|i: int|
            0 <= i < parts@.len() && (#[trigger] parts@[i]).content == Content::Panel(panel),
{
    let mut i: usize = 0;
    while i < parts.len()
        invariant
            i <= parts@.len(),
            forall|j: int|
                0 <= j < i ==> (#[trigger] parts@[j]).content != Content::Panel(panel),
        decreases parts@.len() - i,
    {
        if parts[i].content == Content::Panel(panel) {
            return true;
        }
        i += 1;
    }
    false
}

/// Cells a meter rail needs: two for its header and two and a half per meter,
/// for one meter at least, rounded up.
pub open spec fn rail_cells(meters: u16) -> int {
    let n: int = if meters == 0 {
        1
    } else {
        meters as int
    };
    let halves: int = if n * 5 > u16::MAX {
        u16::MAX as int
    } else {
        n * 5
    };
    2 + (halves + 1) / 2
}

/// Cells a meter rail needs for so many meters.
pub fn meter_rail_cells(meters: u16) -> (r: u16)
    ensures
        r == rail_cells(meters),
{
    let n: u32 = if meters == 0 {
        1
    } else {
        meters as u32
    };
    let halves: u32 = if n * 5 > 65535 {
        65535
    } else {
        n * 5
    };
    (2 + (halves + 1) / 2) as u16
}

/// How many cells this console needs for a panel, where it needs a number of
/// its own: the height of its meter rail depends on the radio.
pub fn natural(panel: Panel, stacking: Stacking, meters: u16) -> (r: Option<u16>)
    ensures
        r == (if panel == Panel::MeterRail && stacking == Stacking::Rows {
            Some(rail_cells(meters) as u16)
        } else {
            None::<u16>
        }),
{
    match (panel, stacking) {
        (Panel::MeterRail, Stacking::Rows) => Some(meter_rail_cells(meters)),
        _ => None,
    }
}

/// A meter rail has two cells for its header and, for each meter, room for two
/// and a half: not less, and not a whole cell more. It has room for one meter
/// at least.
pub proof fn a_meter_rail_has_room_for_its_meters(meters: u16)
    requires
        meters <= 13107,
    ensures
        meters > 0 ==> 5 * meters <= 2 * (rail_cells(meters) - 2) < 5 * meters + 2,
        meters == 0 ==> rail_cells(meters) == rail_cells(1),
        rail_cells(meters) >= 5,
{
}

/// The default arrangement has a place for everything an operator works with,
/// and one only.
pub proof fn the_default_arrangement_places_every_panel_once(i: int, j: int)
    requires
        0 <= i < j < default_parts().len(),
    ensures
        default_parts()[i].content is Panel ==> default_parts()[i].content
            != default_parts()[j].content,
        default_parts()[0].content == Content::Panel(Panel::Readout),
        default_parts()[7].content == Content::Panel(Panel::Workspace),
        default_parts()[4].content == Content::Panel(Panel::MeterRail),
        default_parts().last().content == Content::Panel(Panel::CommandLine),
{
}

/// The parts of an arrangement are nested as they are listed: the first stands
/// at the outermost level, and only a node is followed by a part one level
/// deeper.
pub proof fn only_a_node_has_parts(i: int)
    requires
        0 <= i < default_parts().len() - 1,
    ensures
        default_parts()[0].depth == 1,
        default_parts()[i + 1].depth <= default_parts()[i].depth + 1,
        default_parts()[i + 1].depth > default_parts()[i].depth <==> default_parts()[i].content
            is Node,
        default_parts()[i].depth >= 1,
{
}

} // verus!
