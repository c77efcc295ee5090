//! Areas of the screen and how they are divided.

use ratatui::layout::{Constraint, Direction, Layout, Rect};
use ratatui::widgets::{Block, Borders};
use vstd::prelude::*;

verus! {

/// A rectangle of the screen, in cells.
#[derive(Clone, Copy, Debug, PartialEq, Eq, Structural)]
pub struct Area {
    pub x: u16,
    pub y: u16,
    pub width: u16,
    pub height: u16,
}

/// The direction in which an area is divided.
#[derive(Clone, Copy, Debug, PartialEq, Eq, Structural)]
pub enum Axis {
    /// Into parts beside each other
    Across,
    /// Into parts below each other
    Down,
}

/// What a part of an area is to have of it.
#[derive(Clone, Copy, Debug, PartialEq, Eq, Structural)]
pub enum Part {
    /// At least so many cells
    Min(u16),
    /// So many cells
    Length(u16),
    /// So many hundredths
    Percentage(u16),
    /// Such a fraction
    Ratio(u32, u32),
}

/// Whether `part` lies within `whole`.
pub open spec fn inside(part: Area, whole: Area) -> bool {
    &&& whole.x <= part.x
    &&& part.x + part.width <= whole.x + whole.width
    &&& whole.y <= part.y
    &&& part.y + part.height <= whole.y + whole.height
}

/// Whether `part` lies within `whole` and has all of its extent on the other axis.
pub open spec fn slice_of(part: Area, whole: Area, axis: Axis) -> bool {
    &&& inside(part, whole)
    &&& match axis {
        Axis::Across => part.y == whole.y && part.height == whole.height,
        Axis::Down => part.x == whole.x && part.width == whole.width,
    }
}

/// Whether the areas are one slice of `whole` for each of `n` parts.
pub open spec fn slices_of(areas: Seq<Area>, whole: Area, axis: Axis, n: nat) -> bool {
    &&& areas.len() == n
    &&& forall|i: int| 0 <= i < areas.len() ==> slice_of(#[trigger] areas[i], whole, axis)
}

/// Whether `ratatui::layout::Layout::split` can give these areas for the parts of
/// an area. A solver decides that, which weighs the parts against each other and
/// may settle ties either way: so it is only told apart what it can give and what
/// it cannot, and no one result is named.
pub uninterp spec fn can_split(axis: Axis, parts: Seq<Part>, area: Area, areas: Seq<Area>) -> bool;

/// Whether the areas are a division of the area into its parts.
pub open spec fn divided(axis: Axis, parts: Seq<Part>, area: Area, areas: Seq<Area>) -> bool {
    can_split(axis, parts, area, areas) && slices_of(areas, area, axis, parts.len())
}

/// `ratatui::layout::Layout::split` with the direction and the constraints, on the
/// area: there is one rectangle for each constraint, and each lies within the
/// area and has all of its extent across the direction. How much of the area each
/// constraint gets is left unsaid, but for the name of what can be given.
#[verifier::external_body]
pub(crate) fn split_area(axis: Axis, parts: &Vec<Part>, area: Area) -> (r: Vec<Area>)
    ensures
        can_split(axis, parts@, area, r@),
        slices_of(r@, area, axis, parts@.len()),
{
    let direction = match axis {
        Axis::Across => Direction::Horizontal,
        Axis::Down => Direction::Vertical,
    };
    let constraints = parts.iter().map(|part| match *part {
        Part::Min(n) => Constraint::Min(n),
        Part::Length(n) => Constraint::Length(n),
        Part::Percentage(n) => Constraint::Percentage(n),
        Part::Ratio(n, of) => Constraint::Ratio(n, of),
    });
    let rect = Rect { x: area.x, y: area.y, width: area.width, height: area.height };
    let rects = Layout::new(direction, constraints).split(rect);
    rects.iter().map(|r| Area { x: r.x, y: r.y, width: r.width, height: r.height }).collect()
}

/// `a + b`, or the highest number of cells.
pub open spec fn cells_add(a: u16, b: u16) -> int {
    if a + b > u16::MAX {
        u16::MAX as int
    } else {
        a + b
    }
}

/// `a - b`, or none.
pub open spec fn cells_less(a: u16, b: int) -> int {
    if a > b {
        a - b
    } else {
        0
    }
}

/// The place of what stands within a border that begins at `start` and takes
/// `extent` cells.
pub open spec fn behind_border(start: u16, extent: u16) -> int {
    if cells_add(start, 1) < cells_add(start, extent) {
        cells_add(start, 1)
    } else {
        cells_add(start, extent)
    }
}

/// What a border around `area` leaves of it.
pub open spec fn bordered(area: Area) -> Area {
    Area {
        x: behind_border(area.x, area.width) as u16,
        y: behind_border(area.y, area.height) as u16,
        width: cells_less(area.width, 2) as u16,
        height: cells_less(area.height, 2) as u16,
    }
}

/// `ratatui::widgets::Block::inner` of a block with all its borders: one cell is
/// taken off on each side, as far as there are any.
#[verifier::external_body]
pub(crate) fn inner_area(area: Area) -> (r: Area)
    ensures
        r == bordered(area),
{
    let rect = Rect { x: area.x, y: area.y, width: area.width, height: area.height };
    let r = Block::default().borders(Borders::ALL).inner(rect);
    Area { x: r.x, y: r.y, width: r.width, height: r.height }
}

/// The parts of a screen: the content, and the status bar below it.
pub open spec fn screen_parts() -> Seq<Part> {
    seq![Part::Min(1), Part::Length(1)]
}

/// The parts of a screen: the content, and the status bar below it.
pub fn screen_parts_of() -> (r: Vec<Part>)
    ensures
        r@ == screen_parts(),
{
    let r: Vec<Part> = vec![Part::Min(1), Part::Length(1)];
    assert(r@ =~= screen_parts());
    r
}

/// Whether a screen of that area can be divided into this content and status bar.
pub open spec fn screen_divided(area: Area, content: Area, bar: Area) -> bool {
    exists|areas: Seq<Area>| #[trigger]
        divided(Axis::Down, screen_parts(), area, areas) && content == areas[0] && bar == areas[1]
}

/// Divides the screen into the content and the status bar below it.
pub fn split_screen(area: Area) -> (r: (Area, Area))
    ensures
        screen_divided(area, r.0, r.1),
        slice_of(r.0, area, Axis::Down),
        slice_of(r.1, area, Axis::Down),
{
    let areas = split_area(Axis::Down, &screen_parts_of(), area);
    assert(divided(Axis::Down, screen_parts(), area, areas@));
    (areas[0], areas[1])
}

/// The parts of an extent that put `percent` hundredths of it in the middle.
pub open spec fn middle_parts(percent: int) -> Seq<Part> {
    let margin = Part::Percentage(((100 - percent) / 2) as u16);
    seq![margin, Part::Percentage(percent as u16), margin]
}

/// The parts of an extent that put `percent` hundredths of it in the middle.
pub fn middle_parts_of(percent: u16) -> (r: Vec<Part>)
    requires
        percent <= 100,
    ensures
        r@ == middle_parts(percent as int),
{
    let margin = Part::Percentage((100 - percent) / 2);
    let r: Vec<Part> = vec![margin, Part::Percentage(percent), margin];
    assert(r@ =~= middle_parts(percent as int));
    r
}

/// Whether `r` can be the middle of `area`, of so many hundredths of its width and
/// height.
pub open spec fn centered(percent_x: int, percent_y: int, area: Area, r: Area) -> bool {
    exists|rows: Seq<Area>, columns: Seq<Area>|
        #![trigger divided(Axis::Down, middle_parts(percent_y), area, rows), divided(Axis::Across, middle_parts(percent_x), rows[1], columns)]
        divided(Axis::Down, middle_parts(percent_y), area, rows) && divided(
            Axis::Across,
            middle_parts(percent_x),
            rows[1],
            columns,
        ) && r == columns[1]
}

/// An area in the middle of `area`, of so many hundredths of its width and
/// height.
pub fn centered_rect(percent_x: u16, percent_y: u16, area: Area) -> (r: Area)
    requires
        percent_x <= 100,
        percent_y <= 100,
    ensures
        centered(percent_x as int, percent_y as int, area, r),
        inside(r, area),
{
    let rows = split_area(Axis::Down, &middle_parts_of(percent_y), area);
    let row = rows[1];
    let columns = split_area(Axis::Across, &middle_parts_of(percent_x), row);
    assert(divided(Axis::Down, middle_parts(percent_y as int), area, rows@));
    assert(divided(Axis::Across, middle_parts(percent_x as int), rows@[1], columns@));
    columns[1]
}

/// The least width of a column of the tree.
pub const MIN_COLUMN_WIDTH: u16 = 20;

/// The most columns of the tree that are shown at once.
pub const MAX_VISIBLE_COLUMNS: usize = 5;

/// How many panes the tree has: its columns, and the previewed file.
pub open spec fn pane_count(columns: int, file: bool) -> int {
    if file {
        columns + 1
    } else {
        columns
    }
}

/// How many of `panes` panes are shown on `width` cells: at least one, and no more
/// than there is room for.
pub open spec fn panes_shown(panes: int, width: u16) -> int {
    let room = if width / MIN_COLUMN_WIDTH < MAX_VISIBLE_COLUMNS {
        (width / MIN_COLUMN_WIDTH) as int
    } else {
        MAX_VISIBLE_COLUMNS as int
    };
    let shown = if panes < room {
        panes
    } else {
        room
    };
    if shown < 1 {
        1
    } else {
        shown
    }
}

/// How many panes are to be shown from the active column on: itself, and what is
/// beside it.
pub open spec fn panes_wanted(columns: int, active: int, file: bool) -> int {
    if file || columns > active + 1 {
        2
    } else {
        1
    }
}

/// The first pane that is shown: the leftmost, or so far to the right that what is
/// wanted ends the row.
pub open spec fn first_pane(columns: int, active: int, file: bool, width: u16) -> int {
    let panes = pane_count(columns, file);
    let shown = panes_shown(panes, width);
    let end = active + panes_wanted(columns, active, file);
    if end <= shown {
        0
    } else if end < panes {
        end - shown
    } else {
        panes - shown
    }
}

/// The first pane that is shown, and how many.
pub fn visible_panes(columns: usize, active: usize, file: bool, width: u16) -> (r: (usize, usize))
    requires
        active < columns,
    ensures
        r.0 == first_pane(columns as int, active as int, file, width),
        r.1 == panes_shown(pane_count(columns as int, file), width),
        r.0 + r.1 <= pane_count(columns as int, file),
        r.1 >= 1,
{
    let all: u128 = if file {
        columns as u128 + 1
    } else {
        columns as u128
    };
    let mut shown: u128 = all;
    if shown > MAX_VISIBLE_COLUMNS as u128 {
        shown = MAX_VISIBLE_COLUMNS as u128;
    }
    let room: u128 = (width / MIN_COLUMN_WIDTH) as u128;
    if shown > room {
        shown = room;
    }
    if shown < 1 {
        shown = 1;
    }
    let wanted: u128 = if file || columns - active > 1 {
        2
    } else {
        1
    };
    let end: u128 = active as u128 + wanted;
    let start: u128 = if end <= shown {
        0
    } else if end < all {
        end - shown
    } else {
        all - shown
    };
    (start as usize, shown as usize)
}

/// What is beside the active column is always shown, and so is the active column
/// wherever there is room for both. What is shown begins with the first pane, or as
/// far to the right as that takes and no further.
pub proof fn law_active_column_shown(columns: int, active: int, file: bool, width: u16)
    requires
        0 <= active < columns,
    ensures
        ({
            let first = first_pane(columns, active, file, width);
            let shown = panes_shown(pane_count(columns, file), width);
            let wanted = panes_wanted(columns, active, file);
            &&& 0 <= first
            &&& first + shown <= pane_count(columns, file)
            &&& first <= active + wanted - 1 < first + shown
            &&& shown >= wanted ==> first <= active < first + shown
            &&& first > 0 ==> first + shown == active + wanted
        }),
{
}

/// The parts of so many columns of equal width.
pub open spec fn column_parts(count: int) -> Seq<Part> {
    Seq::new(count as nat, |i: int| Part::Ratio(1, count as u32))
}

/// The parts of so many columns of equal width.
pub fn column_parts_of(count: usize) -> (r: Vec<Part>)
    requires
        count <= MAX_VISIBLE_COLUMNS,
    ensures
        r@ == column_parts(count as int),
{
    let mut r: Vec<Part> = Vec::new();
    let mut i: usize = 0;
    while i < count
        invariant
            i <= count,
            r@ == column_parts(count as int).take(i as int),
        decreases count - i,
    {
        r.push(Part::Ratio(1, count as u32));
        i += 1;
        assert(r@ =~= column_parts(count as int).take(i as int));
    }
    assert(r@ =~= column_parts(count as int));
    r
}

/// Divides an area into so many columns of equal width.
pub fn split_columns(count: usize, area: Area) -> (r: Vec<Area>)
    requires
        count <= MAX_VISIBLE_COLUMNS,
    ensures
        divided(Axis::Across, column_parts(count as int), area, r@),
{
    split_area(Axis::Across, &column_parts_of(count), area)
}

} // verus!
