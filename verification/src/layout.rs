//! Where on the terminal the cockpit's panes stand.

use ratatui::layout as tui;
use vstd::prelude::*;

verus! {

/// A rectangle of terminal cells.
#[derive(Debug, Clone, Copy, PartialEq, Eq, Structural)]
pub struct Area {
    pub x: u16,
    pub y: u16,
    pub width: u16,
    pub height: u16,
}

/// The direction in which an area is divided.
#[derive(Debug, Clone, Copy, PartialEq, Eq, Structural)]
pub enum Direction {
    Horizontal,
    Vertical,
}

/// What is asked of the size of a part.
#[derive(Debug, Clone, Copy, PartialEq, Eq, Structural)]
pub enum Constraint {
    Length(u16),
    Min(u16),
    Percentage(u16),
}

/// Whether dividing `area` under the given constraints can yield `parts`. The solver
/// behind it settles what the constraints leave open in an order that hash tables
/// with random seeds have a say in, so several outcomes may be possible; the
/// documentation, too, speaks of indeterminate results.
pub uninterp spec fn divides(
    direction: Direction,
    constraints: Seq<Constraint>,
    area: Area,
    parts: Seq<Area>,
) -> bool;

/// Where an area starts along a direction.
pub open spec fn start(direction: Direction, area: Area) -> int {
    match direction {
        Direction::Vertical => area.y as int,
        Direction::Horizontal => area.x as int,
    }
}

/// How far an area extends along a direction.
pub open spec fn extent(direction: Direction, area: Area) -> int {
    match direction {
        Direction::Vertical => area.height as int,
        Direction::Horizontal => area.width as int,
    }
}

/// Whether the cells of an area along a direction can all be numbered.
pub open spec fn in_reach(direction: Direction, area: Area) -> bool {
    start(direction, area) + extent(direction, area) <= u16::MAX
}

/// Whether a part reaches from the left to the right side of a whole.
pub open spec fn same_width(part: Area, whole: Area) -> bool {
    part.x == whole.x && part.width == whole.width
}

/// Whether a part reaches from the top to the bottom of a whole.
pub open spec fn same_height(part: Area, whole: Area) -> bool {
    part.y == whole.y && part.height == whole.height
}

/// Whether a part takes the same room as a whole across a direction.
pub open spec fn across(direction: Direction, part: Area, whole: Area) -> bool {
    match direction {
        Direction::Vertical => same_width(part, whole),
        Direction::Horizontal => same_height(part, whole),
    }
}

/// Whether a part stays inside a whole along a direction.
pub open spec fn inside(direction: Direction, part: Area, whole: Area) -> bool {
    &&& start(direction, whole) <= start(direction, part)
    &&& start(direction, part) + extent(direction, part) <= start(direction, whole) + extent(
        direction,
        whole,
    )
}

/// The room that a constraint asks for at the least, whatever there is.
pub open spec fn asked(c: Constraint) -> int {
    match c {
        Constraint::Length(n) => n as int,
        Constraint::Min(n) => n as int,
        Constraint::Percentage(_) => 0,
    }
}

/// The room that the first `n` constraints ask for.
pub open spec fn asked_by(constraints: Seq<Constraint>, n: nat) -> int
    decreases n,
{
    if n == 0 {
        0
    } else {
        asked_by(constraints, (n - 1) as nat) + asked(constraints[n - 1])
    }
}

/// The given percentage of `room`, rounded to whole cells, a half upwards.
pub open spec fn percent_of(n: int, room: int) -> int {
    (n * room + 50) / 100
}

/// Whether the constraints settle the sizes of all parts of `room` cells: either they
/// are lengths with at most one minimum among them, for which there is room, or two
/// percentages that make up the whole.
pub open spec fn settled(constraints: Seq<Constraint>, room: int) -> bool {
    ||| {
        &&& forall|i: int|
            0 <= i < constraints.len() ==> !((#[trigger] constraints[i]) is Percentage)
        &&& forall|i: int, j: int|
            #![trigger constraints[i], constraints[j]]
            0 <= i < j < constraints.len() ==> !(constraints[i] is Min && constraints[j] is Min)
        &&& asked_by(constraints, constraints.len()) <= room
    }
    ||| {
        &&& constraints.len() == 2
        &&& constraints[0] is Percentage
        &&& constraints[1] is Percentage
        &&& constraints[0]->Percentage_0 + constraints[1]->Percentage_0 == 100
    }
}

/// The size of the part at `i` of `room` cells, where the constraints settle it: a
/// length as it is, for a minimum what the lengths leave, for a percentage its share.
pub open spec fn part_size(constraints: Seq<Constraint>, i: int, room: int) -> int {
    match constraints[i] {
        Constraint::Length(n) => n as int,
        Constraint::Min(n) => room - (asked_by(constraints, constraints.len()) - n),
        Constraint::Percentage(n) => if i == 0 {
            percent_of(n as int, room)
        } else {
            room - percent_of(100 - n, room)
        },
    }
}

/// Whether each part starts where the one before it ends, and the first with the area.
pub open spec fn consecutive(direction: Direction, area: Area, parts: Seq<Area>) -> bool {
    &&& parts.len() > 0 ==> start(direction, parts[0]) == start(direction, area)
    &&& forall|i: int, j: int|
        #![trigger parts[i], parts[j]]
        0 <= i && j == i + 1 && j < parts.len() ==> start(direction, parts[j]) == start(
            direction,
            parts[i],
        ) + extent(direction, parts[i])
}

/// What holds of the parts of an area, one for each constraint. Across the direction
/// of the division they take the same room as the area, and along it they stay inside
/// it. Where the constraints settle their sizes, they have them, and stand side by side.
pub open spec fn parted(
    direction: Direction,
    constraints: Seq<Constraint>,
    area: Area,
    parts: Seq<Area>,
) -> bool {
    let room = extent(direction, area);
    &&& parts.len() == constraints.len()
    &&& forall|i: int|
        0 <= i < parts.len() ==> across(direction, #[trigger] parts[i], area) && inside(
            direction,
            parts[i],
            area,
        )
    &&& in_reach(direction, area) && settled(constraints, room) ==> {
        &&& consecutive(direction, area, parts)
        &&& forall|i: int|
            0 <= i < parts.len() ==> extent(direction, #[trigger] parts[i]) == part_size(
                constraints,
                i,
                room,
            )
    }
}

/// Calls `ratatui::layout::Layout::split`: one part for each constraint, in order,
/// across the division as wide as the area, and along it inside the area. Lengths with
/// at most one minimum among them, where there is room for all of them, are met
/// exactly, and the part with the minimum takes the rest; so are two percentages that
/// make up the whole, up to rounding. Such parts follow one another from the start of
/// the area. What sizes the parts have under other constraints, or where there is too
/// little room, is left unsaid.
#[verifier::external_body]
fn split_area(direction: Direction, constraints: &Vec<Constraint>, area: Area) -> (r: Vec<Area>)
    ensures
        divides(direction, constraints@, area, r@),
        parted(direction, constraints@, area, r@),
{
    let wanted = constraints.iter().map(|c| match c {
        Constraint::Length(n) => tui::Constraint::Length(*n),
        Constraint::Min(n) => tui::Constraint::Min(*n),
        Constraint::Percentage(n) => tui::Constraint::Percentage(*n),
    });
    let layout = tui::Layout::default().constraints(wanted).direction(match direction {
        Direction::Vertical => tui::Direction::Vertical,
        Direction::Horizontal => tui::Direction::Horizontal,
    });
    let whole = tui::Rect { x: area.x, y: area.y, width: area.width, height: area.height };
    let parts = layout.split(whole);
    parts.iter().map(|p| Area { x: p.x, y: p.y, width: p.width, height: p.height }).collect()
}

/// The larger of zero and `n`.
pub open spec fn clip(n: int) -> int {
    if n < 0 {
        0
    } else {
        n
    }
}

/// The smaller of two numbers.
pub open spec fn least(a: int, b: int) -> int {
    if a < b {
        a
    } else {
        b
    }
}

/// What is left of an area inside a border on all sides.
pub open spec fn interior(area: Area) -> Area {
    Area {
        x: least(area.x + least(1, area.width as int), u16::MAX as int) as u16,
        y: least(area.y + least(1, area.height as int), u16::MAX as int) as u16,
        width: clip(area.width - 2) as u16,
        height: clip(area.height - 2) as u16,
    }
}

/// Calls `ratatui::widgets::Block::inner` on a block with borders on all sides: the
/// area less one cell on each side, as far as it reaches. A title stands in the border
/// and takes no room of its own.
#[verifier::external_body]
fn inside_border(area: Area) -> (r: Area)
    ensures
        r == interior(area),
{
    let whole = tui::Rect { x: area.x, y: area.y, width: area.width, height: area.height };
    let block = ratatui::widgets::Block::default().borders(ratatui::widgets::Borders::ALL);
    let p = block.inner(whole);
    Area { x: p.x, y: p.y, width: p.width, height: p.height }
}

/// The places of the cockpit's panes.
pub struct Places {
    pub header: Area,
    pub header_left: Area,
    pub header_mid: Area,
    pub header_right: Area,
    pub body: Area,
    pub left: Area,
    pub models: Area,
    pub tool_log: Area,
    pub centre: Area,
    pub chat: Area,
    pub input: Area,
    pub right: Area,
    pub gauges: Area,
    pub tg: Area,
    pub pp: Area,
    pub accept: Area,
    pub mem: Area,
    pub vram: Area,
    pub cpu: Area,
    pub memory: Area,
    pub footer: Area,
    pub footer_left: Area,
    pub footer_mid: Area,
    pub footer_right: Area,
}

/// The constraints on header, body and footer.
pub open spec fn edge_constraints(corner_h: u16) -> Seq<Constraint> {
    seq![
        Constraint::Length((corner_h + 1) as u16),
        Constraint::Min(10),
        Constraint::Length((corner_h + 1) as u16),
    ]
}

/// The constraints on a strip between two corner ornaments.
pub open spec fn strip_constraints(corner_w: u16) -> Seq<Constraint> {
    seq![Constraint::Length(corner_w), Constraint::Min(20), Constraint::Length(corner_w)]
}

/// The constraints on the rows of the gauges.
pub open spec fn gauge_constraints() -> Seq<Constraint> {
    seq![
        Constraint::Length(2),
        Constraint::Length(2),
        Constraint::Length(2),
        Constraint::Length(2),
        Constraint::Length(2),
        Constraint::Length(2),
    ]
}

/// The division of an area into parts: a possible outcome, with what holds of all.
pub open spec fn division(
    direction: Direction,
    constraints: Seq<Constraint>,
    area: Area,
    parts: Seq<Area>,
) -> bool {
    divides(direction, constraints, area, parts) && parted(direction, constraints, area, parts)
}

impl Places {
    /// The panes divide `area` as the cockpit asks for, with corner ornaments of the
    /// given size: header, body and footer from top to bottom; header and footer
    /// between their corners; the models over the tool log, the chat over its input
    /// line, and the gauges over the memory, side by side in the body.
    pub open spec fn divide(self, area: Area, corner_w: u16, corner_h: u16) -> bool {
        &&& division(
            Direction::Vertical,
            edge_constraints(corner_h),
            area,
            seq![self.header, self.body, self.footer],
        )
        &&& division(
            Direction::Horizontal,
            strip_constraints(corner_w),
            self.header,
            seq![self.header_left, self.header_mid, self.header_right],
        )
        &&& division(
            Direction::Horizontal,
            seq![Constraint::Length(20), Constraint::Min(40), Constraint::Length(28)],
            self.body,
            seq![self.left, self.centre, self.right],
        )
        &&& division(
            Direction::Vertical,
            seq![Constraint::Percentage(45), Constraint::Percentage(55)],
            self.left,
            seq![self.models, self.tool_log],
        )
        &&& division(
            Direction::Vertical,
            seq![Constraint::Min(3), Constraint::Length(3)],
            self.centre,
            seq![self.chat, self.input],
        )
        &&& division(
            Direction::Vertical,
            seq![Constraint::Length(14), Constraint::Min(5)],
            self.right,
            seq![self.gauges, self.memory],
        )
        &&& division(
            Direction::Vertical,
            gauge_constraints(),
            interior(self.gauges),
            self.rows(),
        )
        &&& division(
            Direction::Horizontal,
            strip_constraints(corner_w),
            self.footer,
            seq![self.footer_left, self.footer_mid, self.footer_right],
        )
    }

    /// The gauges, from top to bottom.
    pub open spec fn rows(self) -> Seq<Area> {
        seq![self.tg, self.pp, self.accept, self.mem, self.vram, self.cpu]
    }

    /// Header, body and footer are as wide as the whole and stay inside it. The parts
    /// of the header and of the footer are as high as their strip, the columns are as
    /// high as the body, and all stay inside it. The panes are as wide as the column
    /// they stand in, the gauges as wide as the inside of their border, and both stay
    /// inside it.
    pub open spec fn aligned(self, area: Area) -> bool {
        &&& band_of(self.header, area)
        &&& band_of(self.body, area)
        &&& band_of(self.footer, area)
        &&& column_of(self.header_left, self.header)
        &&& column_of(self.header_mid, self.header)
        &&& column_of(self.header_right, self.header)
        &&& column_of(self.footer_left, self.footer)
        &&& column_of(self.footer_mid, self.footer)
        &&& column_of(self.footer_right, self.footer)
        &&& column_of(self.left, self.body)
        &&& column_of(self.centre, self.body)
        &&& column_of(self.right, self.body)
        &&& band_of(self.models, self.left)
        &&& band_of(self.tool_log, self.left)
        &&& band_of(self.chat, self.centre)
        &&& band_of(self.input, self.centre)
        &&& band_of(self.gauges, self.right)
        &&& band_of(self.memory, self.right)
        &&& band_of(self.tg, interior(self.gauges))
        &&& band_of(self.pp, interior(self.gauges))
        &&& band_of(self.accept, interior(self.gauges))
        &&& band_of(self.mem, interior(self.gauges))
        &&& band_of(self.vram, interior(self.gauges))
        &&& band_of(self.cpu, interior(self.gauges))
    }
}

/// Whether a part is a band of a whole: as wide as it, and inside it.
pub open spec fn band_of(part: Area, whole: Area) -> bool {
    same_width(part, whole) && inside(Direction::Vertical, part, whole)
}

/// Whether a part is a column of a whole: as high as it, and inside it.
pub open spec fn column_of(part: Area, whole: Area) -> bool {
    same_height(part, whole) && inside(Direction::Horizontal, part, whole)
}

/// The band of an area that is `n` rows high and starts at row `from` of it.
pub open spec fn band(area: Area, from: int, n: int) -> Area {
    Area { x: area.x, y: (area.y + from) as u16, width: area.width, height: n as u16 }
}

/// The column of an area that is `n` cells wide and starts at column `from` of it.
pub open spec fn column(area: Area, from: int, n: int) -> Area {
    Area { x: (area.x + from) as u16, y: area.y, width: n as u16, height: area.height }
}

/// Whether a terminal has room for all that the panes ask for.
pub open spec fn roomy(area: Area, corner_w: u16, corner_h: u16) -> bool {
    &&& in_reach(Direction::Vertical, area)
    &&& in_reach(Direction::Horizontal, area)
    &&& 2 * (corner_h + 1) + 19 <= area.height
    &&& 2 * corner_w + 20 <= area.width
    &&& 88 <= area.width
}

/// The places of the panes where there is room for all they ask for.
pub open spec fn roomy_places(area: Area, corner_w: u16, corner_h: u16) -> Places {
    let edge = corner_h + 1;
    let header = band(area, 0, edge);
    let body = band(area, edge, area.height - 2 * edge);
    let footer = band(area, area.height - edge, edge);
    let left = column(body, 0, 20);
    let centre = column(body, 20, body.width - 48);
    let right = column(body, body.width - 28, 28);
    let upper = percent_of(45, body.height as int);
    let gauges = band(right, 0, 14);
    let rows = interior(gauges);
    Places {
        header,
        header_left: column(header, 0, corner_w as int),
        header_mid: column(header, corner_w as int, area.width - 2 * corner_w),
        header_right: column(header, area.width - corner_w, corner_w as int),
        body,
        left,
        models: band(left, 0, upper),
        tool_log: band(left, upper, body.height - upper),
        centre,
        chat: band(centre, 0, body.height - 3),
        input: band(centre, body.height - 3, 3),
        right,
        gauges,
        tg: band(rows, 0, 2),
        pp: band(rows, 2, 2),
        accept: band(rows, 4, 2),
        mem: band(rows, 6, 2),
        vram: band(rows, 8, 2),
        cpu: band(rows, 10, 2),
        memory: band(right, 14, body.height - 14),
        footer,
        footer_left: column(footer, 0, corner_w as int),
        footer_mid: column(footer, corner_w as int, area.width - 2 * corner_w),
        footer_right: column(footer, area.width - corner_w, corner_w as int),
    }
}

/// Three parts side by side in an area: a minimum between two lengths.
proof fn lemma_three(direction: Direction, a: u16, b: u16, c: u16, area: Area, parts: Seq<Area>)
    requires
        parted(
            direction,
            seq![Constraint::Length(a), Constraint::Min(b), Constraint::Length(c)],
            area,
            parts,
        ),
    ensures
        in_reach(direction, area) && a + b + c <= extent(direction, area) ==> {
            &&& start(direction, parts[0]) == start(direction, area)
            &&& extent(direction, parts[0]) == a
            &&& start(direction, parts[1]) == start(direction, area) + a
            &&& extent(direction, parts[1]) == extent(direction, area) - a - c
            &&& start(direction, parts[2]) == start(direction, area) + extent(direction, area) - c
            &&& extent(direction, parts[2]) == c
        },
{
    let cs = seq![Constraint::Length(a), Constraint::Min(b), Constraint::Length(c)];
    reveal_with_fuel(asked_by, 4);
    assert(asked_by(cs, 3) == a + b + c);
    assert(cs[0] is Length && cs[1] is Min && cs[2] is Length);
}

/// The gauges have two rows each where there is room for them.
proof fn lemma_rows(area: Area, parts: Seq<Area>)
    requires
        parted(Direction::Vertical, gauge_constraints(), area, parts),
        in_reach(Direction::Vertical, area),
        12 <= area.height,
    ensures
        forall|i: int|
            0 <= i < 6 ==> (#[trigger] parts[i]).y == area.y + 2 * i && parts[i].height == 2,
{
    let cs = gauge_constraints();
    reveal_with_fuel(asked_by, 7);
    assert(asked_by(cs, 6) == 12);
    let d = Direction::Vertical;
    assert(extent(d, parts[0]) == 2 && start(d, parts[0]) == area.y);
    assert(extent(d, parts[1]) == 2 && start(d, parts[1]) == area.y + 2);
    assert(extent(d, parts[2]) == 2 && start(d, parts[2]) == area.y + 4);
    assert(extent(d, parts[3]) == 2 && start(d, parts[3]) == area.y + 6);
    assert(extent(d, parts[4]) == 2 && start(d, parts[4]) == area.y + 8);
    assert(extent(d, parts[5]) == 2 && start(d, parts[5]) == area.y + 10);
}

/// The strips at the top and at the bottom hold a corner ornament and one row more,
/// and the body has the other rows, wherever the body is left its least height.
pub proof fn law_strips_measure(p: Places, area: Area, corner_w: u16, corner_h: u16)
    requires
        p.divide(area, corner_w, corner_h),
        in_reach(Direction::Vertical, area),
        2 * (corner_h + 1) + 10 <= area.height,
    ensures
        p.header == band(area, 0, corner_h + 1),
        p.body == band(area, corner_h + 1, area.height - 2 * (corner_h + 1)),
        p.footer == band(area, area.height - (corner_h + 1), corner_h + 1),
{
    let edge = (corner_h + 1) as u16;
    let parts = seq![p.header, p.body, p.footer];
    lemma_three(Direction::Vertical, edge, 10, edge, area, parts);
    assert(parts[0] == p.header && parts[1] == p.body && parts[2] == p.footer);
}

/// A strip and its parts between the corner ornaments.
proof fn lemma_strip(strip: Area, corner_w: u16, a: Area, b: Area, c: Area)
    requires
        parted(Direction::Horizontal, strip_constraints(corner_w), strip, seq![a, b, c]),
        in_reach(Direction::Horizontal, strip),
        2 * corner_w + 20 <= strip.width,
    ensures
        a == column(strip, 0, corner_w as int),
        b == column(strip, corner_w as int, strip.width - 2 * corner_w),
        c == column(strip, strip.width - corner_w, corner_w as int),
{
    let parts = seq![a, b, c];
    lemma_three(Direction::Horizontal, corner_w, 20, corner_w, strip, parts);
    assert(parts[0] == a && parts[1] == b && parts[2] == c);
}

/// The columns of the body.
proof fn lemma_columns(body: Area, a: Area, b: Area, c: Area)
    requires
        parted(
            Direction::Horizontal,
            seq![Constraint::Length(20), Constraint::Min(40), Constraint::Length(28)],
            body,
            seq![a, b, c],
        ),
        in_reach(Direction::Horizontal, body),
        88 <= body.width,
    ensures
        a == column(body, 0, 20),
        b == column(body, 20, body.width - 48),
        c == column(body, body.width - 28, 28),
{
    let parts = seq![a, b, c];
    lemma_three(Direction::Horizontal, 20, 40, 28, body, parts);
    assert(parts[0] == a && parts[1] == b && parts[2] == c);
}

/// The panes of a column, one above the other.
proof fn lemma_panes(column: Area, a: Constraint, b: Constraint, upper: Area, lower: Area)
    requires
        parted(Direction::Vertical, seq![a, b], column, seq![upper, lower]),
        in_reach(Direction::Vertical, column),
        settled(seq![a, b], column.height as int),
    ensures
        upper == band(column, 0, part_size(seq![a, b], 0, column.height as int)),
        lower == band(
            column,
            part_size(seq![a, b], 0, column.height as int),
            part_size(seq![a, b], 1, column.height as int),
        ),
{
    let parts = seq![upper, lower];
    let d = Direction::Vertical;
    assert(extent(d, parts[0]) == upper.height && start(d, parts[0]) == upper.y);
    assert(extent(d, parts[1]) == lower.height && start(d, parts[1]) == lower.y);
}

/// On a terminal with room for all that the panes ask for, their places are settled.
pub proof fn law_roomy_places(p: Places, area: Area, corner_w: u16, corner_h: u16)
    requires
        p.divide(area, corner_w, corner_h),
        roomy(area, corner_w, corner_h),
    ensures
        p == roomy_places(area, corner_w, corner_h),
{
    let want = roomy_places(area, corner_w, corner_h);
    law_strips_measure(p, area, corner_w, corner_h);
    lemma_strip(p.header, corner_w, p.header_left, p.header_mid, p.header_right);
    lemma_strip(p.footer, corner_w, p.footer_left, p.footer_mid, p.footer_right);
    lemma_columns(p.body, p.left, p.centre, p.right);
    reveal_with_fuel(asked_by, 3);
    lemma_panes(
        p.left,
        Constraint::Percentage(45),
        Constraint::Percentage(55),
        p.models,
        p.tool_log,
    );
    lemma_panes(p.centre, Constraint::Min(3), Constraint::Length(3), p.chat, p.input);
    lemma_panes(p.right, Constraint::Length(14), Constraint::Min(5), p.gauges, p.memory);
    let rows = p.rows();
    lemma_rows(interior(p.gauges), rows);
    assert(rows[0] == p.tg && rows[0] == want.tg);
    assert(rows[1] == p.pp && rows[1] == want.pp);
    assert(rows[2] == p.accept && rows[2] == want.accept);
    assert(rows[3] == p.mem && rows[3] == want.mem);
    assert(rows[4] == p.vram && rows[4] == want.vram);
    assert(rows[5] == p.cpu && rows[5] == want.cpu);
}

/// Divides an area into three parts.
fn split_three(
    direction: Direction,
    a: Constraint,
    b: Constraint,
    c: Constraint,
    area: Area,
) -> (r: (Area, Area, Area))
    ensures
        division(direction, seq![a, b, c], area, seq![r.0, r.1, r.2]),
        across(direction, r.0, area) && inside(direction, r.0, area),
        across(direction, r.1, area) && inside(direction, r.1, area),
        across(direction, r.2, area) && inside(direction, r.2, area),
{
    let mut wanted: Vec<Constraint> = Vec::new();
    wanted.push(a);
    wanted.push(b);
    wanted.push(c);
    assert(wanted@ =~= seq![a, b, c]);
    let parts: Vec<Area> = split_area(direction, &wanted, area);
    assert(parts@ =~= seq![parts@[0], parts@[1], parts@[2]]);
    (parts[0], parts[1], parts[2])
}

/// Divides an area into two parts, one above the other.
fn split_two(a: Constraint, b: Constraint, area: Area) -> (r: (Area, Area))
    ensures
        division(Direction::Vertical, seq![a, b], area, seq![r.0, r.1]),
        band_of(r.0, area),
        band_of(r.1, area),
{
    let mut wanted: Vec<Constraint> = Vec::new();
    wanted.push(a);
    wanted.push(b);
    assert(wanted@ =~= seq![a, b]);
    let parts: Vec<Area> = split_area(Direction::Vertical, &wanted, area);
    assert(parts@ =~= seq![parts@[0], parts@[1]]);
    assert(across(Direction::Vertical, parts@[0], area));
    assert(across(Direction::Vertical, parts@[1], area));
    (parts[0], parts[1])
}

/// Finds the places of the panes on a terminal of the given area, with corner
/// ornaments of the given size.
pub fn places(area: Area, corner_w: u16, corner_h: u16) -> (r: Places)
    requires
        corner_h < u16::MAX,
    ensures
        r.divide(area, corner_w, corner_h),
        r.aligned(area),
        roomy(area, corner_w, corner_h) ==> r == roomy_places(area, corner_w, corner_h),
{
    let edge: Constraint = Constraint::Length(corner_h + 1);
    let (header, body, footer) = split_three(
        Direction::Vertical,
        edge,
        Constraint::Min(10),
        edge,
        area,
    );
    let corner: Constraint = Constraint::Length(corner_w);
    let (header_left, header_mid, header_right) = split_three(
        Direction::Horizontal,
        corner,
        Constraint::Min(20),
        corner,
        header,
    );
    let (footer_left, footer_mid, footer_right) = split_three(
        Direction::Horizontal,
        corner,
        Constraint::Min(20),
        corner,
        footer,
    );
    let (left, centre, right) = split_three(
        Direction::Horizontal,
        Constraint::Length(20),
        Constraint::Min(40),
        Constraint::Length(28),
        body,
    );
    let (models, tool_log) = split_two(
        Constraint::Percentage(45),
        Constraint::Percentage(55),
        left,
    );
    let (chat, input) = split_two(Constraint::Min(3), Constraint::Length(3), centre);
    let (gauges, memory) = split_two(Constraint::Length(14), Constraint::Min(5), right);
    let row: Constraint = Constraint::Length(2);
    let mut rows: Vec<Constraint> = Vec::new();
    rows.push(row);
    rows.push(row);
    rows.push(row);
    rows.push(row);
    rows.push(row);
    rows.push(row);
    assert(rows@ =~= gauge_constraints());
    let dials: Vec<Area> = split_area(Direction::Vertical, &rows, inside_border(gauges));
    assert(dials@ =~= seq![dials@[0], dials@[1], dials@[2], dials@[3], dials@[4], dials@[5]]);
    let r: Places = Places {
        header,
        header_left,
        header_mid,
        header_right,
        body,
        left,
        models,
        tool_log,
        centre,
        chat,
        input,
        right,
        gauges,
        tg: dials[0],
        pp: dials[1],
        accept: dials[2],
        mem: dials[3],
        vram: dials[4],
        cpu: dials[5],
        memory,
        footer,
        footer_left,
        footer_mid,
        footer_right,
    };
    proof {
        if roomy(area, corner_w, corner_h) {
            law_roomy_places(r, area, corner_w, corner_h);
        }
    }
    r
}

/// What the panes ask for, in numbers: strips of a corner's height and a row, the body
/// between them with ten rows or more; columns of 20 and 28 cells with 40 or more
/// between them; 45 and 55 percent for models and tool log; three rows for the input
/// and three or more for the chat; fourteen rows for the gauges and five or more for
/// the memory; two rows for each gauge.
pub proof fn law_panes_ask(p: Places, area: Area, corner_w: u16, corner_h: u16)
    requires
        p.divide(area, corner_w, corner_h),
        corner_h < 65535,
    ensures
        ({
            let edge = Constraint::Length((corner_h + 1) as u16);
            let corner = Constraint::Length(corner_w);
            let row = Constraint::Length(2);
            let strip = seq![corner, Constraint::Min(20), corner];
            &&& divides(
                Direction::Vertical,
                seq![edge, Constraint::Min(10), edge],
                area,
                seq![p.header, p.body, p.footer],
            )
            &&& divides(
                Direction::Horizontal,
                strip,
                p.header,
                seq![p.header_left, p.header_mid, p.header_right],
            )
            &&& divides(
                Direction::Horizontal,
                strip,
                p.footer,
                seq![p.footer_left, p.footer_mid, p.footer_right],
            )
            &&& divides(
                Direction::Horizontal,
                seq![Constraint::Length(20), Constraint::Min(40), Constraint::Length(28)],
                p.body,
                seq![p.left, p.centre, p.right],
            )
            &&& divides(
                Direction::Vertical,
                seq![Constraint::Percentage(45), Constraint::Percentage(55)],
                p.left,
                seq![p.models, p.tool_log],
            )
            &&& divides(
                Direction::Vertical,
                seq![Constraint::Min(3), Constraint::Length(3)],
                p.centre,
                seq![p.chat, p.input],
            )
            &&& divides(
                Direction::Vertical,
                seq![Constraint::Length(14), Constraint::Min(5)],
                p.right,
                seq![p.gauges, p.memory],
            )
            &&& divides(
                Direction::Vertical,
                seq![row, row, row, row, row, row],
                interior(p.gauges),
                seq![p.tg, p.pp, p.accept, p.mem, p.vram, p.cpu],
            )
        }),
{
}

/// A border takes one cell on each side.
pub proof fn law_border_takes_cells(area: Area)
    requires
        area.x < 65535,
        area.y < 65535,
    ensures
        area.width >= 2 ==> interior(area).x == area.x + 1 && interior(area).width == area.width
            - 2,
        area.height >= 2 ==> interior(area).y == area.y + 1 && interior(area).height
            == area.height - 2,
        area.width < 2 ==> interior(area).width == 0,
        area.height < 2 ==> interior(area).height == 0,
{
}

/// Where the terminal has room for all the panes ask for, each row and each column of
/// cells belongs to the panes that it should: this is where each of them stands.
pub proof fn law_panes_measure(p: Places, area: Area, corner_w: u16, corner_h: u16)
    requires
        p.divide(area, corner_w, corner_h),
        area.x + area.width <= 65535,
        area.y + area.height <= 65535,
        area.width >= 88,
        area.width >= 2 * corner_w + 20,
        area.height >= 2 * corner_h + 21,
    ensures
        ({
            let edge = corner_h + 1;
            let top = area.y + edge;
            let high = area.height - 2 * edge;
            let wide = area.width - 48;
            let far = area.x + area.width - corner_w;
            let x = area.x;
            &&& p.header.x == x && p.body.x == x && p.footer.x == x
            &&& p.header.width == area.width && p.body.width == area.width
            &&& p.footer.width == area.width
            &&& p.header.y == area.y && p.header.height == edge
            &&& p.body.y == top && p.body.height == high
            &&& p.footer.y == top + high && p.footer.height == edge
            &&& p.header_left.x == x && p.header_left.width == corner_w
            &&& p.header_mid.x == x + corner_w
            &&& p.header_mid.width == area.width - 2 * corner_w
            &&& p.header_right.x == far && p.header_right.width == corner_w
            &&& p.footer_left.x == x && p.footer_left.width == corner_w
            &&& p.footer_mid.x == x + corner_w
            &&& p.footer_mid.width == area.width - 2 * corner_w
            &&& p.footer_right.x == far && p.footer_right.width == corner_w
            &&& p.left.x == x && p.left.width == 20
            &&& p.centre.x == x + 20 && p.centre.width == wide
            &&& p.right.x == x + 20 + wide && p.right.width == 28
            &&& p.models.x == x && p.models.width == 20 && p.models.y == top
            &&& 100 * p.models.height - 45 * high <= 50 && 45 * high - 100 * p.models.height < 50
            &&& p.tool_log.x == x && p.tool_log.width == 20
            &&& p.tool_log.y == top + p.models.height
            &&& p.models.height + p.tool_log.height == high
            &&& p.chat.x == x + 20 && p.chat.width == wide && p.chat.y == top
            &&& p.chat.height == high - 3
            &&& p.input.x == x + 20 && p.input.width == wide && p.input.y == top + high - 3
            &&& p.input.height == 3
            &&& p.gauges.x == x + 20 + wide && p.gauges.width == 28 && p.gauges.y == top
            &&& p.gauges.height == 14
            &&& p.memory.x == x + 20 + wide && p.memory.width == 28 && p.memory.y == top + 14
            &&& p.memory.height == high - 14
        }),
{
    law_roomy_places(p, area, corner_w, corner_h);
}

/// Where the terminal has room for all the panes ask for, the parts of a strip are as
/// high as it, the columns as high as the body, and the gauges stand one below the
/// other inside their border, two rows each.
pub proof fn law_gauges_measure(p: Places, area: Area, corner_w: u16, corner_h: u16)
    requires
        p.divide(area, corner_w, corner_h),
        area.x + area.width <= 65535,
        area.y + area.height <= 65535,
        area.width >= 88,
        area.width >= 2 * corner_w + 20,
        area.height >= 2 * corner_h + 21,
    ensures
        ({
            let edge = corner_h + 1;
            let top = area.y + edge;
            let high = area.height - 2 * edge;
            let x = area.x + area.width - 27;
            &&& p.header_left.y == area.y && p.header_left.height == edge
            &&& p.header_mid.y == area.y && p.header_mid.height == edge
            &&& p.header_right.y == area.y && p.header_right.height == edge
            &&& p.footer_left.y == top + high && p.footer_left.height == edge
            &&& p.footer_mid.y == top + high && p.footer_mid.height == edge
            &&& p.footer_right.y == top + high && p.footer_right.height == edge
            &&& p.left.y == top && p.left.height == high
            &&& p.centre.y == top && p.centre.height == high
            &&& p.right.y == top && p.right.height == high
            &&& p.tg == (Area { x: x as u16, y: (top + 1) as u16, width: 26, height: 2 })
            &&& p.pp == (Area { x: x as u16, y: (top + 3) as u16, width: 26, height: 2 })
            &&& p.accept == (Area { x: x as u16, y: (top + 5) as u16, width: 26, height: 2 })
            &&& p.mem == (Area { x: x as u16, y: (top + 7) as u16, width: 26, height: 2 })
            &&& p.vram == (Area { x: x as u16, y: (top + 9) as u16, width: 26, height: 2 })
            &&& p.cpu == (Area { x: x as u16, y: (top + 11) as u16, width: 26, height: 2 })
        }),
{
    law_roomy_places(p, area, corner_w, corner_h);
}

/// No pane reaches beyond the terminal, however small it is.
pub proof fn law_panes_stay_inside(p: Places, area: Area)
    requires
        p.aligned(area),
    ensures
        ({
            let panes = seq![
                p.header,
                p.header_left,
                p.header_mid,
                p.header_right,
                p.body,
                p.left,
                p.models,
                p.tool_log,
                p.centre,
                p.chat,
                p.input,
                p.right,
                p.gauges,
                p.memory,
                p.footer,
                p.footer_left,
                p.footer_mid,
                p.footer_right,
            ];
            forall|i: int|
                #![trigger panes[i]]
                0 <= i < panes.len() ==> area.x <= panes[i].x && panes[i].x + panes[i].width
                    <= area.x + area.width && area.y <= panes[i].y && panes[i].y + panes[i].height
                    <= area.y + area.height
        }),
{
}

/// The settled places are found exactly where there is room for what the panes ask for.
pub proof fn law_roomy_in_numbers(area: Area, corner_w: u16, corner_h: u16)
    ensures
        roomy(area, corner_w, corner_h) <==> area.x + area.width <= 65535 && area.y + area.height
            <= 65535 && area.width >= 88 && area.width >= 2 * corner_w + 20 && area.height >= 2
            * corner_h + 21,
{
}

} // verus!
