use vstd::prelude::*;
use ratatui::layout::{Constraint as TuiConstraint, Direction, Layout, Rect as TuiRect};

use crate::text::{lemma_two_pow_small, round_half_even, round_half_even_u128, significand_shift, two_pow};

verus! {

/// A rectangle of terminal cells.
#[derive(Debug, Clone, Copy, PartialEq, Eq, Structural)]
pub struct Rect {
    pub x: u16,
    pub y: u16,
    pub width: u16,
    pub height: u16,
}

/// How much of an area one part of a split asks for.
#[derive(Debug, Clone, Copy, PartialEq, Eq, Structural)]
pub enum Constraint {
    /// At least this many cells.
    Min(u16),
    /// Exactly this many cells.
    Length(u16),
    /// This percentage of the area.
    Percentage(u16),
}

/// The direction in which an area is split.
#[derive(Debug, Clone, Copy, PartialEq, Eq, Structural)]
pub enum Axis {
    /// Parts stacked top to bottom.
    Vertical,
    /// Parts side by side, left to right.
    Horizontal,
}

/// `a + b`, or 65535 when that is larger.
pub open spec fn add_sat(a: u16, b: u16) -> u16 {
    if a + b > u16::MAX {
        u16::MAX
    } else {
        (a + b) as u16
    }
}

/// `a - b`, or zero when `b` is larger.
pub open spec fn sub_sat(a: u16, b: u16) -> u16 {
    if a >= b {
        (a - b) as u16
    } else {
        0
    }
}

/// The area inside a one-cell border around `area`.
pub open spec fn inner_rect(area: Rect) -> Rect {
    let right = add_sat(area.x, area.width);
    let bottom = add_sat(area.y, area.height);
    Rect {
        x: if add_sat(area.x, 1) < right { add_sat(area.x, 1) } else { right },
        y: if add_sat(area.y, 1) < bottom { add_sat(area.y, 1) } else { bottom },
        width: sub_sat(sub_sat(area.width, 1), 1),
        height: sub_sat(sub_sat(area.height, 1), 1),
    }
}

/// `ratatui::widgets::Block::inner` for a block with borders on all four
/// sides and no padding: the border takes one cell on each side (less when
/// the area is smaller), as the crate's source computes it.
#[verifier::external_body]
fn bordered_inner(area: Rect) -> (r: Rect)
    ensures
        r == inner_rect(area),
{
    let outer = TuiRect { x: area.x, y: area.y, width: area.width, height: area.height };
    let inner = ratatui::widgets::Block::bordered().inner(outer);
    Rect { x: inner.x, y: inner.y, width: inner.width, height: inner.height }
}

/// `start..start + size` lies inside `outer_start..outer_start + outer_size`
/// (the end saturating at 65535, as ratatui's `Rect::right` and `bottom` do).
pub open spec fn within_span(start: u16, size: u16, outer_start: u16, outer_size: u16) -> bool {
    outer_start <= start && start + size <= add_sat(outer_start, outer_size)
}

/// Where a part starts along `axis`, and how long it is along it.
pub open spec fn start_along(axis: Axis, r: Rect) -> u16 {
    match axis {
        Axis::Vertical => r.y,
        Axis::Horizontal => r.x,
    }
}

/// How long a part is along `axis`.
pub open spec fn size_along(axis: Axis, r: Rect) -> u16 {
    match axis {
        Axis::Vertical => r.height,
        Axis::Horizontal => r.width,
    }
}

/// What every split of `area` by `constraints` along `axis` gives: one part
/// per constraint, each keeping the area's extent across the split and lying
/// inside the area along it; the first part starts where the area starts
/// and each further part starts where the one before it ends.
pub open spec fn split_fits(axis: Axis, constraints: Seq<Constraint>, area: Rect, parts: Seq<Rect>) -> bool {
    &&& parts.len() == constraints.len()
    &&& forall|i: int|
        0 <= i < parts.len() ==> match axis {
            Axis::Vertical => (#[trigger] parts[i]).x == area.x && parts[i].width == area.width
                && within_span(parts[i].y, parts[i].height, area.y, area.height),
            Axis::Horizontal => parts[i].y == area.y && parts[i].height == area.height
                && within_span(parts[i].x, parts[i].width, area.x, area.width),
        }
    &&& parts.len() > 0 ==> start_along(axis, parts[0]) == start_along(axis, area)
    &&& forall|i: int|
        0 < i < parts.len() ==> start_along(axis, #[trigger] parts[i]) == start_along(axis, parts[i - 1])
            + size_along(axis, parts[i - 1])
}

/// `ratatui::layout::Layout::split` with the default margin (none), spacing
/// (none) and flex (`Start`): the parts of `area` that the constraints ask
/// for, one per constraint. The crate's solver requires every segment
/// boundary to lie between the area's start and end and each segment's end
/// not to come before its start; so, after rounding, each part keeps the
/// area's extent across the split and lies inside the area along it. Under
/// `Start` the first spacer is held empty at strength `REQUIRED - 1` and the
/// spacers between parts at zero at `REQUIRED / 10`, both above the weight
/// any size constraint can gain per cell (`MIN_SIZE_GE`, `STRONG * 100`, plus
/// far weaker growth terms); so the solver's optimum puts the first part at
/// the area's start and each part where the previous one ends. How long each
/// part is, and so whether the last reaches the area's end, is left unsaid:
/// the size constraints are preferences the solver weighs, in floating
/// point, against each other.
#[verifier::external_body]
fn split_area(axis: Axis, constraints: &Vec<Constraint>, area: Rect) -> (parts: Vec<Rect>)
    ensures
        split_fits(axis, constraints@, area, parts@),
{
    let direction = match axis {
        Axis::Vertical => Direction::Vertical,
        Axis::Horizontal => Direction::Horizontal,
    };
    let list: Vec<TuiConstraint> = constraints.iter().map(|c| match *c {
        Constraint::Min(v) => TuiConstraint::Min(v),
        Constraint::Length(v) => TuiConstraint::Length(v),
        Constraint::Percentage(v) => TuiConstraint::Percentage(v),
    }).collect();
    let whole = TuiRect { x: area.x, y: area.y, width: area.width, height: area.height };
    let parts = Layout::default().direction(direction).constraints(list).split(whole);
    parts.iter().map(|r| Rect { x: r.x, y: r.y, width: r.width, height: r.height }).collect()
}

/// The area inside the border of a panel drawn over `area`.
pub fn panel_inner(area: Rect) -> (r: Rect)
    ensures
        r == inner_rect(area),
{
    bordered_inner(area)
}

/// The three panels of the screen.
#[derive(Debug, Clone, Copy, PartialEq, Eq, Structural)]
pub struct ScreenAreas {
    pub cpu: Rect,
    pub memory: Rect,
    pub processes: Rect,
}

/// Two equal halves.
pub open spec fn halves_spec() -> Seq<Constraint> {
    seq![Constraint::Percentage(50), Constraint::Percentage(50)]
}

/// The constraints that split the screen, and then its lower half, in two.
pub fn halves() -> (r: Vec<Constraint>)
    ensures
        r@ == halves_spec(),
{
    let r = vec![Constraint::Percentage(50), Constraint::Percentage(50)];
    assert(r@ =~= halves_spec());
    r
}

/// The panels given the two rows of the screen and the two sides of its
/// lower row: the CPU panel in the first row, memory and processes in the
/// sides of the second.
pub open spec fn screen_layout(rows: Seq<Rect>, sides: Seq<Rect>) -> ScreenAreas {
    ScreenAreas { cpu: rows[0], memory: sides[0], processes: sides[1] }
}

/// The panels of a screen covering `area`: the screen is split into two
/// rows by `halves`, the CPU panel takes the first, and the second is split
/// by `halves` into the memory graph and the process list.
pub fn screen_areas(area: Rect) -> (r: ScreenAreas)
    ensures
        exists|rows: Seq<Rect>, sides: Seq<Rect>|
            #![trigger split_fits(Axis::Vertical, halves_spec(), area, rows), split_fits(Axis::Horizontal, halves_spec(), rows[1], sides)]
            split_fits(Axis::Vertical, halves_spec(), area, rows) && split_fits(
                Axis::Horizontal,
                halves_spec(),
                rows[1],
                sides,
            ) && r == screen_layout(rows, sides),
        r.cpu.x == area.x && r.cpu.width == area.width && within_span(r.cpu.y, r.cpu.height, area.y, area.height),
        r.memory.y == r.processes.y && r.memory.height == r.processes.height,
        within_span(r.memory.y, r.memory.height, area.y, area.height),
        within_span(r.memory.x, r.memory.width, area.x, area.width),
        within_span(r.processes.x, r.processes.width, area.x, area.width),
        r.cpu.y == area.y,
        r.memory.y == r.cpu.y + r.cpu.height,
        r.memory.x == area.x,
        r.processes.x == r.memory.x + r.memory.width,
{
    let rows = split_area(Axis::Vertical, &halves(), area);
    let cpu = rows[0];
    let bottom = rows[1];
    let sides = split_area(Axis::Horizontal, &halves(), bottom);
    let r = ScreenAreas { cpu, memory: sides[0], processes: sides[1] };
    assert(split_fits(Axis::Vertical, halves_spec(), area, rows@));
    assert(split_fits(Axis::Horizontal, halves_spec(), rows@[1], sides@));
    assert(r == screen_layout(rows@, sides@));
    r
}

/// The graph area inside a graph panel over `area`; none when it is less
/// than two lines high or eight cells wide.
pub fn graph_area(area: Rect) -> (r: Option<Rect>)
    ensures
        r == (if inner_rect(area).height < 2 || inner_rect(area).width < 8 {
            None
        } else {
            Some(inner_rect(area))
        }),
{
    let inner = bordered_inner(area);
    if inner.height < 2 || inner.width < 8 {
        None
    } else {
        Some(inner)
    }
}

/// The list area inside the process panel over `area`; none when it has no
/// line or is narrower than twelve cells.
pub fn process_area(area: Rect) -> (r: Option<Rect>)
    ensures
        r == (if inner_rect(area).height < 1 || inner_rect(area).width < 12 {
            None
        } else {
            Some(inner_rect(area))
        }),
{
    let inner = bordered_inner(area);
    if inner.height < 1 || inner.width < 12 {
        None
    } else {
        Some(inner)
    }
}

/// Width of the core box for a CPU panel whose inside is `inner_width`
/// cells wide: the width, kept between 22 and 44.
pub open spec fn core_box_width_for(inner_width: u16) -> u16 {
    if inner_width < 22 {
        22
    } else if inner_width > 44 {
        44
    } else {
        inner_width
    }
}

/// `0.72` as an `f32`: `12079596 / 2^24`.
pub open spec fn f32_point_72_numerator() -> nat {
    12079596
}

/// `h * 0.72` computed in `f32` and truncated to an integer, as
/// `((h as f32) * 0.72) as u16` computes it for `h` below `2^16`: the exact
/// product is rounded to 24 significant bits, ties to even.
pub open spec fn scaled_72(h: nat) -> nat {
    let n = h * f32_point_72_numerator();
    let p = two_pow(significand_shift(n, 24, 0));
    (round_half_even(n, p) * p) / two_pow(24)
}

/// Lines the core box takes in a column `height` lines high: 72% of it
/// from twelve lines on, two lines less from eight on, all of it below
/// that; at least five and at most `height`.
pub open spec fn core_box_lines_for(height: u16) -> nat {
    let h = height as nat;
    let want: nat = if h >= 12 {
        scaled_72(h)
    } else if h >= 8 {
        (h - 2) as nat
    } else {
        h
    };
    let want = if want < 5 { 5 } else { want };
    if want > h { h } else { want }
}

/// `((h as f32) * 0.72) as u16`, computed exactly in integers.
fn scale_72(h: u16) -> (r: u16)
    ensures
        r == scaled_72(h as nat),
{
    proof {
        lemma_two_pow_small();
    }
    let n: u64 = h as u64 * 12079596;
    let mut k: u64 = 0;
    let mut p: u64 = 1;
    while k < 64 && n / p >= 0x100_0000
        invariant
            k <= 64,
            p == two_pow(k as nat),
            1 <= p <= 0x20_0000,
            n == h as nat * f32_point_72_numerator(),
            n <= 0xFFFF * 12079596,
            two_pow(24) == 0x100_0000,
            significand_shift(n as nat, 24, 0) == significand_shift(n as nat, 24, k as nat),
        decreases 64 - k,
    {
        assert(p < 0x10_0000) by (nonlinear_arith)
            requires
                n / p >= 0x100_0000,
                n <= 0xFFFF * 12079596,
                p >= 1,
        {
            if p >= 0x10_0000 {
                assert(n / p <= n / 0x10_0000) by {
                    vstd::arithmetic::div_mod::lemma_div_is_ordered_by_denominator(n as int, 0x10_0000, p as int);
                }
            }
        }
        k = k + 1;
        p = p * 2;
    }
    let q = n / p;
    let rounded = round_half_even_u128(n as u128, p as u128);
    assert(q * p <= n) by (nonlinear_arith)
        requires
            q == n / p,
            p >= 1,
    {
        vstd::arithmetic::div_mod::lemma_fundamental_div_mod(n as int, p as int);
    }
    assert(rounded * p <= n + p) by (nonlinear_arith)
        requires
            rounded <= q + 1,
            q * p <= n,
            p >= 1,
    {}
    let scaled = rounded * p as u128;
    let r = scaled / 0x100_0000;
    assert(r <= 0xFFFF);
    r as u16
}

/// The lines of the core box in a column `height` lines high.
pub fn core_box_height(height: u16) -> (r: u16)
    ensures
        r == core_box_lines_for(height),
{
    let want = if height >= 12 {
        scale_72(height)
    } else if height >= 8 {
        height - 2
    } else {
        height
    };
    let want = if want < 5 {
        5
    } else {
        want
    };
    if want > height {
        height
    } else {
        want
    }
}

/// Where the parts of the CPU panel go.
#[derive(Debug, Clone, Copy, PartialEq, Eq, Structural)]
pub struct CpuPanelAreas {
    /// The graph that grows up from the centre line.
    pub upper_graph: Rect,
    /// The line with the temperature and load figures.
    pub center_line: Rect,
    /// The graph that grows down from the centre line.
    pub lower_graph: Rect,
    /// The bordered box of the core bars.
    pub core_box: Rect,
    /// The inside of the core box.
    pub cores: Rect,
}

/// The columns of a CPU panel whose inside is `inner_width` cells wide: the
/// graphs take at least ten cells, the core box `core_box_width_for` cells.
pub open spec fn cpu_columns_spec(inner_width: u16) -> Seq<Constraint> {
    seq![Constraint::Min(10), Constraint::Length(core_box_width_for(inner_width))]
}

/// The rows of the graph column: the upper graph, the one-line centre line
/// and the lower graph.
pub open spec fn graph_rows_spec() -> Seq<Constraint> {
    seq![Constraint::Min(1), Constraint::Length(1), Constraint::Min(1)]
}

/// The lines above the core box in a column `height` lines high: half of
/// what the box leaves free, rounded down.
pub open spec fn core_box_pad(height: u16) -> nat {
    ((height - core_box_lines_for(height)) as nat) / 2
}

/// The rows of the core-box column `height` lines high: the padding above,
/// the box, and what is left below.
pub open spec fn core_box_rows_spec(height: u16) -> Seq<Constraint> {
    seq![
        Constraint::Length(core_box_pad(height) as u16),
        Constraint::Length(core_box_lines_for(height) as u16),
        Constraint::Min(0),
    ]
}

/// The constraints of the two columns of a CPU panel `inner_width` wide.
pub fn cpu_columns(inner_width: u16) -> (r: Vec<Constraint>)
    ensures
        r@ == cpu_columns_spec(inner_width),
{
    let box_width = if inner_width < 22 {
        22
    } else if inner_width > 44 {
        44
    } else {
        inner_width
    };
    let r = vec![Constraint::Min(10), Constraint::Length(box_width)];
    assert(r@ =~= cpu_columns_spec(inner_width));
    r
}

/// The constraints of the rows of the graph column.
pub fn graph_rows() -> (r: Vec<Constraint>)
    ensures
        r@ == graph_rows_spec(),
{
    let r = vec![Constraint::Min(1), Constraint::Length(1), Constraint::Min(1)];
    assert(r@ =~= graph_rows_spec());
    r
}

/// The constraints of the rows of a core-box column `height` lines high.
pub fn core_box_rows(height: u16) -> (r: Vec<Constraint>)
    ensures
        r@ == core_box_rows_spec(height),
{
    let box_height = core_box_height(height);
    let top_pad = (height - box_height) / 2;
    let r = vec![Constraint::Length(top_pad), Constraint::Length(box_height), Constraint::Min(0)];
    assert(r@ =~= core_box_rows_spec(height));
    r
}

/// The parts of a CPU panel given the rows of its graph column and of its
/// core-box column: the three graph rows in order, the box in the middle
/// row of the box column, and the inside of the box.
pub open spec fn cpu_panel_layout(graphs: Seq<Rect>, box_rows: Seq<Rect>) -> CpuPanelAreas {
    CpuPanelAreas {
        upper_graph: graphs[0],
        center_line: graphs[1],
        lower_graph: graphs[2],
        core_box: box_rows[1],
        cores: inner_rect(box_rows[1]),
    }
}

/// The parts of a CPU panel drawn over `area`; none when its inside is less
/// than six lines high or 24 cells wide. The inside is split into columns
/// by `cpu_columns`; the first column into the graph rows by `graph_rows`,
/// the second into the rows around the core box by `core_box_rows`.
pub fn cpu_panel_areas(area: Rect) -> (r: Option<CpuPanelAreas>)
    ensures
        r is None <==> (inner_rect(area).height < 6 || inner_rect(area).width < 24),
        r matches Some(a) ==> exists|columns: Seq<Rect>, graphs: Seq<Rect>, box_rows: Seq<Rect>|
            #![trigger split_fits(Axis::Horizontal, cpu_columns_spec(inner_rect(area).width), inner_rect(area), columns), split_fits(Axis::Vertical, graph_rows_spec(), columns[0], graphs), split_fits(Axis::Vertical, core_box_rows_spec(columns[1].height), columns[1], box_rows)]
            split_fits(Axis::Horizontal, cpu_columns_spec(inner_rect(area).width), inner_rect(area), columns)
                && split_fits(Axis::Vertical, graph_rows_spec(), columns[0], graphs) && split_fits(
                Axis::Vertical,
                core_box_rows_spec(columns[1].height),
                columns[1],
                box_rows,
            ) && a == cpu_panel_layout(graphs, box_rows),
        r matches Some(a) ==> a.cores == inner_rect(a.core_box),
        r matches Some(a) ==> a.upper_graph.x == a.center_line.x && a.center_line.x == a.lower_graph.x
            && a.upper_graph.width == a.center_line.width && a.center_line.width == a.lower_graph.width,
        r matches Some(a) ==> within_span(a.upper_graph.x, a.upper_graph.width, inner_rect(area).x, inner_rect(area).width)
            && within_span(a.core_box.x, a.core_box.width, inner_rect(area).x, inner_rect(area).width),
        r matches Some(a) ==> within_span(a.upper_graph.y, a.upper_graph.height, inner_rect(area).y, inner_rect(area).height)
            && within_span(a.center_line.y, a.center_line.height, inner_rect(area).y, inner_rect(area).height)
            && within_span(a.lower_graph.y, a.lower_graph.height, inner_rect(area).y, inner_rect(area).height)
            && within_span(a.core_box.y, a.core_box.height, inner_rect(area).y, inner_rect(area).height),
        r matches Some(a) ==> a.upper_graph.x == inner_rect(area).x && a.core_box.x == a.upper_graph.x
            + a.upper_graph.width,
        r matches Some(a) ==> a.upper_graph.y == inner_rect(area).y && a.center_line.y == a.upper_graph.y
            + a.upper_graph.height && a.lower_graph.y == a.center_line.y + a.center_line.height,
        r matches Some(a) ==> a.core_box.y >= inner_rect(area).y,
{
    let inner = bordered_inner(area);
    if inner.height < 6 || inner.width < 24 {
        return None;
    }
    let columns = split_area(Axis::Horizontal, &cpu_columns(inner.width), inner);
    let left = columns[0];
    let right = columns[1];
    let graph_split = split_area(Axis::Vertical, &graph_rows(), left);
    let right_split = split_area(Axis::Vertical, &core_box_rows(right.height), right);
    let core_box = right_split[1];
    let a = CpuPanelAreas {
        upper_graph: graph_split[0],
        center_line: graph_split[1],
        lower_graph: graph_split[2],
        core_box,
        cores: bordered_inner(core_box),
    };
    assert(split_fits(Axis::Horizontal, cpu_columns_spec(inner.width), inner, columns@));
    assert(split_fits(Axis::Vertical, graph_rows_spec(), columns@[0], graph_split@));
    assert(split_fits(Axis::Vertical, core_box_rows_spec(columns@[1].height), columns@[1], right_split@));
    assert(a == cpu_panel_layout(graph_split@, right_split@));
    Some(a)
}

} // verus!
