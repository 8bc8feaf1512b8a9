//! Painting graph rows into a buffer.
//!
//! Every write stays in `area`. This runs on the thread that paints every
//! session, so a write outside the buffer would take them all down at once.
use crate::geometry;
use crate::geometry::Rect;
use crate::git::graph::{CellType, GraphNode};
use crate::git::refs;
use crate::git::refs::{refs_at, Decorated, RefInfo, RefKind};
use crate::screen;
use crate::screen::{put, text_width, write_cell, Cells};
use crate::style;
use crate::style::{Color, Style, BOLD, REVERSED};
use crate::text;
use crate::ui::colors;
use crate::ui::colors::lane_color;
use ratatui::buffer::Buffer;
use vstd::prelude::*;
use vstd::string::*;

verus! {

/// Columns between the graph and the summary text.
pub const GAP: u16 = 1;

/// Width of the abbreviated hash column on the right, plus its leading space.
pub const HASH_W: u16 = 8;

/// The glyph for a cell.
pub open spec fn glyph(cell: CellType) -> char {
    match cell {
        CellType::Empty => ' ',
        CellType::Pipe(_) => '│',
        CellType::Commit(_) => '●',
        CellType::BranchRight(_) => '╭',
        CellType::BranchLeft(_) => '╮',
        CellType::MergeLeft(_) => '╯',
        CellType::Horizontal(_) => '─',
        CellType::HorizontalPipe(_, _) => '┼',
        CellType::TeeRight(_) => '├',
        CellType::TeeLeft(_) => '┤',
        CellType::TeeDown(_, _) => '┬',
        CellType::TeeUp(_, _) => '┴',
    }
}

/// The glyph for a cell. Every one of them takes a single column.
pub fn cell_glyph(cell: CellType) -> (r: char)
    ensures
        r == glyph(cell),
{
    match cell {
        CellType::Empty => ' ',
        CellType::Pipe(_) => '│',
        CellType::Commit(_) => '●',
        CellType::BranchRight(_) => '╭',
        CellType::BranchLeft(_) => '╮',
        CellType::MergeLeft(_) => '╯',
        CellType::Horizontal(_) => '─',
        CellType::HorizontalPipe(_, _) => '┼',
        CellType::TeeRight(_) => '├',
        CellType::TeeLeft(_) => '┤',
        CellType::TeeDown(_, _) => '┬',
        CellType::TeeUp(_, _) => '┴',
    }
}

/// The colour a cell paints in. Where a run passes through, the run wins the
/// colour: it is the edge being followed.
pub open spec fn hue(cell: CellType) -> Color {
    match cell {
        CellType::Empty => Color::Reset,
        CellType::Pipe(c) => colors::lane_hue(c),
        CellType::Commit(c) => colors::lane_hue(c),
        CellType::BranchRight(c) => colors::lane_hue(c),
        CellType::BranchLeft(c) => colors::lane_hue(c),
        CellType::MergeLeft(c) => colors::lane_hue(c),
        CellType::Horizontal(c) => colors::lane_hue(c),
        CellType::HorizontalPipe(run, _) => colors::lane_hue(run),
        CellType::TeeRight(c) => colors::lane_hue(c),
        CellType::TeeLeft(c) => colors::lane_hue(c),
        CellType::TeeDown(run, _) => colors::lane_hue(run),
        CellType::TeeUp(run, _) => colors::lane_hue(run),
    }
}

fn cell_color(cell: CellType) -> (r: Color)
    ensures
        r == hue(cell),
{
    match cell {
        CellType::Empty => Color::Reset,
        CellType::Pipe(c) => lane_color(c),
        CellType::Commit(c) => lane_color(c),
        CellType::BranchRight(c) => lane_color(c),
        CellType::BranchLeft(c) => lane_color(c),
        CellType::MergeLeft(c) => lane_color(c),
        CellType::Horizontal(c) => lane_color(c),
        CellType::HorizontalPipe(run, _) => lane_color(run),
        CellType::TeeRight(c) => lane_color(c),
        CellType::TeeLeft(c) => lane_color(c),
        CellType::TeeDown(run, _) => lane_color(run),
        CellType::TeeUp(run, _) => lane_color(run),
    }
}

/// The `o`/`t` toggles.
#[derive(Debug, Clone, Copy, PartialEq, Eq, Structural)]
pub struct RefToggles {
    pub show_remotes: bool,
    pub show_tags: bool,
}

/// One decoration: `[main]` for a branch, `(v1.2)` for a tag.
pub open spec fn label(r: RefInfo) -> Seq<char> {
    match r.kind {
        RefKind::Tag => "("@ + r.name@ + ") "@,
        _ => "["@ + r.name@ + "] "@,
    }
}

/// The decorations of one commit that survive the toggles.
pub open spec fn labels(refs: Seq<RefInfo>, toggles: RefToggles) -> Seq<char>
    decreases refs.len(),
{
    if refs.len() == 0 {
        Seq::empty()
    } else {
        let rest = labels(refs.drop_last(), toggles);
        if refs.last().kind.shown(toggles.show_remotes, toggles.show_tags) {
            rest + label(refs.last())
        } else {
            rest
        }
    }
}

fn decoration_text(refs: &Vec<RefInfo>, toggles: RefToggles) -> (r: String)
    ensures
        r@ == labels(refs@, toggles),
{
    let mut out = String::new();
    let mut i: usize = 0;
    assert(refs@.take(0) =~= Seq::empty());
    while i < refs.len()
        invariant
            i <= refs.len(),
            out@ == labels(refs@.take(i as int), toggles),
        decreases refs.len() - i,
    {
        assert(refs@.take(i + 1).drop_last() =~= refs@.take(i as int));
        let r = &refs[i];
        if r.kind.visible(toggles.show_remotes, toggles.show_tags) {
            let piece = match r.kind {
                RefKind::Tag => text::join3("(", r.name.as_str(), ") "),
                _ => text::join3("[", r.name.as_str(), "] "),
            };
            out.append(piece.as_str());
        }
        i += 1;
    }
    assert(refs@.take(i as int) =~= refs@);
    out
}

/// The cells once a centred line was drawn.
pub open spec fn message_cells(cells: Cells, area: Rect, msg: Seq<char>) -> Cells {
    if area.is_blank() {
        cells
    } else {
        let spare = geometry::most(area.width - (screen::text_columns(msg) as u16), 0);
        screen::put_cells(
            cells,
            area,
            (area.x + spare / 2) as u16,
            (area.y + area.height / 2) as u16,
            msg,
            style::plain().with_fg(Color::DarkGray),
        )
    }
}

/// One centred line, for "no commits yet" and read failures.
pub fn draw_message(buf: &mut Buffer, area: Rect, msg: &str)
    requires
        screen::drawable(area, screen::buffer_area(*old(buf))),
        area.y + area.height <= 65535,
    ensures
        screen::buffer_area(*final(buf)) == screen::buffer_area(*old(buf)),
        screen::buffer_cells(*final(buf)) == message_cells(
            screen::buffer_cells(*old(buf)),
            area,
            msg@,
        ),
        screen::same_outside(
            screen::buffer_cells(*old(buf)),
            screen::buffer_cells(*final(buf)),
            area,
        ),
{
    if area.is_empty() {
        proof {
            reveal(screen::same_outside);
        }
        return ;
    }
    let y: u16 = area.y + area.height / 2;
    let width: u16 = text_width(msg) as u16;
    let x: u16 = area.x + area.width.saturating_sub(width) / 2;
    put(buf, area, x, y, msg, Style::default().fg(Color::DarkGray));
}

/// The style of a row: reversed where it is the selected one.
pub open spec fn base_style(selected: bool) -> Style {
    if selected {
        style::plain().with_modifier(REVERSED)
    } else {
        style::plain()
    }
}

/// The cells once the first `n` graph cells of a row were drawn.
pub open spec fn lane_cells(
    cells: Cells,
    area: Rect,
    y: u16,
    row: Seq<CellType>,
    n: nat,
    base: Style,
) -> Cells
    decreases n,
{
    if n == 0 {
        cells
    } else {
        let before = lane_cells(cells, area, y, row, (n - 1) as nat, base);
        let at = ((area.x + n - 1) as u16, y);
        before.insert(
            at,
            screen::written(before[at], glyph(row[n - 1]), base.with_fg(hue(row[n - 1]))),
        )
    }
}

/// Where the text of a row starts.
pub open spec fn text_start(area: Rect, graph_w: int) -> u16 {
    geometry::sat16(geometry::sat16(area.x as int, graph_w), GAP as int) as u16
}

/// What is left of `area` for summaries.
pub open spec fn summary_area(area: Rect) -> Rect {
    Rect { width: geometry::most(area.width - HASH_W, 0) as u16, ..area }
}

/// The cells once one row was drawn: its lanes, then the label of the
/// uncommitted changes, or the decorations, the summary and the short hash of
/// its commit.
pub open spec fn row_painted(
    cells: Cells,
    area: Rect,
    y: u16,
    node: GraphNode,
    decorations: Seq<Decorated>,
    toggles: RefToggles,
    graph_w: int,
    selected: bool,
) -> Cells {
    let base = base_style(selected);
    let lanes = lane_cells(
        cells,
        area,
        y,
        node.cells@,
        geometry::least(node.cells@.len() as int, graph_w) as nat,
        base,
    );
    let x = text_start(area, graph_w);
    match node.commit {
        None => match node.uncommitted {
            None => lanes,
            Some(count) => screen::put_cells(
                lanes,
                area,
                x,
                y,
                text::decimal_text(count as nat) + " uncommitted changes"@,
                base,
            ),
        },
        Some(c) => {
            let deco = labels(refs::refs_of(decorations, c.id), toggles);
            let bright = base.with_fg(colors::lane_hue(node.color_index)).with_modifier(BOLD);
            let labelled = screen::put_cells(lanes, area, x, y, deco, bright);
            let next = screen::put_end(lanes, area, x, y, deco, bright);
            let named = screen::put_cells(labelled, summary_area(area), next, y, c.summary@, base);
            screen::put_cells(
                named,
                area,
                geometry::most(area.end_x() - (HASH_W - 1), area.x as int) as u16,
                y,
                c.id.text().take(7),
                base.with_fg(Color::DarkGray),
            )
        },
    }
}

/// The widest of the rows `from..to`.
pub open spec fn widest(nodes: Seq<GraphNode>, from: int, to: int) -> nat
    decreases to - from,
{
    if to <= from {
        0
    } else {
        let rest = widest(nodes, from, to - 1);
        let here = nodes[to - 1].cells@.len();
        if here > rest {
            here
        } else {
            rest
        }
    }
}

/// How many rows of `nodes` there is room for, from `first_row` on.
pub open spec fn visible_rows(nodes: int, first_row: int, height: int) -> int {
    geometry::least(geometry::most(nodes - first_row, 0), height)
}

/// The columns the graph takes: as many as the widest visible row, and no more
/// than a third of the area.
pub open spec fn graph_columns(nodes: Seq<GraphNode>, area: Rect, first_row: int) -> int {
    let n = visible_rows(nodes.len() as int, first_row, area.height as int);
    geometry::least(widest(nodes, first_row, first_row + n) as int, (area.width / 3) as int)
}

/// The cells once the first `n` visible rows were drawn.
pub open spec fn rows_painted(
    cells: Cells,
    area: Rect,
    nodes: Seq<GraphNode>,
    decorations: Seq<Decorated>,
    toggles: RefToggles,
    first_row: int,
    selected: int,
    n: int,
) -> Cells
    decreases n,
{
    if n <= 0 {
        cells
    } else {
        row_painted(
            rows_painted(
                cells,
                area,
                nodes,
                decorations,
                toggles,
                first_row,
                selected,
                n - 1,
            ),
            area,
            (area.y + n - 1) as u16,
            nodes[first_row + n - 1],
            decorations,
            toggles,
            graph_columns(nodes, area, first_row),
            first_row + n - 1 == selected,
        )
    }
}

/// The cells once the visible rows were drawn.
pub open spec fn graph_painted(
    cells: Cells,
    area: Rect,
    nodes: Seq<GraphNode>,
    decorations: Seq<Decorated>,
    toggles: RefToggles,
    first_row: int,
    selected: int,
) -> Cells {
    if area.is_blank() {
        cells
    } else {
        rows_painted(
            cells,
            area,
            nodes,
            decorations,
            toggles,
            first_row,
            selected,
            visible_rows(nodes.len() as int, first_row, area.end_y() - area.y),
        )
    }
}

/// Draws one row.
fn draw_row(
    buf: &mut Buffer,
    area: Rect,
    y: u16,
    node: &GraphNode,
    decorations: &Vec<Decorated>,
    toggles: RefToggles,
    graph_w: u16,
    selected: bool,
)
    requires
        screen::drawable(area, screen::buffer_area(*old(buf))),
        area.y <= y < area.end_y(),
        graph_w <= area.width,
    ensures
        screen::buffer_area(*final(buf)) == screen::buffer_area(*old(buf)),
        screen::buffer_cells(*final(buf)) == row_painted(
            screen::buffer_cells(*old(buf)),
            area,
            y,
            *node,
            decorations@,
            toggles,
            graph_w as int,
            selected,
        ),
        screen::same_outside(
            screen::buffer_cells(*old(buf)),
            screen::buffer_cells(*final(buf)),
            area,
        ),
{
    let ghost c0 = screen::buffer_cells(*buf);
    let base = if selected {
        Style::default().add_modifier(REVERSED)
    } else {
        Style::default()
    };
    let n: usize = if node.cells.len() <= graph_w as usize {
        node.cells.len()
    } else {
        graph_w as usize
    };
    let mut col: usize = 0;
    proof {
        reveal(screen::same_outside);
    }
    while col < n
        invariant
            col <= n,
            n <= graph_w,
            n <= node.cells.len(),
            graph_w <= area.width,
            base == base_style(selected),
            screen::drawable(area, screen::buffer_area(*old(buf))),
            screen::buffer_area(*buf) == screen::buffer_area(*old(buf)),
            area.y <= y < area.end_y(),
            screen::buffer_cells(*buf) == lane_cells(
                c0,
                area,
                y,
                node.cells@,
                col as nat,
                base,
            ),
            screen::same_outside(c0, screen::buffer_cells(*buf), area),
        decreases n - col,
    {
        let cell = node.cells[col];
        let x: u16 = area.x + col as u16;
        write_cell(buf, x, y, cell_glyph(cell), base.fg(cell_color(cell)));
        col += 1;
        proof {
            reveal(screen::same_outside);
        }
    }
    let ghost lanes = screen::buffer_cells(*buf);
    let x: u16 = area.x.saturating_add(graph_w).saturating_add(GAP);
    match &node.commit {
        None => {
            if let Some(count) = node.uncommitted {
                let mut line = text::decimal(count as u64);
                line.append(" uncommitted changes");
                put(buf, area, x, y, line.as_str(), base);
                proof {
                    screen::lemma_same_outside(
                        c0,
                        lanes,
                        screen::buffer_cells(*buf),
                        area,
                        area,
                        area,
                    );
                }
            }
        },
        Some(c) => {
            let deco = match refs_at(decorations, c.id) {
                Some(found) => decoration_text(found, toggles),
                None => String::new(),
            };
            proof {
                assert(deco@ == labels(refs::refs_of(decorations@, c.id), toggles));
            }
            let bright = base.fg(lane_color(node.color_index)).add_modifier(BOLD);
            let next: u16 = put(buf, area, x, y, deco.as_str(), bright);
            let ghost labelled = screen::buffer_cells(*buf);
            let narrow = Rect { width: area.width.saturating_sub(HASH_W), ..area };
            put(buf, narrow, next, y, c.summary.as_str(), base);
            let ghost named = screen::buffer_cells(*buf);
            let hash = c.id.to_hex();
            let digits = text::chars_of(hash.as_str());
            proof {
                crate::git::commit::law_id_text(c.id, c.id);
                assert(digits@.subrange(0, 7) =~= c.id.text().take(7));
            }
            let short = text::text_of(&digits, 0, 7);
            let right: u16 = area.right();
            let mut hash_x: u16 = right.saturating_sub(HASH_W - 1);
            if hash_x < area.x {
                hash_x = area.x;
            }
            put(buf, area, hash_x, y, short.as_str(), base.fg(Color::DarkGray));
            proof {
                screen::lemma_same_outside(c0, lanes, labelled, area, area, area);
                screen::lemma_same_outside(c0, labelled, named, area, narrow, area);
                screen::lemma_same_outside(
                    c0,
                    named,
                    screen::buffer_cells(*buf),
                    area,
                    area,
                    area,
                );
            }
        },
    }
}

/// Paints `nodes[first_row..]` into `area`, highlighting `selected`.
///
/// A decoration whose kind the toggles hide is left out of the row it would have
/// appeared on.
pub fn draw_rows(
    buf: &mut Buffer,
    area: Rect,
    nodes: &[GraphNode],
    decorations: &Vec<Decorated>,
    toggles: RefToggles,
    first_row: usize,
    selected: usize,
)
    requires
        screen::drawable(area, screen::buffer_area(*old(buf))),
    ensures
        screen::buffer_area(*final(buf)) == screen::buffer_area(*old(buf)),
        screen::buffer_cells(*final(buf)) == graph_painted(
            screen::buffer_cells(*old(buf)),
            area,
            nodes@,
            decorations@,
            toggles,
            first_row as int,
            selected as int,
        ),
        screen::same_outside(
            screen::buffer_cells(*old(buf)),
            screen::buffer_cells(*final(buf)),
            area,
        ),
{
    let ghost c0 = screen::buffer_cells(*buf);
    proof {
        reveal(screen::same_outside);
    }
    if area.is_empty() {
        return ;
    }
    let left: usize = if nodes.len() > first_row {
        nodes.len() - first_row
    } else {
        0
    };
    let visible: usize = if left <= area.height as usize {
        left
    } else {
        area.height as usize
    };
    let mut widest_row: usize = 0;
    let mut i: usize = 0;
    while i < visible
        invariant
            i <= visible,
            visible > 0 ==> first_row + visible <= nodes@.len() && first_row + visible <= usize::MAX,
            widest_row == widest(nodes@, first_row as int, first_row + i),
        decreases visible - i,
    {
        let here: usize = nodes[first_row + i].cells.len();
        if here > widest_row {
            widest_row = here;
        }
        i += 1;
    }
    let third: usize = (area.width / 3) as usize;
    let graph_w: u16 = if widest_row <= third {
        widest_row as u16
    } else {
        third as u16
    };
    let room: u16 = area.bottom() - area.y;
    let shown: usize = if left <= room as usize {
        left
    } else {
        room as usize
    };
    let mut row: usize = 0;
    while row < shown
        invariant
            row <= shown,
            shown > 0 ==> first_row + shown <= nodes@.len() && first_row + shown <= usize::MAX,
            shown == visible_rows(nodes@.len() as int, first_row as int, area.end_y() - area.y),
            !area.is_blank(),
            graph_w == graph_columns(nodes@, area, first_row as int),
            graph_w <= area.width,
            screen::drawable(area, screen::buffer_area(*old(buf))),
            screen::buffer_area(*buf) == screen::buffer_area(*old(buf)),
            screen::buffer_cells(*buf) == rows_painted(
                c0,
                area,
                nodes@,
                decorations@,
                toggles,
                first_row as int,
                selected as int,
                row as int,
            ),
            screen::same_outside(c0, screen::buffer_cells(*buf), area),
        decreases shown - row,
    {
        let y: u16 = area.y + row as u16;
        let index: usize = first_row + row;
        let ghost before = screen::buffer_cells(*buf);
        draw_row(
            buf,
            area,
            y,
            &nodes[index],
            decorations,
            toggles,
            graph_w,
            index == selected,
        );
        proof {
            screen::lemma_same_outside(c0, before, screen::buffer_cells(*buf), area, area, area);
        }
        row += 1;
    }
}

} // verus!
