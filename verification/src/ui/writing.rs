//! What can be read on the screen once text or a row of the graph was drawn.
use crate::geometry::Rect;
use crate::git::commit::CommitInfo;
use crate::git::graph::{CellType, GraphNode};
use crate::git::refs;
use crate::git::refs::{Decorated, RefInfo};
use crate::screen;
use crate::screen::Cells;
use crate::style;
use crate::style::{Color, Style, ALL_MODIFIERS, BOLD, REVERSED};
use crate::text;
use crate::ui::colors;
use crate::ui::graph_view;
use crate::ui::graph_view::RefToggles;
use vstd::prelude::*;
use vstd::string::*;

verus! {

/// Whether every character of a text takes one column.
pub open spec fn narrow(s: Seq<char>) -> bool {
    forall|i: int| 0 <= i < s.len() ==> screen::char_columns(#[trigger] s[i]) == Some(1usize)
}

/// Whether a text can be read on row `y` from column `x` on.
pub open spec fn reads(cells: Cells, x: int, y: u16, s: Seq<char>) -> bool {
    forall|i: int|
        0 <= i < s.len() ==> (#[trigger] cells[((x + i) as u16, y)]).symbol == seq![s[i]]
}

/// Whether the cells of `n` columns have this foreground.
pub open spec fn colored(cells: Cells, x: int, y: u16, n: int, color: Color) -> bool {
    forall|i: int| 0 <= i < n ==> (#[trigger] cells[((x + i) as u16, y)]).fg == color
}

/// Whether the cells of `n` columns have this background.
pub open spec fn grounded(cells: Cells, x: int, y: u16, n: int, color: Color) -> bool {
    forall|i: int| 0 <= i < n ==> (#[trigger] cells[((x + i) as u16, y)]).bg == color
}

/// What writing text within its room does to every cell of the screen.
pub open spec fn wrote(a: Cells, b: Cells, cx: int, y: u16, s: Seq<char>, style: Style) -> bool {
    forall|x: u16, v: u16|
        #[trigger] b[(x, v)] == (if v == y && cx <= x < cx + s.len() {
            screen::written(a[(x, v)], s[x - cx], style)
        } else {
            a[(x, v)]
        })
}

pub proof fn lemma_put(cells: Cells, right: u16, cx: u16, y: u16, s: Seq<char>, style: Style)
    requires
        narrow(s),
        cx + s.len() <= right,
    ensures
        wrote(cells, screen::put_from(cells, right, cx, y, s, style).0, cx as int, y, s, style),
        screen::put_from(cells, right, cx, y, s, style).1 == cx + s.len(),
    decreases s.len(),
{
    if s.len() > 0 {
        let c = s[0];
        let one = cells.insert((cx, y), screen::written(cells[(cx, y)], c, style));
        let rest = s.drop_first();
        assert(screen::char_columns(s[0]) == Some(1usize));
        assert(narrow(rest)) by {
            assert forall|i: int| 0 <= i < rest.len() implies screen::char_columns(
                #[trigger] rest[i],
            ) == Some(1usize) by {
                assert(rest[i] == s[i + 1]);
            }
        }
        lemma_put(one, right, (cx + 1) as u16, y, rest, style);
        let end = screen::put_from(cells, right, cx, y, s, style);
        assert(end == screen::put_from(one, right, (cx + 1) as u16, y, rest, style));
        assert forall|x: u16, v: u16|
            #[trigger] end.0[(x, v)] == (if v == y && cx <= x < cx + s.len() {
                screen::written(cells[(x, v)], s[x - cx], style)
            } else {
                cells[(x, v)]
            }) by {
            if v == y && cx + 1 <= x < cx + s.len() {
                assert(rest[x - (cx + 1)] == s[x - cx]);
            }
        }
    }
}

/// Law: text within its room is written character by character from where it
/// starts, in its style, and nothing else on the screen changes; what is written
/// next to it starts right behind it.
pub proof fn law_text_is_put(
    cells: Cells,
    area: Rect,
    x: u16,
    y: u16,
    s: Seq<char>,
    style: Style,
    i: int,
)
    requires
        narrow(s),
        area.x <= x,
        x + s.len() <= area.end_x(),
        0 <= i < s.len(),
    ensures
        ({
            let after = screen::put_cells(cells, area, x, y, s, style);
            let at = ((x + i) as u16, y);
            &&& after[at].symbol == seq![s[i]]
            &&& style.fg matches Some(c) ==> after[at].fg == c
            &&& style.bg matches Some(c) ==> after[at].bg == c
            &&& style.fg is None ==> after[at].fg == cells[at].fg
            &&& style.bg is None ==> after[at].bg == cells[at].bg
            &&& after[at].modifiers == (cells[at].modifiers | style.add_modifier) & ALL_MODIFIERS
            &&& forall|u: u16, v: u16|
                v != y || u < x || u >= x + s.len() ==> #[trigger] after[(u, v)] == cells[(u, v)]
            &&& screen::put_end(cells, area, x, y, s, style) == x + s.len()
        }),
{
    lemma_put(cells, area.end_x() as u16, x, y, s, style);
    let after = screen::put_cells(cells, area, x, y, s, style);
    assert(after[((x + i) as u16, y)] == screen::written(
        cells[((x + i) as u16, y)],
        s[(x + i) as u16 - x],
        style,
    ));
}

pub proof fn lemma_put_only(cells: Cells, right: u16, cx: u16, y: u16, s: Seq<char>, style: Style)
    requires
        right < 65535,
    ensures
        forall|u: u16, v: u16|
            v != y || u < cx || u >= right ==> #[trigger] screen::put_from(
                cells,
                right,
                cx,
                y,
                s,
                style,
            ).0[(u, v)] == cells[(u, v)],
        screen::put_from(cells, right, cx, y, s, style).1 >= cx,
    decreases s.len(),
{
    if s.len() > 0 {
        let c = s[0];
        let rest = s.drop_first();
        let w = screen::advance(c);
        let next = crate::geometry::sat16(cx as int, w as int) as u16;
        if w == 0 {
            lemma_put_only(cells, right, cx, y, rest, style);
        } else if next <= right {
            let one = cells.insert((cx, y), screen::written(cells[(cx, y)], c, style));
            let beside = (cx + 1) as u16;
            let two = if w == 2 && beside < right {
                one.insert((beside, y), screen::written(one[(beside, y)], ' ', style))
            } else {
                one
            };
            lemma_put_only(two, right, next, y, rest, style);
        }
    }
}

/// Law: whatever text is written, it stays on its row, does not reach left of where
/// it starts, and does not pass the right edge.
pub proof fn law_text_stays_in_its_row(
    cells: Cells,
    area: Rect,
    x: u16,
    y: u16,
    s: Seq<char>,
    style: Style,
    u: u16,
    v: u16,
)
    requires
        area.end_x() < 65535,
        v != y || u < x || u < area.x || u >= area.end_x(),
    ensures
        screen::put_cells(cells, area, x, y, s, style)[(u, v)] == cells[(u, v)],
{
    lemma_put_only(cells, area.end_x() as u16, screen::put_start(area, x), y, s, style);
}

/// Law: text that does not fit is cut at the right edge: it is written as far as
/// there is room, and what would come next is left out.
pub proof fn law_text_is_cut_at_the_edge(
    cells: Cells,
    area: Rect,
    x: u16,
    y: u16,
    s: Seq<char>,
    style: Style,
)
    requires
        narrow(s),
        area.x <= x <= area.end_x(),
        area.end_x() < 65535,
        x + s.len() > area.end_x(),
    ensures
        screen::put_cells(cells, area, x, y, s, style) == screen::put_cells(
            cells,
            area,
            x,
            y,
            s.take(area.end_x() - x),
            style,
        ),
{
    lemma_put_cut(cells, area.end_x() as u16, x, y, s, style);
}

proof fn lemma_put_cut(cells: Cells, right: u16, cx: u16, y: u16, s: Seq<char>, style: Style)
    requires
        narrow(s),
        cx <= right < 65535,
        cx + s.len() > right,
    ensures
        screen::put_from(cells, right, cx, y, s, style) == screen::put_from(
            cells,
            right,
            cx,
            y,
            s.take(right - cx),
            style,
        ),
    decreases s.len(),
{
    let some = s.take(right - cx);
    assert(screen::char_columns(s[0]) == Some(1usize));
    if cx < right {
        let one = cells.insert((cx, y), screen::written(cells[(cx, y)], s[0], style));
        let rest = s.drop_first();
        assert(narrow(rest)) by {
            assert forall|i: int| 0 <= i < rest.len() implies screen::char_columns(
                #[trigger] rest[i],
            ) == Some(1usize) by {
                assert(rest[i] == s[i + 1]);
            }
        }
        lemma_put_cut(one, right, (cx + 1) as u16, y, rest, style);
        assert(some[0] == s[0]);
        assert(some.drop_first() =~= rest.take(right - (cx + 1)));
    } else {
        assert(some =~= Seq::<char>::empty());
    }
}

/// Law: a character that takes two columns is followed by a blank cell of its own
/// style, and one that takes none is left out.
pub proof fn law_wide_and_empty_characters(
    cells: Cells,
    area: Rect,
    x: u16,
    y: u16,
    c: char,
    style: Style,
)
    requires
        area.x <= x,
        x + 2 <= area.end_x(),
    ensures
        ({
            let after = screen::put_cells(cells, area, x, y, seq![c], style);
            &&& screen::char_columns(c) == Some(2usize) ==> after[(x, y)].symbol == seq![c] && after[(
                (x + 1) as u16,
                y,
            )].symbol == seq![' '] && screen::put_end(cells, area, x, y, seq![c], style) == x + 2
            &&& screen::char_columns(c) is None || screen::char_columns(c) == Some(0usize) ==> after
                == cells && screen::put_end(cells, area, x, y, seq![c], style) == x
        }),
{
    reveal_with_fuel(screen::put_from, 2);
    assert(seq![c].drop_first() =~= Seq::<char>::empty());
    assert(seq![c][0] == c);
}

/// Law: each kind of cell of the graph has its own sign.
pub proof fn law_graph_signs(a: usize, b: usize)
    ensures
        graph_view::glyph(CellType::Empty) == ' ',
        graph_view::glyph(CellType::Pipe(a)) == '│',
        graph_view::glyph(CellType::Commit(a)) == '●',
        graph_view::glyph(CellType::BranchRight(a)) == '╭',
        graph_view::glyph(CellType::BranchLeft(a)) == '╮',
        graph_view::glyph(CellType::MergeLeft(a)) == '╯',
        graph_view::glyph(CellType::Horizontal(a)) == '─',
        graph_view::glyph(CellType::HorizontalPipe(a, b)) == '┼',
        graph_view::glyph(CellType::TeeRight(a)) == '├',
        graph_view::glyph(CellType::TeeLeft(a)) == '┤',
        graph_view::glyph(CellType::TeeDown(a, b)) == '┬',
        graph_view::glyph(CellType::TeeUp(a, b)) == '┴',
{
}

/// Law: a line and the commits on it have one colour: that of the lane's number.
pub proof fn law_graph_colors(a: usize, b: usize)
    ensures
        graph_view::hue(CellType::Pipe(a)) == graph_view::hue(CellType::Commit(a)),
        graph_view::hue(CellType::Commit(a)) == colors::lane_hue(a),
        graph_view::hue(CellType::BranchRight(a)) == colors::lane_hue(a),
        graph_view::hue(CellType::BranchLeft(a)) == colors::lane_hue(a),
        graph_view::hue(CellType::MergeLeft(a)) == colors::lane_hue(a),
        graph_view::hue(CellType::Horizontal(a)) == colors::lane_hue(a),
        graph_view::hue(CellType::HorizontalPipe(a, b)) == colors::lane_hue(a),
        graph_view::hue(CellType::TeeRight(a)) == colors::lane_hue(a),
        graph_view::hue(CellType::TeeLeft(a)) == colors::lane_hue(a),
        graph_view::hue(CellType::TeeDown(a, b)) == colors::lane_hue(a),
        graph_view::hue(CellType::TeeUp(a, b)) == colors::lane_hue(a),
{
}

proof fn lemma_lanes(
    cells: Cells,
    area: Rect,
    y: u16,
    row: Seq<CellType>,
    n: nat,
    base: Style,
)
    requires
        area.x + n <= 65535,
        n <= row.len(),
    ensures
        ({
            let after = graph_view::lane_cells(cells, area, y, row, n, base);
            &&& forall|i: int|
                0 <= i < n ==> (#[trigger] after[((area.x + i) as u16, y)]).symbol == seq![
                    graph_view::glyph(row[i]),
                ]
            &&& forall|i: int|
                0 <= i < n ==> (#[trigger] after[((area.x + i) as u16, y)]).fg == graph_view::hue(
                    row[i],
                )
            &&& forall|u: u16, v: u16|
                v != y || u < area.x || u >= area.x + n ==> #[trigger] after[(u, v)] == cells[(u, v)]
        }),
    decreases n,
{
    if n > 0 {
        lemma_lanes(cells, area, y, row, (n - 1) as nat, base);
    }
}

proof fn lemma_lanes_stay(
    cells: Cells,
    after: Cells,
    x: int,
    y: u16,
    n: int,
)
    requires
        forall|u: u16, v: u16| v != y || u < x + n ==> #[trigger] after[(u, v)] == cells[(u, v)],
        0 <= x,
        x + n <= 65535,
    ensures
        forall|i: int|
            0 <= i < n ==> #[trigger] after[((x + i) as u16, y)] == cells[((x + i) as u16, y)],
{
}

/// How many cells of a row's graph there is room for.
pub open spec fn lanes_drawn(node: GraphNode, graph_w: int) -> int {
    if node.cells@.len() <= graph_w {
        node.cells@.len() as int
    } else {
        graph_w
    }
}

/// Law: a row of the graph shows its lanes from the left edge, sign by sign in their
/// colours, and no other row is touched.
pub proof fn law_graph_row_shows_its_lanes(
    cells: Cells,
    area: Rect,
    y: u16,
    node: GraphNode,
    decorations: Seq<Decorated>,
    toggles: RefToggles,
    graph_w: int,
    selected: bool,
)
    requires
        0 <= graph_w,
        area.x + graph_w + 1 < 65535,
        area.end_x() < 65535,
        area.x + graph_w + 8 <= area.end_x(),
    ensures
        ({
            let after = graph_view::row_painted(
                cells,
                area,
                y,
                node,
                decorations,
                toggles,
                graph_w,
                selected,
            );
            &&& forall|i: int|
                0 <= i < lanes_drawn(node, graph_w) ==> (#[trigger] after[(
                    (area.x + i) as u16,
                    y,
                )]).symbol == seq![graph_view::glyph(node.cells@[i])]
            &&& forall|i: int|
                0 <= i < lanes_drawn(node, graph_w) ==> (#[trigger] after[(
                    (area.x + i) as u16,
                    y,
                )]).fg == graph_view::hue(node.cells@[i])
            &&& forall|u: u16, v: u16| v != y ==> #[trigger] after[(u, v)] == cells[(u, v)]
        }),
{
    let base = graph_view::base_style(selected);
    let n = lanes_drawn(node, graph_w) as nat;
    lemma_lanes(cells, area, y, node.cells@, n, base);
    let lanes = graph_view::lane_cells(cells, area, y, node.cells@, n, base);
    let x = graph_view::text_start(area, graph_w);
    let right = area.end_x() as u16;
    assert(x == area.x + graph_w + 1);
    let after = graph_view::row_painted(
        cells,
        area,
        y,
        node,
        decorations,
        toggles,
        graph_w,
        selected,
    );
    match node.commit {
        None => {
            if let Some(count) = node.uncommitted {
                let s = text::decimal_text(count as nat) + " uncommitted changes"@;
                lemma_put_only(lanes, right, screen::put_start(area, x), y, s, base);
            }
        },
        Some(c) => {
            let deco = graph_view::labels(refs::refs_of(decorations, c.id), toggles);
            let bright = base.with_fg(colors::lane_hue(node.color_index)).with_modifier(BOLD);
            lemma_put_only(lanes, right, screen::put_start(area, x), y, deco, bright);
            let labelled = screen::put_cells(lanes, area, x, y, deco, bright);
            let next = screen::put_end(lanes, area, x, y, deco, bright);
            let room = graph_view::summary_area(area);
            lemma_put_only(
                labelled,
                room.end_x() as u16,
                screen::put_start(room, next),
                y,
                c.summary@,
                base,
            );
            let named = screen::put_cells(labelled, room, next, y, c.summary@, base);
            let h = crate::geometry::most(area.end_x() - 7, area.x as int) as u16;
            lemma_put_only(
                named,
                right,
                screen::put_start(area, h),
                y,
                c.id.text().take(7),
                base.with_fg(Color::DarkGray),
            );
        },
    }
    assert forall|u: u16, v: u16| v != y || u < area.x + graph_w implies #[trigger] after[(u, v)]
        == lanes[(u, v)] by {}
    lemma_lanes_stay(lanes, after, area.x as int, y, n as int);
}

/// Law: behind its lanes a commit's row shows the refs that label it, in the bold
/// colour of its lane, then its summary, and at the right edge the first seven
/// digits of its id.
pub proof fn law_graph_row_reads(
    cells: Cells,
    area: Rect,
    y: u16,
    node: GraphNode,
    c: CommitInfo,
    decorations: Seq<Decorated>,
    toggles: RefToggles,
    graph_w: int,
    selected: bool,
)
    requires
        0 <= graph_w,
        area.end_x() < 65535,
        node.commit == Some(c),
        c.id.text().len() >= 7,
        ({
            let deco = graph_view::labels(refs::refs_of(decorations, c.id), toggles);
            &&& narrow(deco) && narrow(c.summary@) && narrow(c.id.text())
            &&& area.x + graph_w + 1 + deco.len() + c.summary@.len() + 8 <= area.x + area.width
            &&& area.x + area.width < 65535
        }),
    ensures
        ({
            let deco = graph_view::labels(refs::refs_of(decorations, c.id), toggles);
            let after = graph_view::row_painted(
                cells,
                area,
                y,
                node,
                decorations,
                toggles,
                graph_w,
                selected,
            );
            let x = area.x + graph_w + 1;
            &&& reads(after, x, y, deco)
            &&& colored(after, x, y, deco.len() as int, colors::lane_hue(node.color_index))
            &&& reads(after, x + deco.len(), y, c.summary@)
            &&& reads(after, area.end_x() - 7, y, c.id.text().take(7))
        }),
{
    let base = graph_view::base_style(selected);
    let n = lanes_drawn(node, graph_w) as nat;
    let lanes = graph_view::lane_cells(cells, area, y, node.cells@, n, base);
    let deco = graph_view::labels(refs::refs_of(decorations, c.id), toggles);
    let bright = base.with_fg(colors::lane_hue(node.color_index)).with_modifier(BOLD);
    let x = graph_view::text_start(area, graph_w);
    let right = area.end_x() as u16;
    assert(x == area.x + graph_w + 1);
    lemma_put(lanes, right, x, y, deco, bright);
    let labelled = screen::put_cells(lanes, area, x, y, deco, bright);
    let next = screen::put_end(lanes, area, x, y, deco, bright);
    assert(next == x + deco.len());
    let room = graph_view::summary_area(area);
    assert(room.end_x() == area.end_x() - 8);
    lemma_put(labelled, room.end_x() as u16, next, y, c.summary@, base);
    let named = screen::put_cells(labelled, room, next, y, c.summary@, base);
    let h = (area.end_x() - 7) as u16;
    let hash = c.id.text().take(7);
    assert(narrow(hash)) by {
        assert forall|i: int| 0 <= i < hash.len() implies screen::char_columns(#[trigger] hash[i])
            == Some(1usize) by {
            assert(hash[i] == c.id.text()[i]);
        }
    }
    let gray = base.with_fg(Color::DarkGray);
    lemma_put(named, right, h, y, hash, gray);
    let after = screen::put_cells(named, area, h, y, hash, gray);
    assert(after == graph_view::row_painted(
        cells,
        area,
        y,
        node,
        decorations,
        toggles,
        graph_w,
        selected,
    ));
    assert forall|i: int| 0 <= i < deco.len() implies (#[trigger] after[((x + i) as u16, y)]).symbol
        == seq![deco[i]] && after[((x + i) as u16, y)].fg == colors::lane_hue(node.color_index) by {
        let u = (x + i) as u16;
        assert(after[(u, y)] == named[(u, y)]);
        assert(named[(u, y)] == labelled[(u, y)]);
        assert(labelled[(u, y)] == screen::written(lanes[(u, y)], deco[u - x], bright));
    }
    assert forall|i: int| 0 <= i < c.summary@.len() implies (#[trigger] after[(
        (x + deco.len() + i) as u16,
        y,
    )]).symbol == seq![c.summary@[i]] by {
        let u = (x + deco.len() + i) as u16;
        assert(after[(u, y)] == named[(u, y)]);
        assert(named[(u, y)] == screen::written(labelled[(u, y)], c.summary@[u - next], base));
    }
    assert forall|i: int| 0 <= i < hash.len() implies (#[trigger] after[(
        (area.end_x() - 7 + i) as u16,
        y,
    )]).symbol == seq![hash[i]] by {
        let u = (area.end_x() - 7 + i) as u16;
        assert(after[(u, y)] == screen::written(named[(u, y)], hash[u - h], gray));
    }
}

/// Law: a branch is labelled by its name in square brackets, a tag by its name in
/// round ones, each followed by a blank; refs that are switched off are left out,
/// and the others keep their order.
pub proof fn law_labels(refs: Seq<RefInfo>, r: RefInfo, toggles: RefToggles)
    ensures
        ({
            let with = graph_view::labels(refs.push(r), toggles);
            let without = graph_view::labels(refs, toggles);
            &&& r.kind is LocalBranch ==> with == without + (seq!['['] + r.name@ + seq![']', ' '])
            &&& r.kind is RemoteBranch && toggles.show_remotes ==> with == without + (seq!['[']
                + r.name@ + seq![']', ' '])
            &&& r.kind is RemoteBranch && !toggles.show_remotes ==> with == without
            &&& r.kind is Tag && toggles.show_tags ==> with == without + (seq!['('] + r.name@
                + seq![')', ' '])
            &&& r.kind is Tag && !toggles.show_tags ==> with == without
        }),
        graph_view::labels(Seq::empty(), toggles).len() == 0,
{
    reveal_strlit("[");
    reveal_strlit("] ");
    reveal_strlit("(");
    reveal_strlit(") ");
    assert("["@ =~= seq!['[']);
    assert("] "@ =~= seq![']', ' ']);
    assert("("@ =~= seq!['(']);
    assert(") "@ =~= seq![')', ' ']);
    assert(refs.push(r).drop_last() =~= refs);
}

/// Law: the selected row stands out from the others.
pub proof fn law_selected_row_is_reversed()
    ensures
        graph_view::base_style(true).add_modifier & REVERSED == REVERSED,
        graph_view::base_style(false).add_modifier == 0,
        graph_view::base_style(true).fg is None && graph_view::base_style(true).bg is None,
{
    assert((0u16 | 0x040u16) & 0x040u16 == 0x040u16) by (bit_vector);
}

/// Law: the rows of the graph are drawn one under the other, from the first one in
/// view: what a row draws is what is seen of it in the end.
pub proof fn law_graph_rows_stand_in_order(
    cells: Cells,
    area: Rect,
    nodes: Seq<GraphNode>,
    decorations: Seq<Decorated>,
    toggles: RefToggles,
    first_row: int,
    selected: int,
    n: int,
    k: int,
)
    requires
        0 <= k < n,
        0 <= first_row,
        first_row + n <= nodes.len(),
        area.y + n <= 65535,
        area.end_x() < 65535,
        area.width >= 15,
        area.x + area.width < 65535,
    ensures
        ({
            let w = graph_view::graph_columns(nodes, area, first_row);
            let after = graph_view::rows_painted(
                cells,
                area,
                nodes,
                decorations,
                toggles,
                first_row,
                selected,
                n,
            );
            let y = (area.y + k) as u16;
            &&& forall|i: int|
                0 <= i < lanes_drawn(nodes[first_row + k], w) ==> (#[trigger] after[(
                    (area.x + i) as u16,
                    y,
                )]).symbol == seq![graph_view::glyph(nodes[first_row + k].cells@[i])]
        }),
    decreases n,
{
    let w = graph_view::graph_columns(nodes, area, first_row);
    let before = graph_view::rows_painted(
        cells,
        area,
        nodes,
        decorations,
        toggles,
        first_row,
        selected,
        n - 1,
    );
    lemma_widest(nodes, first_row, first_row + graph_view::visible_rows(
        nodes.len() as int,
        first_row,
        area.height as int,
    ));
    law_graph_row_shows_its_lanes(
        before,
        area,
        (area.y + n - 1) as u16,
        nodes[first_row + n - 1],
        decorations,
        toggles,
        w,
        first_row + n - 1 == selected,
    );
    if k < n - 1 {
        law_graph_rows_stand_in_order(
            cells,
            area,
            nodes,
            decorations,
            toggles,
            first_row,
            selected,
            n - 1,
            k,
        );
    }
}

proof fn lemma_widest(nodes: Seq<GraphNode>, from: int, to: int)
    ensures
        graph_view::widest(nodes, from, to) >= 0,
{
}

proof fn lemma_widest_row(nodes: Seq<GraphNode>, from: int, to: int, i: int)
    requires
        from <= i < to,
    ensures
        nodes[i].cells@.len() <= graph_view::widest(nodes, from, to),
    decreases to - from,
{
    if i < to - 1 {
        lemma_widest_row(nodes, from, to - 1, i);
    }
}

proof fn lemma_widest_is_one(nodes: Seq<GraphNode>, from: int, to: int)
    requires
        from < to,
    ensures
        exists|i: int|
            from <= i < to && (#[trigger] nodes[i]).cells@.len() == graph_view::widest(
                nodes,
                from,
                to,
            ),
    decreases to - from,
{
    let rest = graph_view::widest(nodes, from, to - 1);
    if nodes[to - 1].cells@.len() > rest || from == to - 1 {
        assert(nodes[to - 1].cells@.len() == graph_view::widest(nodes, from, to));
    } else {
        lemma_widest_is_one(nodes, from, to - 1);
    }
}

/// Law: the graph takes as many columns as the widest row on view has, unless that is
/// more than a third of the pane; then it takes the third.
pub proof fn law_graph_columns(nodes: Seq<GraphNode>, area: Rect, first_row: int)
    requires
        0 <= first_row < nodes.len(),
        area.height > 0,
    ensures
        ({
            let w = graph_view::graph_columns(nodes, area, first_row);
            let last: int = if first_row + area.height < nodes.len() {
                first_row + area.height
            } else {
                nodes.len() as int
            };
            &&& 3 * w <= area.width
            &&& (forall|i: int| first_row <= i < last ==> (#[trigger] nodes[i]).cells@.len() <= w)
                || 3 * (w + 1) > area.width
            &&& (exists|i: int| first_row <= i < last && (#[trigger] nodes[i]).cells@.len() >= w)
        }),
{
    let last: int = if first_row + area.height < nodes.len() {
        first_row + area.height
    } else {
        nodes.len() as int
    };
    lemma_widest_is_one(nodes, first_row, last);
    assert forall|i: int| first_row <= i < last implies (#[trigger] nodes[i]).cells@.len()
        <= graph_view::widest(nodes, first_row, last) by {
        lemma_widest_row(nodes, first_row, last, i);
    }
}

} // verus!
