//! The search dropdown, drawn over the graph pane.
//!
//! The query on the first row, then one row per match.
use crate::geometry;
use crate::geometry::Rect;
use crate::git::graph::GraphNode;
use crate::screen;
use crate::screen::{blank, draw_block, put, text_width, Cells};
use crate::search::Search;
use crate::style;
use crate::style::{accent, dim, Style, REVERSED};
use crate::text;
use crate::ui::graph_view;
use ratatui::buffer::Buffer;
use vstd::prelude::*;
use vstd::string::*;

verus! {

/// Match rows the dropdown shows at once. The list scrolls to keep the
/// highlighted match visible, so a match past this many is still reachable.
pub const MAX_MATCH_ROWS: usize = 10;

/// Rows below the query: one per match up to the limit; one to say that
/// nothing matched, once something was typed.
pub open spec fn body_rows(typed: Seq<char>, found: Seq<usize>) -> int {
    if found.len() == 0 {
        if typed.len() == 0 {
            0
        } else {
            1
        }
    } else {
        geometry::least(found.len() as int, MAX_MATCH_ROWS as int)
    }
}

/// The dropdown's box: the full width of `area`, from its top, only as tall as
/// it needs to be.
pub open spec fn dropdown(area: Rect, typed: Seq<char>, found: Seq<usize>) -> Rect {
    Rect {
        height: geometry::least(body_rows(typed, found) + 3, area.height as int) as u16,
        ..area
    }
}

/// "3/41": which match of how many is highlighted.
pub open spec fn counter_text(found: Seq<usize>, highlighted: nat) -> Option<Seq<char>> {
    if found.len() == 0 {
        None
    } else {
        Some(
            text::decimal_text(highlighted + 1) + "/"@ + text::decimal_text(found.len()),
        )
    }
}

/// The right-hand status: the counter, and how many commits the search could
/// not see.
pub open spec fn status_text(
    found: Seq<usize>,
    highlighted: nat,
    not_loaded: nat,
) -> Option<Seq<char>> {
    let unloaded = text::decimal_text(not_loaded) + " not loaded"@;
    match counter_text(found, highlighted) {
        Some(c) => if not_loaded > 0 {
            Some(c + " · "@ + unloaded)
        } else {
            Some(c)
        },
        None => if not_loaded > 0 {
            Some(unloaded)
        } else {
            None
        },
    }
}

/// Whether a status text fits behind a query that ends before column `x`.
pub open spec fn status_fits(inner: Rect, x: u16, status: Seq<char>) -> bool {
    geometry::sat16(
        geometry::sat16(x as int, 1),
        (screen::text_columns(status) as u16) as int,
    ) <= inner.end_x()
}

/// The cells once a status text was drawn at the right edge of the query row.
pub open spec fn status_cells(cells: Cells, inner: Rect, status: Seq<char>) -> Cells {
    screen::put_cells(
        cells,
        inner,
        geometry::most(
            geometry::most(inner.end_x() - (screen::text_columns(status) as u16), 0),
            inner.x as int,
        ) as u16,
        inner.y,
        status,
        style::plain().with_fg(style::dim_color()),
    )
}

/// The cells once the query row was drawn: the query, a cursor, and the longest
/// status that fits beside it.
pub open spec fn query_cells(
    cells: Cells,
    inner: Rect,
    typed: Seq<char>,
    found: Seq<usize>,
    highlighted: nat,
    not_loaded: nat,
) -> Cells {
    let line = "/"@ + typed;
    let plain = style::plain();
    let x = screen::put_end(cells, inner, inner.x, inner.y, line, plain);
    let cursor = screen::put_cells(
        screen::put_cells(cells, inner, inner.x, inner.y, line, plain),
        inner,
        x,
        inner.y,
        "▏"@,
        plain.with_fg(style::accent_color()),
    );
    match (status_text(found, highlighted, not_loaded), counter_text(found, highlighted)) {
        (Some(s), _) if status_fits(inner, x, s) => status_cells(cursor, inner, s),
        (_, Some(c)) if status_fits(inner, x, c) => status_cells(cursor, inner, c),
        _ => cursor,
    }
}

/// The area below the query row.
pub open spec fn list_area(inner: Rect) -> Rect {
    Rect {
        y: geometry::sat16(inner.y as int, 1) as u16,
        height: geometry::most(inner.height - 1, 0) as u16,
        ..inner
    }
}

/// How many matches the list has room for.
pub open spec fn matches_shown(found: Seq<usize>, list: Rect) -> int {
    geometry::least(
        geometry::least(found.len() as int, MAX_MATCH_ROWS as int),
        list.height as int,
    )
}

/// The first match shown: as far down as the highlighted one needs.
pub open spec fn list_scroll(highlighted: nat, shown: int) -> int {
    geometry::most(highlighted + 1 - shown, 0)
}

/// The cells once the match at `y` was drawn: a band across the row where it is
/// highlighted, then its commit's first line and author.
pub open spec fn match_cells(
    cells: Cells,
    list: Rect,
    y: u16,
    width: nat,
    nodes: Seq<GraphNode>,
    row: usize,
    is_selected: bool,
) -> Cells {
    let base = graph_view::base_style(is_selected);
    let band = if is_selected {
        screen::put_cells(cells, list, list.x, y, text::repeated(' ', width), base)
    } else {
        cells
    };
    if row < nodes.len() && nodes[row as int].commit is Some {
        let c = nodes[row as int].commit->0;
        let line = text::first_line(c.summary@);
        let named = screen::put_cells(band, list, list.x, y, line, base);
        let x = screen::put_end(band, list, list.x, y, line, base);
        screen::put_cells(
            named,
            list,
            x,
            y,
            "  "@ + c.author@,
            if is_selected {
                base
            } else {
                base.with_fg(style::dim_color())
            },
        )
    } else {
        band
    }
}

/// The cells once the first `n` shown matches were drawn.
pub open spec fn matches_cells(
    cells: Cells,
    list: Rect,
    width: nat,
    nodes: Seq<GraphNode>,
    found: Seq<usize>,
    highlighted: nat,
    n: int,
) -> Cells
    decreases n,
{
    if n <= 0 {
        cells
    } else {
        let scroll = list_scroll(highlighted, matches_shown(found, list));
        match_cells(
            matches_cells(cells, list, width, nodes, found, highlighted, n - 1),
            list,
            (list.y + n - 1) as u16,
            width,
            nodes,
            found[scroll + n - 1],
            scroll + n - 1 == highlighted,
        )
    }
}

/// The cells once the rows below the query were drawn.
pub open spec fn list_cells(
    cells: Cells,
    list: Rect,
    width: nat,
    nodes: Seq<GraphNode>,
    typed: Seq<char>,
    found: Seq<usize>,
    highlighted: nat,
) -> Cells {
    if list.height == 0 {
        cells
    } else if found.len() == 0 {
        if typed.len() == 0 {
            cells
        } else {
            screen::put_cells(
                cells,
                list,
                list.x,
                list.y,
                "no matches"@,
                style::plain().with_fg(style::dim_color()),
            )
        }
    } else {
        matches_cells(
            cells,
            list,
            width,
            nodes,
            found,
            highlighted,
            matches_shown(found, list),
        )
    }
}

/// The cells once the dropdown was drawn over the top of `area`: its box emptied
/// and bordered, then the query row, then the list.
pub open spec fn dropdown_cells(
    cells: Cells,
    bounds: Rect,
    area: Rect,
    nodes: Seq<GraphNode>,
    typed: Seq<char>,
    found: Seq<usize>,
    highlighted: nat,
    not_loaded: nat,
) -> Cells {
    if area.is_blank() {
        cells
    } else {
        let rect = dropdown(area, typed, found);
        let inner = rect.inside();
        let boxed = screen::block_cells(
            screen::cleared(cells, rect),
            bounds,
            rect,
            " Search "@,
            (0xF3, 0xB2, 0x4C),
            None,
        );
        if inner.is_blank() {
            boxed
        } else {
            list_cells(
                query_cells(boxed, inner, typed, found, highlighted, not_loaded),
                list_area(inner),
                rect.width as nat,
                nodes,
                typed,
                found,
                highlighted,
            )
        }
    }
}

/// The counter and the status texts.
fn statuses(search: &Search, not_loaded: usize) -> (r: (Option<String>, Option<String>))
    requires
        search.wf(),
    ensures
        match r.0 {
            Some(s) => counter_text(search.found(), search.highlighted()) == Some(s@),
            None => counter_text(search.found(), search.highlighted()) is None,
        },
        match r.1 {
            Some(s) => status_text(search.found(), search.highlighted(), not_loaded as nat) == Some(
                s@,
            ),
            None => status_text(
                search.found(),
                search.highlighted(),
                not_loaded as nat,
            ) is None,
        },
{
    let counter = match search.selected() {
        Some(at) => {
            let n = text::decimal(search.matches().len() as u64);
            let k = text::decimal(at as u64 + 1);
            Some(text::join3(k.as_str(), "/", n.as_str()))
        },
        None => None,
    };
    let status = if not_loaded > 0 {
        let count = text::decimal(not_loaded as u64);
        let unloaded = text::join2(count.as_str(), " not loaded");
        match &counter {
            Some(c) => Some(text::join3(c.as_str(), " · ", unloaded.as_str())),
            None => Some(unloaded),
        }
    } else {
        match &counter {
            Some(c) => Some(c.clone()),
            None => None,
        }
    };
    (counter, status)
}

/// Draws the query row.
fn draw_query(buf: &mut Buffer, inner: Rect, search: &Search, not_loaded: usize)
    requires
        search.wf(),
        !inner.is_blank(),
        screen::drawable(inner, screen::buffer_area(*old(buf))),
        inner.y + inner.height <= 65535,
    ensures
        screen::buffer_area(*final(buf)) == screen::buffer_area(*old(buf)),
        screen::buffer_cells(*final(buf)) == query_cells(
            screen::buffer_cells(*old(buf)),
            inner,
            search.typed(),
            search.found(),
            search.highlighted(),
            not_loaded as nat,
        ),
        screen::same_outside(
            screen::buffer_cells(*old(buf)),
            screen::buffer_cells(*final(buf)),
            inner,
        ),
{
    let ghost c0 = screen::buffer_cells(*buf);
    let line = text::join2("/", search.query());
    let x: u16 = put(buf, inner, inner.x, inner.y, line.as_str(), Style::default());
    let ghost c1 = screen::buffer_cells(*buf);
    put(buf, inner, x, inner.y, "▏", Style::default().fg(accent()));
    let ghost c2 = screen::buffer_cells(*buf);
    proof {
        screen::lemma_also(c0, c1, c2, inner, inner);
    }
    let (counter, status) = statuses(search, not_loaded);
    let right: u16 = inner.right();
    let mut chosen: Option<String> = None;
    if let Some(s) = status {
        let w: u16 = text_width(s.as_str()) as u16;
        if x.saturating_add(1).saturating_add(w) <= right {
            chosen = Some(s);
        }
    }
    if chosen.is_none() {
        if let Some(c) = counter {
            let w: u16 = text_width(c.as_str()) as u16;
            if x.saturating_add(1).saturating_add(w) <= right {
                chosen = Some(c);
            }
        }
    }
    if let Some(s) = chosen {
        let w: u16 = text_width(s.as_str()) as u16;
        let mut cx: u16 = right.saturating_sub(w);
        if cx < inner.x {
            cx = inner.x;
        }
        put(buf, inner, cx, inner.y, s.as_str(), Style::default().fg(dim()));
        proof {
            screen::lemma_also(c0, c2, screen::buffer_cells(*buf), inner, inner);
        }
    }
}

/// Draws one match.
fn draw_match(
    buf: &mut Buffer,
    list: Rect,
    y: u16,
    band: &str,
    nodes: &[GraphNode],
    row: usize,
    is_selected: bool,
)
    requires
        screen::drawable(list, screen::buffer_area(*old(buf))),
        list.y <= y < list.end_y(),
        band@ == text::repeated(' ', band@.len()),
    ensures
        screen::buffer_area(*final(buf)) == screen::buffer_area(*old(buf)),
        screen::buffer_cells(*final(buf)) == match_cells(
            screen::buffer_cells(*old(buf)),
            list,
            y,
            band@.len(),
            nodes@,
            row,
            is_selected,
        ),
        screen::same_outside(
            screen::buffer_cells(*old(buf)),
            screen::buffer_cells(*final(buf)),
            list,
        ),
{
    let ghost c0 = screen::buffer_cells(*buf);
    proof {
        reveal(screen::same_outside);
    }
    let base = if is_selected {
        Style::default().add_modifier(REVERSED)
    } else {
        Style::default()
    };
    if is_selected {
        put(buf, list, list.x, y, band, base);
    }
    let ghost c1 = screen::buffer_cells(*buf);
    if row < nodes.len() {
        if let Some(c) = &nodes[row].commit {
            let line = text::line_one(c.summary.as_str());
            let x: u16 = put(buf, list, list.x, y, line.as_str(), base);
            let ghost c2 = screen::buffer_cells(*buf);
            let author_style = if is_selected {
                base
            } else {
                base.fg(dim())
            };
            let author = text::join2("  ", c.author.as_str());
            put(buf, list, x, y, author.as_str(), author_style);
            proof {
                screen::lemma_also(c0, c1, c2, list, list);
                screen::lemma_also(c0, c2, screen::buffer_cells(*buf), list, list);
            }
        }
    }
}

/// Renders the dropdown into the top of `area`, which is the graph pane.
///
/// The box is only as tall as it needs to be, so the graph stays visible
/// beneath it. `nodes` is what the row indices in `search` came from;
/// `not_loaded` is how many commits the graph has read but not yet laid out.
pub fn draw_search(
    buf: &mut Buffer,
    area: Rect,
    search: &Search,
    nodes: &[GraphNode],
    not_loaded: usize,
)
    requires
        search.wf(),
        screen::drawable(area, screen::buffer_area(*old(buf))),
        area.y + area.height <= 65535,
    ensures
        screen::buffer_area(*final(buf)) == screen::buffer_area(*old(buf)),
        screen::buffer_cells(*final(buf)) == dropdown_cells(
            screen::buffer_cells(*old(buf)),
            screen::buffer_area(*old(buf)),
            area,
            nodes@,
            search.typed(),
            search.found(),
            search.highlighted(),
            not_loaded as nat,
        ),
        screen::same_outside(
            screen::buffer_cells(*old(buf)),
            screen::buffer_cells(*final(buf)),
            dropdown(area, search.typed(), search.found()),
        ),
{
    let ghost c0 = screen::buffer_cells(*buf);
    let ghost bounds = screen::buffer_area(*buf);
    proof {
        reveal(screen::same_outside);
        reveal_strlit(" Search ");
    }
    if area.is_empty() {
        return ;
    }
    let count: usize = search.matches().len();
    let visible: usize = if count <= MAX_MATCH_ROWS {
        count
    } else {
        MAX_MATCH_ROWS
    };
    let body: u16 = if count == 0 {
        if search.query().is_empty() {
            0
        } else {
            1
        }
    } else {
        visible as u16
    };
    let wanted: u16 = body + 3;
    let height: u16 = if wanted <= area.height {
        wanted
    } else {
        area.height
    };
    let rect = Rect { x: area.x, y: area.y, width: area.width, height };
    assert(rect == dropdown(area, search.typed(), search.found()));
    assert(rect.within(area));
    blank(buf, rect);
    let ghost c1 = screen::buffer_cells(*buf);
    draw_block(buf, rect, " Search ", (0xF3, 0xB2, 0x4C), None);
    let ghost c2 = screen::buffer_cells(*buf);
    let inner = rect.inset();
    proof {
        geometry::law_inside(rect, rect);
        screen::lemma_also(c0, c0, c1, rect, rect);
        screen::lemma_also(c0, c1, c2, rect, rect);
    }
    if inner.is_empty() {
        return ;
    }
    draw_query(buf, inner, search, not_loaded);
    let ghost c3 = screen::buffer_cells(*buf);
    let list = Rect {
        x: inner.x,
        y: inner.y.saturating_add(1),
        width: inner.width,
        height: inner.height.saturating_sub(1),
    };
    proof {
        screen::lemma_also(c0, c2, c3, inner, rect);
        assert(list == list_area(inner));
        assert(list.within(rect));
    }
    if list.height == 0 {
        return ;
    }
    if count == 0 {
        if !search.query().is_empty() {
            put(buf, list, list.x, list.y, "no matches", Style::default().fg(dim()));
            proof {
                screen::lemma_also(c0, c3, screen::buffer_cells(*buf), list, rect);
            }
        }
        return ;
    }
    let band = text::repeat(' ', rect.width as usize);
    let shown: usize = if visible <= list.height as usize {
        visible
    } else {
        list.height as usize
    };
    let selected: usize = match search.selected() {
        Some(k) => k,
        None => 0,
    };
    let scroll: usize = (selected + 1).saturating_sub(shown);
    let mut row: usize = 0;
    while row < shown
        invariant
            row <= shown,
            shown == matches_shown(search.found(), list),
            shown <= list.height,
            search.wf(),
            search.found().len() > 0,
            selected == search.highlighted(),
            scroll == list_scroll(search.highlighted(), shown as int),
            band@ == text::repeated(' ', rect.width as nat),
            list.within(rect),
            list.y + list.height <= 65535,
            screen::drawable(list, bounds),
            screen::buffer_area(*buf) == bounds,
            screen::buffer_cells(*buf) == matches_cells(
                c3,
                list,
                rect.width as nat,
                nodes@,
                search.found(),
                search.highlighted(),
                row as int,
            ),
            screen::same_outside(c0, screen::buffer_cells(*buf), rect),
        decreases shown - row,
    {
        let y: u16 = list.y + row as u16;
        let matches = search.matches();
        let ghost b0 = screen::buffer_cells(*buf);
        draw_match(
            buf,
            list,
            y,
            band.as_str(),
            nodes,
            matches[scroll + row],
            scroll + row == selected,
        );
        proof {
            screen::lemma_also(c0, b0, screen::buffer_cells(*buf), list, rect);
        }
        row += 1;
    }
}

/// Law: the highlighted match is one of those shown, wherever the list has room
/// for one.
pub proof fn law_highlight_is_visible(found: Seq<usize>, highlighted: nat, list: Rect)
    requires
        highlighted < found.len(),
        list.height > 0,
    ensures
        ({
            let shown = matches_shown(found, list);
            let scroll = list_scroll(highlighted, shown);
            scroll <= highlighted < scroll + shown && scroll + shown <= found.len()
        }),
{
}

} // verus!
