//! The search dropdown.
use asd::geometry::Rect;
use asd::git::commit::{CommitInfo, ObjectId};
use asd::git::graph::{CellType, GraphNode};
use asd::search::Search;
use asd::ui::search::draw_search;
use ratatui::buffer::{Buffer, Cell};
use ratatui::style::{Color, Modifier, Style};

/// The same rectangle for the buffer.
fn screen(area: Rect) -> ratatui::layout::Rect {
    ratatui::layout::Rect::new(area.x, area.y, area.width, area.height)
}

/// An empty buffer that covers an area.
fn empty(area: Rect) -> Buffer {
    Buffer::empty(screen(area))
}

/// A buffer that covers an area with one cell all over.
fn filled(area: Rect, cell: Cell) -> Buffer {
    Buffer::filled(screen(area), cell)
}

/// Whether a cell is in an area.
fn inside(area: Rect, x: u16, y: u16) -> bool {
    x >= area.x && x < area.x + area.width && y >= area.y && y < area.y + area.height
}

/// What an area shows, row by row.
fn text_of(buf: &Buffer, area: Rect) -> String {
    (area.y..area.y + area.height)
        .map(|y| {
            (area.x..area.x + area.width)
                .map(|x| buf[(x, y)].symbol().to_string())
                .collect::<String>()
        })
        .collect::<Vec<_>>()
        .join("\n")
}

/// The name of the empty blob.
fn blob() -> ObjectId {
    ObjectId {
        high: 0xe69d_e29b_b2d1_d643,
        middle: 0x4b8b_29ae_775a_d8c2,
        low: 0xe48c_5391,
    }
}

fn node(summary: &str, author: &str) -> GraphNode {
    GraphNode {
        commit: Some(CommitInfo {
            id: blob(),
            parents: Vec::new(),
            summary: summary.into(),
            body: String::new(),
            author: author.into(),
            time: 0,
        }),
        lane: 0,
        color_index: 0,
        cells: vec![CellType::Commit(0)],
        uncommitted: None,
    }
}

/// A `Search` that has already been typed into.
fn typed(query: &str, nodes: &[GraphNode]) -> Search {
    let mut s = Search::default();
    for c in query.chars() {
        s.push(c, nodes);
    }
    s
}

#[test]
fn shows_the_query_and_one_row_per_match() {
    let nodes = vec![
        node("fix the parser", "ann"),
        node("unrelated", "bo"),
        node("parse the fixture", "cy"),
    ];
    let search = typed("parse", &nodes);
    let area = Rect::new(0, 0, 50, 20);
    let mut buf = empty(area);
    draw_search(&mut buf, area, &search, &nodes, 0);
    let text = text_of(&buf, area);
    assert!(text.contains("/parse"), "the query is echoed:\n{text}");
    assert!(text.contains("fix the parser"), "{text}");
    assert!(text.contains("parse the fixture"), "{text}");
    assert!(
        !text.contains("unrelated"),
        "a non-match must not be listed:\n{text}"
    );
    assert!(text.contains("ann"), "the author is shown too:\n{text}");
}

#[test]
fn the_box_is_only_as_tall_as_its_content() {
    let nodes = vec![node("alpha", "x"), node("alphabet", "y")];
    let search = typed("alpha", &nodes);
    let area = Rect::new(0, 0, 40, 20);
    let mut buf = filled(area, Cell::new("\u{2591}"));
    draw_search(&mut buf, area, &search, &nodes, 0);
    // Two borders, the query row and two match rows: five.
    let below = Rect::new(area.x, area.y + 5, area.width, area.height - 5);
    let untouched = "\u{2591}".repeat(below.width as usize);
    for line in text_of(&buf, below).lines() {
        assert_eq!(line, untouched, "row below the box was painted");
    }
}

#[test]
fn the_selected_match_is_reversed_and_the_others_are_not() {
    let nodes = vec![node("alpha", "x"), node("alphabet", "y")];
    let mut search = typed("alpha", &nodes);
    let area = Rect::new(0, 0, 40, 20);

    let mut buf = empty(area);
    draw_search(&mut buf, area, &search, &nodes, 0);
    // Row 0 is the top border, row 1 the query, row 2 the first match.
    let reversed = |buf: &Buffer, y: u16| {
        buf[(1, y)]
            .style()
            .add_modifier
            .contains(Modifier::REVERSED)
    };
    assert!(reversed(&buf, 2), "the first match starts highlighted");
    assert!(!reversed(&buf, 3), "the second match is not");

    search.next();
    let mut buf = empty(area);
    draw_search(&mut buf, area, &search, &nodes, 0);
    assert!(!reversed(&buf, 2), "the highlight moved off the first");
    assert!(reversed(&buf, 3), "and onto the second");
}

#[test]
fn a_query_that_matches_nothing_says_so() {
    let nodes = vec![node("alpha", "x")];
    let search = typed("zzzz", &nodes);
    let area = Rect::new(0, 0, 40, 20);
    let mut buf = empty(area);
    draw_search(&mut buf, area, &search, &nodes, 0);
    let text = text_of(&buf, area);
    assert!(text.contains("no matches"), "{text}");
}

#[test]
fn an_empty_query_does_not_complain() {
    let nodes = vec![node("alpha", "x")];
    let area = Rect::new(0, 0, 40, 20);
    let mut buf = empty(area);
    draw_search(&mut buf, area, &Search::default(), &nodes, 0);
    let text = text_of(&buf, area);
    assert!(!text.contains("no matches"), "{text}");
    assert!(text.contains('/'), "the prompt is still drawn:\n{text}");
}

#[test]
fn the_list_scrolls_to_keep_the_selection_visible() {
    let nodes: Vec<GraphNode> = (0..40)
        .map(|i| node(&format!("alpha commit {i:02}"), "x"))
        .collect();
    let mut search = typed("alpha", &nodes);
    assert_eq!(search.matches().len(), 40);
    for _ in 0..25 {
        search.next();
    }
    // 30 rows: the box gets its full cap. 11: a 24-row terminal's graph
    // pane. 6: room for the query row and two matches, no more.
    for height in [30u16, 11, 6] {
        let area = Rect::new(0, 0, 60, height);
        let mut buf = empty(area);
        draw_search(&mut buf, area, &search, &nodes, 0);
        let text = text_of(&buf, area);
        assert!(
            text.contains("alpha commit 25"),
            "the 26th match must be on screen in a {height}-row area:\n{text}"
        );
        assert!(
            !text.contains("alpha commit 00"),
            "the list scrolled past the first:\n{text}"
        );
    }
    let area = Rect::new(0, 0, 60, 30);
    let mut buf = empty(area);
    draw_search(&mut buf, area, &search, &nodes, 0);
    let text = text_of(&buf, area);
    assert!(
        text.contains("26/40"),
        "the count says what is hidden:\n{text}"
    );
}

#[test]
fn the_dropdown_paints_over_whatever_was_underneath_it() {
    let nodes = vec![node("alpha", "x"), node("alphabet", "y")];
    let search = typed("alpha", &nodes);
    let area = Rect::new(0, 0, 40, 20);
    let mut under = Cell::new("#");
    under.set_style(
        Style::default()
            .fg(Color::Rgb(0x11, 0x22, 0x33))
            .add_modifier(Modifier::REVERSED),
    );
    let mut buf = filled(area, under);
    draw_search(&mut buf, area, &search, &nodes, 0);

    // Two borders, the query row and two match rows.
    let rect = Rect::new(area.x, area.y, area.width, 5);
    for y in rect.y..rect.y + rect.height {
        for x in rect.x..rect.x + rect.width {
            assert_ne!(
                buf[(x, y)].symbol(),
                "#",
                "the graph showed through at ({x}, {y})"
            );
        }
    }
    // The graph's own highlight must not bleed through either. Row 2 is
    // the selected match and is legitimately reversed; the query row and
    // the unselected match row are not.
    for y in [1u16, 3] {
        for x in rect.x..rect.x + rect.width {
            assert!(
                !buf[(x, y)]
                    .style()
                    .add_modifier
                    .contains(Modifier::REVERSED),
                "the graph's REVERSED survived at ({x}, {y})"
            );
        }
    }
    // And the box did not clear more than it drew.
    assert_eq!(buf[(0, 5)].symbol(), "#", "the box grew past its content");
}

#[test]
fn the_status_says_how_much_history_was_not_searched() {
    let nodes = vec![node("alpha", "x"), node("alphabet", "y")];
    let area = Rect::new(0, 0, 60, 20);

    // With matches: the counter and the warning sit side by side.
    let search = typed("alpha", &nodes);
    let mut buf = empty(area);
    draw_search(&mut buf, area, &search, &nodes, 1_500);
    let text = text_of(&buf, area);
    assert!(text.contains("1/2"), "{text}");
    assert!(text.contains("1500 not loaded"), "{text}");

    // The case that matters most: nothing matched, and the reason may be
    // that the commit was never loaded rather than that it does not exist.
    let search = typed("zzzz", &nodes);
    let mut buf = empty(area);
    draw_search(&mut buf, area, &search, &nodes, 1_500);
    let text = text_of(&buf, area);
    assert!(text.contains("no matches"), "{text}");
    assert!(
        text.contains("1500 not loaded"),
        "a miss must not look final when the search was partial:\n{text}"
    );

    // A fully loaded graph says nothing, because there is nothing to say.
    let search = typed("alpha", &nodes);
    let mut buf = empty(area);
    draw_search(&mut buf, area, &search, &nodes, 0);
    let text = text_of(&buf, area);
    assert!(!text.contains("not loaded"), "{text}");
    assert!(text.contains("1/2"), "the counter still shows:\n{text}");
}

#[test]
fn a_narrow_box_keeps_the_counter_and_never_covers_the_query() {
    let nodes = vec![node("alpha", "x"), node("alphabet", "y")];
    let search = typed("alpha", &nodes);
    let area = Rect::new(0, 0, 22, 20);
    let mut buf = empty(area);
    draw_search(&mut buf, area, &search, &nodes, 1_500);
    let text = text_of(&buf, area);
    assert!(text.contains("/alpha"), "the query survives:\n{text}");
    assert!(text.contains("1/2"), "the counter still fits:\n{text}");
    assert!(
        !text.contains("not loaded"),
        "the long form does not fit and must be dropped, not clipped:\n{text}"
    );
}

#[test]
fn search_nothing_is_written_outside_the_area() {
    let nodes: Vec<GraphNode> = (0..30)
        .map(|i| node(&format!("alpha commit number {i:02}"), "some author"))
        .collect();
    let searches = [
        Search::default(),
        typed("zzzz", &nodes),
        typed("alpha", &nodes),
        {
            let mut s = typed("alpha", &nodes);
            for _ in 0..29 {
                s.next();
            }
            s
        },
    ];
    for (search, not_loaded) in searches.iter().zip([0usize, 7, 0, 12_345]) {
        for &(ox, oy) in &[(0u16, 0u16), (1, 1), (5, 3)] {
            for width in 0..=12u16 {
                for height in 0..=8u16 {
                    let area = Rect::new(ox, oy, width, height);
                    let full = Rect::new(
                        0,
                        0,
                        ox.saturating_add(width).saturating_add(3),
                        oy.saturating_add(height).saturating_add(3),
                    );
                    let mut buf = filled(full, Cell::new("\u{2591}"));
                    draw_search(&mut buf, area, search, &nodes, not_loaded);
                    for y in full.y..full.y + full.height {
                        for x in full.x..full.x + full.width {
                            if inside(area, x, y) {
                                continue;
                            }
                            assert_eq!(
                                buf[(x, y)].symbol(),
                                "\u{2591}",
                                "wrote to ({x}, {y}), outside {area:?}"
                            );
                        }
                    }
                }
            }
        }
    }
}
