//! The rows of the graph, painted.
use asd::geometry::Rect;
use asd::git::commit::{CommitInfo, ObjectId};
use asd::git::graph::{CellType, GraphNode};
use asd::git::refs::{Decorated, RefInfo, RefKind};
use asd::ui::graph_view::{cell_glyph, draw_message, draw_rows, RefToggles};
use ratatui::buffer::Buffer;

/// The same rectangle for the buffer.
fn screen(area: Rect) -> ratatui::layout::Rect {
    ratatui::layout::Rect::new(area.x, area.y, area.width, area.height)
}

/// An empty buffer that covers an area.
fn empty(area: Rect) -> Buffer {
    Buffer::empty(screen(area))
}

/// The name of the empty blob.
fn blob() -> ObjectId {
    ObjectId {
        high: 0xe69d_e29b_b2d1_d643,
        middle: 0x4b8b_29ae_775a_d8c2,
        low: 0xe48c_5391,
    }
}

fn node(summary: &str, lane: usize, cells: Vec<CellType>) -> GraphNode {
    GraphNode {
        commit: Some(CommitInfo {
            id: blob(),
            parents: Vec::new(),
            summary: summary.to_string(),
            body: String::new(),
            author: "asd test".into(),
            time: 1_700_000_000,
        }),
        lane,
        color_index: 0,
        cells,
        uncommitted: None,
    }
}

#[test]
fn glyphs_match_the_cell_vocabulary() {
    assert_eq!(cell_glyph(CellType::Empty), ' ');
    assert_eq!(cell_glyph(CellType::Pipe(0)), '│');
    assert_eq!(cell_glyph(CellType::Commit(0)), '●');
    assert_eq!(cell_glyph(CellType::BranchRight(0)), '╭');
    assert_eq!(cell_glyph(CellType::BranchLeft(0)), '╮');
    assert_eq!(cell_glyph(CellType::MergeLeft(0)), '╯');
    assert_eq!(cell_glyph(CellType::Horizontal(0)), '─');
    assert_eq!(cell_glyph(CellType::HorizontalPipe(0, 0)), '┼');
    assert_eq!(cell_glyph(CellType::TeeRight(0)), '├');
    assert_eq!(cell_glyph(CellType::TeeLeft(0)), '┤');
    assert_eq!(cell_glyph(CellType::TeeDown(0, 0)), '┬');
    assert_eq!(cell_glyph(CellType::TeeUp(0, 0)), '┴');
}

#[test]
fn the_toggles_hide_only_their_own_kind_of_decoration() {
    let commit_id = blob();
    let mut row = node("hello world", 0, vec![CellType::Commit(0)]);
    row.commit.as_mut().unwrap().id = commit_id;
    let nodes = vec![row];

    let decorations = vec![Decorated {
        commit: commit_id,
        refs: vec![
            RefInfo {
                name: "main".to_string(),
                target: commit_id,
                kind: RefKind::LocalBranch,
            },
            RefInfo {
                name: "origin/main".to_string(),
                target: commit_id,
                kind: RefKind::RemoteBranch,
            },
            RefInfo {
                name: "v1".to_string(),
                target: commit_id,
                kind: RefKind::Tag,
            },
        ],
    }];
    let area = Rect::new(0, 0, 60, 3);

    let text = |show_remotes, show_tags| {
        let mut buf = empty(area);
        draw_rows(
            &mut buf,
            area,
            &nodes,
            &decorations,
            RefToggles {
                show_remotes,
                show_tags,
            },
            0,
            0,
        );
        (0..area.width)
            .map(|x| buf[(x, 0)].symbol().to_string())
            .collect::<String>()
    };

    let both = text(true, true);
    assert!(both.contains("[main]"), "{both:?}");
    assert!(both.contains("[origin/main]"), "{both:?}");
    assert!(both.contains("(v1)"), "{both:?}");

    let no_remotes = text(false, true);
    assert!(no_remotes.contains("[main]"), "{no_remotes:?}");
    assert!(!no_remotes.contains("origin/main"), "{no_remotes:?}");
    assert!(no_remotes.contains("(v1)"), "{no_remotes:?}");

    let no_tags = text(true, false);
    assert!(no_tags.contains("[main]"), "{no_tags:?}");
    assert!(no_tags.contains("[origin/main]"), "{no_tags:?}");
    assert!(!no_tags.contains("v1"), "{no_tags:?}");

    let neither = text(false, false);
    assert!(
        neither.contains("[main]"),
        "a local branch survives both toggles off: {neither:?}"
    );
    assert!(!neither.contains("origin/main"), "{neither:?}");
    assert!(!neither.contains("v1"), "{neither:?}");
}

#[test]
fn draws_the_marker_and_the_summary() {
    let nodes = vec![node("hello world", 0, vec![CellType::Commit(0)])];
    let area = Rect::new(0, 0, 40, 3);
    let mut buf = empty(area);
    draw_rows(
        &mut buf,
        area,
        &nodes,
        &Vec::new(),
        RefToggles {
            show_remotes: true,
            show_tags: true,
        },
        0,
        0,
    );

    let row: String = (0..40)
        .map(|x| buf[(x, 0)].symbol().to_string())
        .collect::<Vec<_>>()
        .join("");
    assert!(row.starts_with('●'), "row starts with the marker: {row:?}");
    assert!(
        row.contains("hello world"),
        "row carries the summary: {row:?}"
    );
}

#[test]
fn the_uncommitted_row_draws_its_marker_and_count_not_a_summary() {
    let uncommitted_row = GraphNode {
        commit: None,
        lane: 0,
        color_index: 0,
        cells: vec![CellType::Commit(0)],
        uncommitted: Some(3),
    };
    let nodes = vec![uncommitted_row];
    let area = Rect::new(0, 0, 40, 3);
    let mut buf = empty(area);
    draw_rows(
        &mut buf,
        area,
        &nodes,
        &Vec::new(),
        RefToggles {
            show_remotes: true,
            show_tags: true,
        },
        0,
        0,
    );

    let row: String = (0..40)
        .map(|x| buf[(x, 0)].symbol().to_string())
        .collect::<Vec<_>>()
        .join("");
    assert!(row.starts_with('●'), "row starts with the marker: {row:?}");
    assert!(
        row.contains("3 uncommitted changes"),
        "row carries the count: {row:?}"
    );
}

#[test]
fn a_row_wider_than_the_area_is_truncated_not_sliced() {
    // A graph deeper than the pane is wide must not panic and must not
    // write outside the area.
    let cells = vec![CellType::Pipe(0); 200];
    let nodes = vec![node("deep", 0, cells)];
    let area = Rect::new(0, 0, 10, 1);
    let mut buf = empty(area);
    draw_rows(
        &mut buf,
        area,
        &nodes,
        &Vec::new(),
        RefToggles {
            show_remotes: true,
            show_tags: true,
        },
        0,
        0,
    );
    // Reaching here without a panic is the assertion.
    assert_eq!(buf.area().width, 10);
}

#[test]
fn scrolling_past_the_end_draws_nothing_and_does_not_panic() {
    let nodes = vec![node("only", 0, vec![CellType::Commit(0)])];
    let area = Rect::new(0, 0, 20, 4);
    let mut buf = empty(area);
    draw_rows(
        &mut buf,
        area,
        &nodes,
        &Vec::new(),
        RefToggles {
            show_remotes: true,
            show_tags: true,
        },
        99,
        99,
    );
    let row: String = (0..20)
        .map(|x| buf[(x, 0)].symbol().to_string())
        .collect::<Vec<_>>()
        .join("");
    assert_eq!(row.trim(), "", "nothing is drawn past the end: {row:?}");
}

#[test]
fn graph_view_a_zero_sized_area_draws_nothing() {
    let nodes = vec![node("only", 0, vec![CellType::Commit(0)])];
    let area = Rect::new(0, 0, 0, 0);
    let mut buf = empty(Rect::new(0, 0, 10, 2));
    draw_rows(
        &mut buf,
        area,
        &nodes,
        &Vec::new(),
        RefToggles {
            show_remotes: true,
            show_tags: true,
        },
        0,
        0,
    );
    assert_eq!(buf[(0, 0)].symbol(), " ");
}

#[test]
fn no_area_from_zero_to_12x6_at_several_origins_panics_on_a_realistic_row_set() {
    let commit_id = blob();
    let wide_row = GraphNode {
        commit: Some(CommitInfo {
            id: commit_id,
            parents: Vec::new(),
            summary: "a summary far longer than any area under test in this sweep loop"
                .to_string(),
            body: String::new(),
            author: "asd test".into(),
            time: 1_700_000_000,
        }),
        lane: 3,
        color_index: 5,
        cells: vec![
            CellType::Pipe(0),
            CellType::TeeDown(1, 2),
            CellType::HorizontalPipe(3, 4),
            CellType::Commit(5),
            CellType::BranchLeft(6),
            CellType::TeeUp(7, 8),
            CellType::MergeLeft(9),
            CellType::Horizontal(10),
        ],
        uncommitted: None,
    };
    let connector_row = GraphNode {
        commit: None,
        lane: 0,
        color_index: 0,
        cells: vec![
            CellType::TeeRight(0),
            CellType::TeeUp(0, 1),
            CellType::MergeLeft(0),
        ],
        uncommitted: None,
    };
    // A double-width CJK summary: `put` is the only path arbitrary text
    // flows through (the fixed glyph vocabulary is all narrow, see the
    // note on `cell_glyph`), and a wide glyph straddling the right edge
    // of a narrow area is a real case for user-supplied commit text.
    let cjk_row = node("宽字符摘要超长提交信息行", 0, vec![CellType::Commit(0)]);
    // The synthetic uncommitted-changes row: no commit, so it takes the
    // same early-return path as `connector_row`, but writes a label
    // `connector_row` does not, which is new render logic this sweep
    // needs to cover independently.
    let uncommitted_row = GraphNode {
        commit: None,
        lane: 0,
        color_index: 0,
        cells: vec![CellType::Commit(0)],
        uncommitted: Some(12),
    };
    let nodes = vec![wide_row, connector_row, cjk_row, uncommitted_row];

    let decorations = vec![Decorated {
        commit: commit_id,
        refs: vec![
            RefInfo {
                name: "main".to_string(),
                target: commit_id,
                kind: RefKind::LocalBranch,
            },
            RefInfo {
                name: "origin/main".to_string(),
                target: commit_id,
                kind: RefKind::RemoteBranch,
            },
            RefInfo {
                name: "v1.2".to_string(),
                target: commit_id,
                kind: RefKind::Tag,
            },
        ],
    }];

    for &ox in &[0u16, 1, 5] {
        for &oy in &[0u16, 1, 3] {
            for width in 0..=12u16 {
                for height in 0..=6u16 {
                    let area = Rect::new(ox, oy, width, height);
                    // Sized to the minimum that still contains `area`:
                    // ratatui's indexing precondition, which is what the
                    // whole panic-safety argument for `put`'s clamping
                    // rests on.
                    let mut buf = empty(Rect::new(
                        0,
                        0,
                        ox.saturating_add(width),
                        oy.saturating_add(height),
                    ));
                    draw_rows(
                        &mut buf,
                        area,
                        &nodes,
                        &decorations,
                        RefToggles {
                            show_remotes: true,
                            show_tags: true,
                        },
                        0,
                        0,
                    );
                    draw_rows(
                        &mut buf,
                        area,
                        &nodes,
                        &decorations,
                        RefToggles {
                            show_remotes: true,
                            show_tags: true,
                        },
                        1,
                        2,
                    );
                    draw_rows(
                        &mut buf,
                        area,
                        &nodes,
                        &decorations,
                        RefToggles {
                            show_remotes: true,
                            show_tags: true,
                        },
                        50,
                        50,
                    );
                }
            }
        }
    }
    // Reaching here without a panic is the assertion.
}

#[test]
fn a_message_stands_in_the_middle_of_its_area() {
    let area = Rect::new(0, 0, 20, 5);
    let mut buf = empty(area);
    draw_message(&mut buf, area, "nothing here");
    let row: String = (0..20).map(|x| buf[(x, 2)].symbol().to_string()).collect();
    assert_eq!(row, "    nothing here    ");
}
