//! The commit detail pane.
use asd::geometry::Rect;
use asd::git::commit::{CommitInfo, ObjectId};
use asd::git::diff::{CommitDiff, FileChange, FileStat};
use asd::screen::{can_count, Span, TextLine};
use asd::state::DetailState;
use asd::style::Style;
use asd::ui::commit_detail::{
    draw_detail, format_stamp, format_time, format_time_at, EARLIEST, LATEST, YEAR_0, YEAR_10000,
};
use ratatui::buffer::{Buffer, Cell};

/// When the commit was made, as the pane shows it.
const DATE: &str = "2023-11-14 22:13";

/// The same rectangle for the buffer.
fn screen(area: Rect) -> ratatui::layout::Rect {
    ratatui::layout::Rect::new(area.x, area.y, area.width, area.height)
}

/// An empty buffer that covers an area.
fn empty(area: Rect) -> Buffer {
    Buffer::empty(screen(area))
}

/// A buffer that covers an area with one cell all over.
fn filled(area: Rect, cell: Cell) -> Buffer {
    Buffer::filled(screen(area), cell)
}

/// Whether a cell is in an area.
fn inside(area: Rect, x: u16, y: u16) -> bool {
    x >= area.x && x < area.x + area.width && y >= area.y && y < area.y + area.height
}

/// What an area shows, row by row.
fn text_of(buf: &Buffer, area: Rect) -> String {
    (area.y..area.y + area.height)
        .map(|y| {
            (area.x..area.x + area.width)
                .map(|x| buf[(x, y)].symbol().to_string())
                .collect::<String>()
        })
        .collect::<Vec<_>>()
        .join("\n")
}

/// The name of the empty blob.
fn blob() -> ObjectId {
    ObjectId {
        high: 0xe69d_e29b_b2d1_d643,
        middle: 0x4b8b_29ae_775a_d8c2,
        low: 0xe48c_5391,
    }
}

fn commit() -> CommitInfo {
    CommitInfo {
        id: blob(),
        parents: Vec::new(),
        body: String::new(),
        summary: "a short summary".into(),
        author: "asd test".into(),
        time: 1_700_000_000,
    }
}

#[test]
fn full_commit_body_is_shown_as_markdown_and_can_scroll() {
    let commit = CommitInfo {
        summary: "Subject".into(),
        body: "## Details\n\n- **Important** change\n- `inline_code` and &lt;tag&gt;\n\n> quoted text\n\n```rust\nlet value = 42;\n```\n\nSigned-off-by: Test User"
            .into(),
        ..commit()
    };
    let area = Rect::new(0, 0, 60, 24);
    let mut buf = empty(area);
    let rows = draw_detail(
        &mut buf,
        area,
        Some(&commit),
        DATE,
        &DetailState::Loading,
        0,
        true,
    );
    let text = text_of(&buf, area);
    assert!(text.contains("Important"), "body is missing: {text}");
    assert!(text.contains("let value = 42;"));
    assert!(text.contains("<tag>"));
    assert!(!text.contains("**Important**"));
    assert!(!text.contains("## Details"));
    assert!(rows > 6);
    let small = Rect::new(0, 0, 28, 6);
    let mut tail = empty(small);
    let small_rows = draw_detail(
        &mut tail,
        small,
        Some(&commit),
        DATE,
        &DetailState::Loading,
        0,
        true,
    );
    draw_detail(
        &mut tail,
        small,
        Some(&commit),
        DATE,
        &DetailState::Loading,
        small_rows.saturating_sub(4),
        true,
    );
    assert!(text_of(&tail, small).contains("Test User"));
}

#[test]
fn shows_the_hash_author_and_summary() {
    let area = Rect::new(0, 0, 50, 10);
    let mut buf = empty(area);
    draw_detail(
        &mut buf,
        area,
        Some(&commit()),
        DATE,
        &DetailState::Loading,
        0,
        false,
    );
    let text = text_of(&buf, area);
    assert!(text.contains("asd test"), "{text}");
    assert!(text.contains("a short summary"), "{text}");
    assert!(
        text.contains("e69de29"),
        "abbreviated hash missing:\n{text}"
    );
}

#[test]
fn says_loading_until_the_diff_arrives() {
    let area = Rect::new(0, 0, 50, 10);
    let mut buf = empty(area);
    draw_detail(
        &mut buf,
        area,
        Some(&commit()),
        DATE,
        &DetailState::Loading,
        0,
        false,
    );
    assert!(
        text_of(&buf, area).contains("Loading"),
        "{}",
        text_of(&buf, area)
    );
}

#[test]
fn shows_the_totals_once_ready() {
    let area = Rect::new(0, 0, 50, 10);
    let mut buf = empty(area);
    let diff = CommitDiff {
        files: vec![FileStat {
            path: "a.txt".into(),
            stage: None,
            change: FileChange::Modified,
            insertions: 3,
            removals: 1,
            binary: false,
            unreadable: None,
        }],
        insertions: 3,
        removals: 1,
    };
    draw_detail(
        &mut buf,
        area,
        Some(&commit()),
        DATE,
        &DetailState::Ready(diff),
        0,
        false,
    );
    let text = text_of(&buf, area);
    assert!(text.contains("1 file"), "{text}");
    assert!(text.contains("+3"), "{text}");
    assert!(text.contains("-1"), "{text}");
}

#[test]
fn a_worker_failure_is_shown_without_hiding_the_commit() {
    let area = Rect::new(0, 0, 50, 10);
    let mut buf = empty(area);
    draw_detail(
        &mut buf,
        area,
        Some(&commit()),
        DATE,
        &DetailState::Failed("object missing".into()),
        0,
        false,
    );
    let text = text_of(&buf, area);
    assert!(text.contains("object missing"), "{text}");
    assert!(
        text.contains("asd test"),
        "the commit's own facts survive:\n{text}"
    );
}

#[test]
fn a_connector_row_draws_nothing_and_does_not_panic() {
    let area = Rect::new(0, 0, 50, 10);
    let mut buf = empty(area);
    draw_detail(
        &mut buf,
        area,
        None,
        DATE,
        &DetailState::Loading,
        0,
        false,
    );
    // The border still renders, but with no commit to show, what it encloses
    // stays blank.
    let inner = Rect::new(area.x + 1, area.y + 1, area.width - 2, area.height - 2);
    assert_eq!(text_of(&buf, inner).trim(), "");
}

#[test]
fn every_small_area_and_scroll_offset_is_safe() {
    for &(ox, oy) in &[(0u16, 0u16), (2, 1), (5, 3)] {
        for w in 0..14u16 {
            for h in 0..8u16 {
                for scroll in [0usize, 1, 50] {
                    let area = Rect::new(ox, oy, w, h);
                    let full = Rect::new(
                        0,
                        0,
                        ox.saturating_add(w).saturating_add(3),
                        oy.saturating_add(h).saturating_add(3),
                    );
                    let mut buf = filled(full, Cell::new("\u{2591}"));
                    draw_detail(
                        &mut buf,
                        area,
                        Some(&commit()),
                        DATE,
                        &DetailState::Loading,
                        scroll,
                        true,
                    );
                    for y in full.y..full.y + full.height {
                        for x in full.x..full.x + full.width {
                            if inside(area, x, y) {
                                continue;
                            }
                            assert_eq!(
                                buf[(x, y)].symbol(),
                                "\u{2591}",
                                "wrote to ({x}, {y}), outside {area:?}"
                            );
                        }
                    }
                }
            }
        }
    }
}

#[test]
fn a_time_is_shown_to_the_minute() {
    let shown = format_time(1_700_000_000);
    // Whatever the machine's zone, the digits stand in the same places.
    assert_eq!(shown.len(), "2023-11-14 22:13".len());
    assert!(shown.starts_with("2023-11-1"), "{shown}");
    assert_eq!(&shown[10..11], " ");
    assert_eq!(&shown[13..14], ":");
    assert_eq!(format_time(i64::MAX), "(unknown time)");
    for (known, unknown) in [(EARLIEST, EARLIEST - 1), (LATEST, LATEST + 1)] {
        assert_ne!(format_time(known), "(unknown time)");
        assert_eq!(format_time(unknown), "(unknown time)");
    }
    assert_eq!(format_stamp(None), "(unknown time)");
    assert_eq!(format_stamp(Some(DATE.to_string())), DATE);
}

#[test]
fn a_time_is_told_in_the_zone_it_is_asked_in() {
    assert_eq!(format_time_at(0, 0), "1970-01-01 00:00");
    assert_eq!(format_time_at(1_700_000_000, 0), "2023-11-14 22:13");
    assert_eq!(format_time_at(1_700_000_000, 2 * 3600), "2023-11-15 00:13");
    assert_eq!(format_time_at(-1, 0), "1969-12-31 23:59");
    assert_eq!(format_time_at(-1, -86_399), "1969-12-31 00:00");
    // Four digits hold the years from 0 to 9999.
    assert_eq!(format_time_at(YEAR_0, 0), "0000-01-01 00:00");
    assert_eq!(format_time_at(YEAR_0 - 1, 0), "-0001-12-31 23:59");
    assert_eq!(format_time_at(YEAR_10000 - 1, 0), "9999-12-31 23:59");
    assert_eq!(format_time_at(YEAR_10000, 0), "+10000-01-01 00:00");
    assert_eq!(format_time_at(EARLIEST, 0), "-262143-01-01 00:00");
    assert_eq!(format_time_at(EARLIEST, -60), "-262144-12-31 23:59");
    assert_eq!(format_time_at(LATEST, 0), "+262142-12-31 23:59");
    assert_eq!(format_time_at(LATEST, 60), "+262143-01-01 00:00");
    for (seconds, offset) in [(EARLIEST - 1, 0), (LATEST + 1, 0), (0, 86_400), (0, -86_400)] {
        assert_eq!(format_time_at(seconds, offset), "(unknown time)");
    }
}

#[test]
fn a_cluster_too_wide_to_count_is_told_apart() {
    let line = |text: String| {
        vec![TextLine {
            spans: vec![Span {
                style: Style::default(),
                text,
            }],
        }]
    };
    // Leading consonants join into one cluster, two columns each.
    assert!(can_count(&line("\u{1100}".repeat(32_767))));
    assert!(!can_count(&line("\u{1100}".repeat(32_768))));
    // Letters are clusters of their own, and marks take no columns.
    assert!(can_count(&line("x".repeat(70_000))));
    assert!(can_count(&line(format!("x{}", "\u{301}".repeat(70_000)))));
}

#[test]
fn a_summary_of_one_enormous_cluster_is_shown_as_an_ellipsis() {
    let area = Rect::new(0, 0, 20, 12);
    let mut buf = empty(area);
    let wide = CommitInfo {
        summary: "\u{1100}".repeat(32_768),
        ..commit()
    };
    draw_detail(&mut buf, area, Some(&wide), DATE, &DetailState::Loading, 0, false);
    let text = text_of(&buf, area);
    assert!(text.contains("Author"), "{text}");
    assert!(text.contains('…'), "{text}");
}

#[test]
fn the_date_is_shown_with_the_commit() {
    let area = Rect::new(0, 0, 50, 10);
    let mut buf = empty(area);
    draw_detail(&mut buf, area, Some(&commit()), DATE, &DetailState::Loading, 0, false);
    let text = text_of(&buf, area);
    assert!(text.contains(DATE), "{text}");
}
