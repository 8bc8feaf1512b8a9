//! The file diff view.
use asd::geometry::Rect;
use asd::git::diff::{DiffLine, FileDiff};
use asd::state::FileDiffState;
use asd::ui::file_diff::{draw_file_diff, expand_tabs, TAB_WIDTH};
use asd::ui::highlight::{Highlighter, Palette};
use asd::worker::{highlight_diff, HighlightedDiff, MAX_HIGHLIGHT_LINES};
use ratatui::buffer::{Buffer, Cell};
use ratatui::style::Color;

/// The colour of line numbers.
const NUM: Color = Color::Rgb(0x5A, 0x64, 0x72);

/// The same rectangle for the buffer.
fn screen(area: Rect) -> ratatui::layout::Rect {
    ratatui::layout::Rect::new(area.x, area.y, area.width, area.height)
}

/// An empty buffer that covers an area.
fn empty(area: Rect) -> Buffer {
    Buffer::empty(screen(area))
}

/// A buffer that covers an area with one cell all over.
fn filled(area: Rect, cell: Cell) -> Buffer {
    Buffer::filled(screen(area), cell)
}

/// Whether a cell is in an area.
fn inside(area: Rect, x: u16, y: u16) -> bool {
    x >= area.x && x < area.x + area.width && y >= area.y && y < area.y + area.height
}

/// Every symbol in `area`, row by row, as one string.
fn buffer_text(buf: &Buffer, area: Rect) -> String {
    (0..area.height)
        .flat_map(|y| (0..area.width).map(move |x| (x, y)))
        .map(|(x, y)| buf[(x, y)].symbol().to_string())
        .collect()
}

/// A diff with one of each row shape, plus a wide-glyph line.
fn sample_lines() -> Vec<DiffLine> {
    vec![
        DiffLine::Context {
            old: 1,
            new: 1,
            text: "fn main() {".to_string(),
        },
        DiffLine::Removed {
            old: 2,
            text: "\tlet x = 1;".to_string(),
        },
        DiffLine::Added {
            new: 2,
            text: "\tlet x = 2;".to_string(),
        },
        DiffLine::Context {
            old: 3,
            new: 3,
            text: "    // 中文注释 with wide glyphs".to_string(),
        },
    ]
}

fn sample(path: &str) -> HighlightedDiff {
    let diff = FileDiff {
        path: path.to_string(),
        lines: sample_lines(),
        binary: false,
        truncated: false,
    };
    let palette = Palette::load();
    let mut hl = Highlighter::new(&palette);
    let spans = diff
        .lines
        .iter()
        .map(|l| match l {
            DiffLine::Context { text, .. }
            | DiffLine::Added { text, .. }
            | DiffLine::Removed { text, .. } => hl.line(path, text),
        })
        .collect();
    HighlightedDiff::new(diff, spans)
}

#[test]
fn the_gutter_carries_both_files_line_numbers() {
    let state = FileDiffState::Ready(sample("a.rs"));
    let area = Rect::new(0, 0, 60, 8);
    let mut buf = empty(area);
    draw_file_diff(&mut buf, area, &state, 0);
    let text = buffer_text(&buf, area);

    assert!(text.contains("a.rs"), "the path is the title: {text:?}");
    assert!(text.contains("fn main() {"), "{text:?}");
    assert!(
        text.contains("2   - "),
        "a removal is numbered on the old side only: {text:?}"
    );
    assert!(
        text.contains("  2 + "),
        "an addition on the new side only: {text:?}"
    );
}

#[test]
fn the_spans_are_painted_with_the_colours_the_worker_computed() {
    // The view paints styles that were computed before. If it fell back to plain text, every cell would be default.
    let area = Rect::new(0, 0, 60, 8);
    // Everything but the border and the gutter, on the first content row.
    let text_colours = |buf: &Buffer| {
        (1..area.width - 1)
            .filter(|&x| {
                let cell = &buf[(x, 1)];
                cell.symbol() != " " && cell.fg != Color::Reset && cell.fg != NUM
            })
            .count()
    };

    let mut buf = empty(area);
    draw_file_diff(&mut buf, area, &FileDiffState::Ready(sample("a.rs")), 0);
    assert!(
        text_colours(&buf) > 0,
        "the first diff row must carry syntect's colours"
    );

    // The control, so the assertion above cannot pass on the border or on
    // the gutter: with no spans the same row is painted from plain text
    // and carries no colour at all.
    let mut bare = sample("a.rs");
    bare.spans.clear();
    let mut buf = empty(area);
    draw_file_diff(&mut buf, area, &FileDiffState::Ready(bare), 0);
    assert_eq!(text_colours(&buf), 0, "the fallback paints no colours");
}

#[test]
fn a_tab_indented_line_keeps_its_indentation() {
    // `put` measures with unicode-width, which gives a tab no width, so an
    // unexpanded tab is dropped and the line comes out flush against the
    // gutter.
    let state = FileDiffState::Ready(sample("a.rs"));
    let area = Rect::new(0, 0, 60, 8);
    let mut buf = empty(area);
    draw_file_diff(&mut buf, area, &state, 0);
    let text = buffer_text(&buf, area);
    assert!(
        text.contains(&format!("{}let x = 1;", " ".repeat(TAB_WIDTH))),
        "the tab must become spaces: {text:?}"
    );
}

#[test]
fn a_line_with_no_spans_is_still_painted() {
    // Past MAX_HIGHLIGHT_LINES the spans run out. The text must still be
    // there — unstyled, but numbered and readable.
    let mut h = sample("a.rs");
    h.spans.clear();
    let state = FileDiffState::Ready(h);
    let area = Rect::new(0, 0, 60, 8);
    let mut buf = empty(area);
    draw_file_diff(&mut buf, area, &state, 0);
    let text = buffer_text(&buf, area);
    assert!(text.contains("fn main() {"), "{text:?}");
}

#[test]
fn scrolling_moves_the_window_and_stops_at_the_end() {
    let state = FileDiffState::Ready(sample("a.rs"));
    let area = Rect::new(0, 0, 60, 8);
    let mut buf = empty(area);
    draw_file_diff(&mut buf, area, &state, 2);
    let text = buffer_text(&buf, area);
    assert!(!text.contains("fn main() {"), "scrolled past: {text:?}");
    assert!(text.contains("let x = 2;"), "{text:?}");

    // Past the end is empty, not a panic.
    let mut buf = empty(area);
    draw_file_diff(&mut buf, area, &state, usize::MAX);
}

#[test]
fn the_states_that_are_not_a_diff_say_so() {
    let area = Rect::new(0, 0, 40, 6);
    for (state, want) in [
        (FileDiffState::Loading("a.rs".into()), "Loading"),
        (FileDiffState::Failed("no such path".into()), "no such path"),
    ] {
        let mut buf = empty(area);
        draw_file_diff(&mut buf, area, &state, 0);
        let text = buffer_text(&buf, area);
        assert!(text.contains(want), "{state:?} rendered as {text:?}");
    }

    let mut binary = sample("a.bin");
    binary.diff.binary = true;
    binary.diff.lines.clear();
    binary.spans.clear();
    let mut buf = empty(area);
    draw_file_diff(&mut buf, area, &FileDiffState::Ready(binary), 0);
    assert!(buffer_text(&buf, area).contains("binary file"));
}

#[test]
fn a_truncated_diff_says_so_on_its_last_row() {
    let mut h = sample("a.rs");
    h.diff.truncated = true;
    let area = Rect::new(0, 0, 40, 6);
    let mut buf = empty(area);
    draw_file_diff(&mut buf, area, &FileDiffState::Ready(h), 0);
    assert!(buffer_text(&buf, area).contains("truncated"));
}

#[test]
fn file_diff_rendering_at_any_size_does_not_panic() {
    let mut wide = sample("a.rs");
    wide.diff.truncated = true;
    let states = [
        FileDiffState::Closed,
        FileDiffState::Loading("some/deep/path/a.rs".into()),
        FileDiffState::Failed("a failure message longer than any of these areas".into()),
        FileDiffState::Ready(sample("a.rs")),
        FileDiffState::Ready(wide),
    ];
    for state in &states {
        for &(ox, oy) in &[(0u16, 0u16), (1, 1), (5, 3)] {
            for width in 0..=12u16 {
                for height in 0..=6u16 {
                    let area = Rect::new(ox, oy, width, height);
                    // Sized to the minimum that still contains `area`,
                    // which is ratatui's own indexing precondition.
                    let mut buf = empty(Rect::new(
                        0,
                        0,
                        ox.saturating_add(width),
                        oy.saturating_add(height),
                    ));
                    for scroll in [0usize, 1, 3, usize::MAX] {
                        draw_file_diff(&mut buf, area, state, scroll);
                    }
                }
            }
        }
    }
}

#[test]
fn file_diff_nothing_is_written_outside_the_area() {
    let states = [
        FileDiffState::Loading("some/deep/path/a.rs".into()),
        FileDiffState::Failed("a failure message longer than any of these areas".into()),
        FileDiffState::Ready(sample("a.rs")),
    ];
    for state in &states {
        for &(ox, oy) in &[(0u16, 0u16), (1, 1), (5, 3)] {
            for width in 0..=12u16 {
                for height in 0..=6u16 {
                    let area = Rect::new(ox, oy, width, height);
                    let full = Rect::new(
                        0,
                        0,
                        ox.saturating_add(width).saturating_add(3),
                        oy.saturating_add(height).saturating_add(3),
                    );
                    let mut buf = filled(full, Cell::new("\u{2591}"));
                    draw_file_diff(&mut buf, area, state, 0);
                    for y in full.y..full.y + full.height {
                        for x in full.x..full.x + full.width {
                            if inside(area, x, y) {
                                continue;
                            }
                            assert_eq!(
                                buf[(x, y)].symbol(),
                                "\u{2591}",
                                "wrote to ({x}, {y}), outside {area:?}"
                            );
                        }
                    }
                }
            }
        }
    }
}

#[test]
fn tabs_become_blanks() {
    assert_eq!(TAB_WIDTH, 4);
    assert_eq!(expand_tabs("\ta\tb"), "    a    b");
    assert_eq!(expand_tabs("plain"), "plain");
}

#[test]
fn only_so_many_lines_are_highlighted() {
    let lines: Vec<DiffLine> = (0..MAX_HIGHLIGHT_LINES + 10)
        .map(|i| DiffLine::Added {
            new: i as u32 + 1,
            text: "let x = 1;".to_string(),
        })
        .collect();
    let palette = Palette::load();
    let mut hl = Highlighter::new(&palette);
    let h = highlight_diff(
        &mut hl,
        FileDiff {
            path: "a.rs".to_string(),
            lines,
            binary: false,
            truncated: false,
        },
    );
    assert_eq!(h.diff.lines.len(), MAX_HIGHLIGHT_LINES + 10);
    assert_eq!(h.spans.len(), MAX_HIGHLIGHT_LINES);
    assert!(h.spans[0].len() > 1, "the lines carry syntax colours");
}
