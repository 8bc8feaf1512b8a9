//! The changed-files pane.
use asd::geometry::Rect;
use asd::git::diff::{CommitDiff, FileChange, FileStat};
use asd::git::working::WorktreeStage;
use asd::state::DetailState;
use asd::ui::file_list::{draw_files, fit_path, marker};
use ratatui::buffer::{Buffer, Cell};

/// The same rectangle for the buffer.
fn screen(area: Rect) -> ratatui::layout::Rect {
    ratatui::layout::Rect::new(area.x, area.y, area.width, area.height)
}

/// An empty buffer that covers an area.
fn empty(area: Rect) -> Buffer {
    Buffer::empty(screen(area))
}

/// A buffer that covers an area with one cell all over.
fn filled(area: Rect, cell: Cell) -> Buffer {
    Buffer::filled(screen(area), cell)
}

/// Whether a cell is in an area.
fn inside(area: Rect, x: u16, y: u16) -> bool {
    x >= area.x && x < area.x + area.width && y >= area.y && y < area.y + area.height
}

/// What an area shows, row by row.
fn text_of(buf: &Buffer, area: Rect) -> String {
    (area.y..area.y + area.height)
        .map(|y| {
            (area.x..area.x + area.width)
                .map(|x| buf[(x, y)].symbol().to_string())
                .collect::<String>()
        })
        .collect::<Vec<_>>()
        .join("\n")
}

fn ready(files: Vec<FileStat>) -> DetailState {
    let insertions = files.iter().map(|f| f.insertions).sum();
    let removals = files.iter().map(|f| f.removals).sum();
    DetailState::Ready(CommitDiff {
        files,
        insertions,
        removals,
    })
}

fn stat(path: &str, change: FileChange, ins: u32, rem: u32) -> FileStat {
    FileStat {
        path: path.into(),
        stage: None,
        change,
        insertions: ins,
        removals: rem,
        binary: false,
        unreadable: None,
    }
}

#[test]
fn lists_each_file_with_its_marker_and_counts() {
    let area = Rect::new(0, 0, 50, 8);
    let mut buf = empty(area);
    let d = ready(vec![
        stat("a.txt", FileChange::Modified, 3, 1),
        stat("b.txt", FileChange::Added, 7, 0),
    ]);
    draw_files(&mut buf, area, &d, 0, 0, false);
    let text = text_of(&buf, area);
    assert!(text.contains("M  a.txt"), "{text}");
    assert!(text.contains("A  b.txt"), "{text}");
    assert!(text.contains("+3"), "{text}");
    assert!(text.contains("-1"), "{text}");
}

#[test]
fn a_binary_file_says_so_instead_of_showing_zero_counts() {
    let area = Rect::new(0, 0, 50, 6);
    let mut buf = empty(area);
    let mut s = stat("b.bin", FileChange::Added, 0, 0);
    s.binary = true;
    draw_files(&mut buf, area, &ready(vec![s]), 0, 0, false);
    assert!(
        text_of(&buf, area).contains("binary"),
        "{}",
        text_of(&buf, area)
    );
}

#[test]
fn an_unreadable_file_says_so_instead_of_showing_zero_counts() {
    let area = Rect::new(0, 0, 50, 6);
    let mut buf = empty(area);
    let mut bad = stat("a.txt", FileChange::Modified, 0, 0);
    bad.unreadable = Some("reading a file's blobs: loose object".into());
    let good = stat("b.txt", FileChange::Modified, 3, 1);
    draw_files(&mut buf, area, &ready(vec![bad, good]), 0, 0, false);
    let text = text_of(&buf, area);
    assert!(text.contains("unreadable"), "{text}");
    assert!(!text.contains("+0"), "no invented counts: {text}");
    assert!(text.contains("b.txt"), "the other file survives: {text}");
    assert!(text.contains("+3"), "with its own counts: {text}");
}

#[test]
fn a_long_path_is_truncated_from_the_left_so_the_filename_survives() {
    let area = Rect::new(0, 0, 24, 5);
    let mut buf = empty(area);
    let d = ready(vec![stat(
        "very/deeply/nested/dir/interesting.rs",
        FileChange::Modified,
        1,
        0,
    )]);
    draw_files(&mut buf, area, &d, 0, 0, false);
    let text = text_of(&buf, area);
    assert!(
        text.contains("interesting.rs"),
        "the filename must survive:\n{text}"
    );
}

#[test]
fn loading_and_unavailable_say_so() {
    let area = Rect::new(0, 0, 40, 6);
    let mut buf = empty(area);
    draw_files(&mut buf, area, &DetailState::Loading, 0, 0, false);
    assert!(text_of(&buf, area).contains("Loading"));

    let mut buf = empty(area);
    draw_files(&mut buf, area, &DetailState::Unavailable, 0, 0, false);
    assert!(text_of(&buf, area).contains("unavailable"));
}

#[test]
fn every_small_area_selection_and_scroll_is_safe() {
    let d = ready(vec![
        stat("a.txt", FileChange::Modified, 3, 1),
        stat("b/c/d.txt", FileChange::Deleted, 0, 9),
    ]);
    for &(ox, oy) in &[(0u16, 0u16), (1, 2), (5, 3)] {
        for w in 0..16u16 {
            for h in 0..7u16 {
                for (sel, scroll) in [(0usize, 0usize), (1, 0), (99, 99)] {
                    let area = Rect::new(ox, oy, w, h);
                    let full = Rect::new(
                        0,
                        0,
                        ox.saturating_add(w).saturating_add(3),
                        oy.saturating_add(h).saturating_add(3),
                    );
                    let mut buf = filled(full, Cell::new("\u{2591}"));
                    draw_files(&mut buf, area, &d, sel, scroll, true);
                    for y in full.y..full.y + full.height {
                        for x in full.x..full.x + full.width {
                            if inside(area, x, y) {
                                continue;
                            }
                            assert_eq!(
                                buf[(x, y)].symbol(),
                                "\u{2591}",
                                "wrote to ({x}, {y}), outside {area:?}"
                            );
                        }
                    }
                }
            }
        }
    }
}

#[test]
fn a_path_is_cut_on_its_left() {
    assert_eq!(fit_path("a/b/c.rs", 20), "a/b/c.rs");
    assert_eq!(fit_path("a/b/c.rs", 8), "a/b/c.rs");
    assert_eq!(fit_path("a/b/c.rs", 5), "…c.rs");
    assert_eq!(fit_path("a/b/c.rs", 1), "…");
    assert_eq!(fit_path("a/b/c.rs", 0), "");
    assert_eq!(fit_path("dir/中文.rs", 6), "…中文.rs");
}

#[test]
fn every_change_has_its_marker() {
    assert_eq!(marker(&FileChange::Added), 'A');
    assert_eq!(marker(&FileChange::Modified), 'M');
    assert_eq!(marker(&FileChange::Deleted), 'D');
    assert_eq!(marker(&FileChange::Renamed { from: "x".into() }), 'R');
}

#[test]
fn every_stage_has_its_label() {
    assert_eq!(WorktreeStage::Staged.label(), "staged");
    assert_eq!(WorktreeStage::Unstaged.label(), "unstaged");
    assert_eq!(WorktreeStage::Untracked.label(), "untracked");
}
