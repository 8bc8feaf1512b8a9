//! What holds of the library as a whole, on a few values.
use asd::geometry::Rect;
use asd::git::commit::ObjectId;
use asd::git::diff::{DiffLine, FileChange, FileStat};
use asd::git::order::{comes_before, sort_files};
use asd::git::working::{compare, WorktreeStage};
use asd::gui::key::{map_key, Key, Modifiers, Named};
use asd::proto::AgentState;
use asd::search::Search;
use asd::text::trim;
use asd::ui::colors::branch_background;
use asd::ui::layout::{pane_at, split};
use asd::ui::markdown::{lines, safe, wrap};
use unicode_width::UnicodeWidthStr;

#[test]
fn trimming_takes_white_space_from_both_ends() {
    assert_eq!(trim(" \t a b\u{3000}\n"), "a b");
    assert_eq!(trim(&trim("  x ")), "x");
    assert_eq!(trim(" \u{2003} "), "");
    assert_eq!(trim("\u{200b}x"), "\u{200b}x", "not white space");
}

#[test]
fn a_border_leaves_its_inside_free() {
    assert_eq!(Rect::new(3, 4, 10, 5).inset(), Rect::new(4, 5, 8, 3));
    assert!(Rect::new(0, 0, 2, 2).inset().is_empty());
    assert!(Rect::new(0, 0, 1, 9).inset().is_empty());
}

#[test]
fn every_cell_lies_in_one_pane() {
    for (w, h) in [(80, 24), (81, 25), (5, 40), (80, 11), (1, 12)] {
        let area = Rect::new(2, 3, w, h);
        let map = split(area);
        let mut cells = 0u32;
        for y in 0..50 {
            for x in 0..90 {
                let inside = x >= 2 && y >= 3 && x < area.right() && y < area.bottom();
                assert_eq!(pane_at(&map, x, y).is_some(), inside, "{w}x{h} at {x},{y}");
                cells += u32::from(inside);
            }
        }
        let sum: u32 = [map.graph, map.detail, map.files]
            .iter()
            .map(|p| u32::from(p.width) * u32::from(p.height))
            .sum();
        assert_eq!(sum, cells, "the panes of {w}x{h} overlap");
    }
}

#[test]
fn a_label_is_neither_grey_nor_bright() {
    for name in ["main", "origin/main", "", "feature/160", "中文", "v1.2"] {
        let (r, g, b) = branch_background(name);
        let channels = [r, g, b];
        assert_eq!(channels.iter().max(), Some(&176), "{name}");
        assert_eq!(channels.iter().min(), Some(&48), "{name}");
    }
}

#[test]
fn a_name_has_forty_digits() {
    let id = ObjectId {
        high: 0x0123_4567_89ab_cdef,
        middle: 0,
        low: 0xff,
    };
    assert_eq!(id.to_hex(), "0123456789abcdef0000000000000000000000ff");
    let other = ObjectId { low: 0xfe, ..id };
    assert_ne!(other.to_hex(), id.to_hex());
}

/// A changed file.
fn stat(path: &str, stage: Option<WorktreeStage>) -> FileStat {
    FileStat {
        path: path.to_string(),
        stage,
        change: FileChange::Modified,
        insertions: 0,
        removals: 0,
        binary: false,
        unreadable: None,
    }
}

#[test]
fn files_are_listed_by_stage_and_then_by_path() {
    let (staged, untracked) = (
        Some(WorktreeStage::Staged),
        Some(WorktreeStage::Untracked),
    );
    let sorted = sort_files(vec![
        stat("b", untracked),
        stat("b", staged),
        stat("Z", None),
        stat("a", untracked),
        stat("é", staged),
        stat("b", staged),
    ]);
    let listed: Vec<(&str, Option<WorktreeStage>)> =
        sorted.iter().map(|s| (s.path.as_str(), s.stage)).collect();
    assert_eq!(
        listed,
        [
            ("Z", None),
            ("b", staged),
            ("b", staged),
            ("é", staged),
            ("a", untracked),
            ("b", untracked),
        ]
    );
    assert!(comes_before("a", "aa") && comes_before("Z", "a"));
    assert!(!comes_before("a", "a"));
}

#[test]
fn no_two_named_keys_are_the_same_press() {
    let keys = [
        Named::Enter,
        Named::Escape,
        Named::Backspace,
        Named::Tab,
        Named::Space,
        Named::ArrowUp,
        Named::ArrowDown,
        Named::ArrowLeft,
        Named::ArrowRight,
        Named::Home,
        Named::End,
        Named::PageUp,
        Named::PageDown,
        Named::Insert,
        Named::Delete,
        Named::F1,
        Named::F2,
        Named::F3,
        Named::F4,
        Named::F5,
        Named::F6,
        Named::F7,
        Named::F8,
        Named::F9,
        Named::F10,
        Named::F11,
        Named::F12,
    ];
    let mods = Modifiers {
        alt: true,
        ..Modifiers::empty()
    };
    let presses: Vec<_> = keys
        .iter()
        .map(|k| map_key(&Key::Named(*k), mods).unwrap())
        .collect();
    for (i, a) in presses.iter().enumerate() {
        assert!(a.mods.alt && !a.mods.ctrl);
        for b in &presses[..i] {
            assert_ne!(a.key, b.key);
        }
    }
}

#[test]
fn every_state_has_a_name_of_its_own() {
    let states = [
        AgentState::Working,
        AgentState::Blocked,
        AgentState::Idle,
        AgentState::Unknown,
    ];
    for a in states {
        assert_eq!(AgentState::from_name(a.as_str()), Ok(a));
        for b in states {
            assert_eq!(a == b, a.as_str() == b.as_str());
        }
    }
}

#[test]
fn wrapping_keeps_the_text_and_the_width() {
    let source = "one two three 中文字 four e\u{301}e\u{301} *five*";
    for width in [1u16, 2, 3, 7, 40] {
        let whole = lines(source);
        let rows = wrap(&whole, width);
        let mut text = String::new();
        for row in &rows {
            let columns: usize = row.spans.iter().map(|s| s.text.width()).sum();
            assert!(columns <= usize::from(width), "{width}: {row:?}");
            row.spans.iter().for_each(|s| text.push_str(&s.text));
        }
        if width > 1 {
            let before: String = whole
                .iter()
                .flat_map(|l| l.spans.iter().map(|s| s.text.as_str()))
                .collect();
            assert_eq!(text, before, "{width}");
        } else {
            assert!(text.contains('…'), "a wide character has no room");
        }
    }
}

#[test]
fn a_fresh_search_has_nothing_to_move_through() {
    let mut search = Search::default();
    search.next();
    search.previous();
    assert_eq!(search.selected(), None);
    assert_eq!(search.selected_row(), None);
    assert!(search.matches().is_empty());
}

#[test]
fn every_row_of_a_diff_shows_the_line_it_numbers() {
    let before: Vec<String> = (1..=60).map(|n| format!("line {}", n * n % 17)).collect();
    let mut after = before.clone();
    after.splice(50..53, ["new tail".to_string()]);
    after[30] = "changed".to_string();
    after.splice(5..5, ["in".to_string(), "front".to_string()]);
    let bytes = |lines: &[String]| (lines.join("\n") + "\n").into_bytes();
    for context in [0, 1, 3, 100] {
        let diff = compare("f", &bytes(&before), &bytes(&after), context);
        let (mut added, mut removed) = (0, 0);
        for line in &diff.lines {
            match line {
                DiffLine::Context { old, new, text } => {
                    assert_eq!(&before[*old as usize - 1], text);
                    assert_eq!(&after[*new as usize - 1], text);
                }
                DiffLine::Added { new, text } => {
                    assert_eq!(&after[*new as usize - 1], text);
                    added += 1;
                }
                DiffLine::Removed { old, text } => {
                    assert_eq!(&before[*old as usize - 1], text);
                    removed += 1;
                }
            }
        }
        assert_eq!(before.len() + added - removed, after.len());
    }
}

#[test]
fn text_is_made_safe_once_and_piece_by_piece() {
    let raw = "a\u{1b}[31m\u{202e}b\t\nc\u{85}\u{2066}\u{7f}d";
    let clean = "a[31mb\t\ncd";
    assert_eq!(safe(raw), clean);
    assert_eq!(safe(&safe(raw)), clean);
    let chars: Vec<char> = raw.chars().collect();
    for cut in 0..=chars.len() {
        let front: String = chars[..cut].iter().collect();
        let back: String = chars[cut..].iter().collect();
        assert_eq!(safe(&front) + &safe(&back), clean);
    }
}
