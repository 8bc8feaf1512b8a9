//! CommonMark laid out for the terminal.
use asd::screen::TextLine;
use asd::style::{BOLD, ITALIC};
use asd::ui::markdown::{compose, lines, wrap, Ending, Opening, Step};
use unicode_width::UnicodeWidthStr;

/// The rows' text.
fn text(lines: &[TextLine]) -> String {
    lines
        .iter()
        .map(|l| l.spans.iter().map(|s| s.text.as_str()).collect::<String>())
        .collect::<Vec<_>>()
        .join("\n")
}

/// The columns a row takes.
fn width(line: &TextLine) -> usize {
    line.spans.iter().map(|s| s.text.width()).sum()
}

#[test]
fn commonmark_styles_and_entities_remain_readable() {
    let rows = lines(
        "## Header\n\n- **bold** and *italic* `code` &lt;x&gt;\n\n> quote\n\n```rust\nlet x = 1;\n```\n\n[docs](https://example.invalid)",
    );
    let out = text(&rows);
    for expected in [
        "Header",
        "• bold and italic code <x>",
        "│ quote",
        "let x = 1;",
        "docs (https://example.invalid)",
    ] {
        assert!(out.contains(expected), "{out}");
    }
    assert!(
        rows.iter().flat_map(|l| &l.spans).any(
            |s| s.text.contains("bold") && s.style.add_modifier & BOLD != 0
        )
    );
    assert!(
        rows.iter()
            .flat_map(|l| &l.spans)
            .any(|s| s.text.contains("code") && s.style.bg.is_some())
    );
}

#[test]
fn narrow_wrapping_preserves_wide_graphemes_and_strips_controls() {
    let rows = wrap(&lines("中文字符 **hello**\n\nend\u{1b}\u{7}\u{202e}"), 4);
    assert!(rows.iter().all(|l| width(l) <= 4));
    assert!(text(&rows).contains("中文"));
    assert!(!text(&rows).contains('\u{1b}'));
    assert!(!text(&rows).contains('\u{202e}'));
}

#[test]
fn a_list_is_numbered_and_nested() {
    let out = text(&lines("3. three\n4. four\n   - inner\n\n- [x] done\n- [ ] open"));
    assert!(out.contains("3. three"), "{out}");
    assert!(out.contains("4. four"), "{out}");
    assert!(out.contains("• inner"), "{out}");
    assert!(out.contains("[x] done"), "{out}");
    assert!(out.contains("[ ] open"), "{out}");
}

#[test]
fn steps_are_laid_out_as_they_come() {
    let rows = compose(&vec![
        Step::Start(Opening::Paragraph),
        Step::Text("plain ".to_string()),
        Step::Start(Opening::Emphasis),
        Step::Text("leaning".to_string()),
        Step::End(Ending::Other),
        Step::HardBreak,
        Step::Text("below".to_string()),
        Step::End(Ending::Paragraph),
    ]);
    assert_eq!(text(&rows[..2]), "plain leaning\nbelow");
    let leaning = rows[0].spans.iter().find(|s| s.text == "leaning").unwrap();
    assert_eq!(leaning.style.add_modifier & ITALIC, ITALIC);
}

#[test]
fn a_cluster_wider_than_the_row_becomes_an_ellipsis() {
    let rows = wrap(&lines("中"), 1);
    assert_eq!(text(&rows).trim(), "…");
}

#[test]
fn a_family_of_joined_characters_is_not_cut() {
    let family = "👩\u{200d}👩\u{200d}👧";
    let rows = wrap(&lines(&format!("ab{family}")), 3);
    assert_eq!(rows[0].spans.iter().map(|s| s.text.as_str()).collect::<String>(), "ab");
    assert_eq!(rows[1].spans.iter().map(|s| s.text.as_str()).collect::<String>(), family);
}
