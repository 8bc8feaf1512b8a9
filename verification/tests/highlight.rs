//! Syntax colours, line by line.
use asd::style::{Color, Style};
use asd::ui::highlight::{finish, Highlighter, Palette};


/// The spans' text, which must always be the input again.
fn joined(spans: &[(Style, String)]) -> String {
    spans.iter().map(|(_, t)| t.as_str()).collect()
}

#[test]
fn a_rust_line_is_split_into_more_than_one_span() {
    let palette = Palette::load();
    let mut h = Highlighter::new(&palette);
    let spans = h.line("a.rs", "fn main() { let x = 1; }");
    assert!(spans.len() > 1, "expected several spans, got {spans:?}");
    assert_eq!(
        joined(&spans),
        "fn main() { let x = 1; }",
        "text must round-trip"
    );
}

#[test]
fn an_unknown_extension_returns_the_line_unstyled_in_one_span() {
    let palette = Palette::load();
    let mut h = Highlighter::new(&palette);
    let spans = h.line("notes.zzzz", "some text");
    assert_eq!(spans.len(), 1);
    assert_eq!(spans[0].1, "some text");
    assert_eq!(
        spans[0].0,
        Style::default(),
        "an unknown syntax must not invent a colour"
    );
}

#[test]
fn a_path_with_no_syntax_at_all_is_unstyled_rather_than_a_panic() {
    let palette = Palette::load();
    // Degenerate paths reach here from the diff worker, and the render
    // thread paints every session, so none of these may panic.
    let mut h = Highlighter::new(&palette);
    for path in ["LICENSE", "", "dir/", ".", "..", "/", "notes.zzzz"] {
        let spans = h.line(path, "some text");
        assert_eq!(spans.len(), 1, "{path:?} gave {spans:?}");
        assert_eq!(joined(&spans), "some text");
        assert_eq!(spans[0].0, Style::default(), "{path:?} invented a colour");
    }
}

#[test]
fn a_file_known_by_name_rather_than_by_extension_is_still_highlighted() {
    let palette = Palette::load();
    // syntect keeps whole file names in the same list as real extensions,
    // and `Path::extension` is None for every one of them, so looking at
    // the extension alone leaves these unstyled.
    let mut h = Highlighter::new(&palette);
    for (path, line) in [
        ("Makefile", "CFLAGS = -O2"),
        ("dir/Makefile", "CFLAGS = -O2"),
        ("Gemfile", "gem \"rails\""),
        (".bashrc", "export PATH=\"$HOME/bin\""),
        // Extension present but unregistered; the name still resolves.
        ("config.ru", "run Rails.application"),
    ] {
        h.reset();
        let spans = h.line(path, line);
        assert!(spans.len() > 1, "{path} was not highlighted: {spans:?}");
        assert_eq!(joined(&spans), line, "round-trip failed for {path}");
    }
}

#[test]
fn a_truncated_partition_degrades_to_plain_text_rather_than_dropping_characters() {
    // `RangedHighlightIterator::next` gives up early on a `Restore` with an
    // empty clear stack while `parse_line` still returns `Ok`, which hands
    // back a partition covering only part of the line. It cannot be
    // provoked through this API with syntect's bundled syntaxes -- it was
    // found by reading syntect, not by triggering it -- so the guard is
    // exercised directly rather than through a manufactured input.
    let short = vec![(Style::default(), "fn ma".to_string())];
    assert_eq!(
        finish(short, "fn main() {}"),
        None,
        "a short partition must be refused, not painted"
    );

    let whole = vec![
        (Style::default(), "fn ".to_string()),
        (Style::default(), "main() {}\n".to_string()),
    ];
    let kept = finish(whole, "fn main() {}").expect("a full partition is kept");
    assert_eq!(joined(&kept), "fn main() {}");

    // The empty line: nothing but the appended newline comes back.
    let only_newline = vec![(Style::default(), "\n".to_string())];
    let kept = finish(only_newline, "").expect("an empty line is not a truncation");
    assert_eq!(kept.len(), 1);
    assert_eq!(joined(&kept), "");
}

#[test]
fn text_always_round_trips_whatever_the_syntax() {
    let palette = Palette::load();
    let mut h = Highlighter::new(&palette);
    for (path, line) in [
        ("a.rs", "    let s = \"quoted\"; // trailing"),
        ("b.toml", "key = \"value\""),
        ("c.md", "# heading"),
        ("d.json", "{\"a\": 1}"),
        ("weird.rs", ""),
        ("cjk.rs", "let s = \"中文字符\";"),
        // Trailing whitespace is meaningful in a diff and is exactly what
        // a newline-stripping bug would eat.
        ("trailing.rs", "let x = 1;   "),
        ("tabs.go", "\tif err != nil {"),
        ("emoji.md", "- 🚀 ship it 🚀"),
        ("blank.py", "   "),
        ("crlf.rs", "let x = 1;\r"),
        ("unknown.zzzz", "  中文 with trailing  "),
    ] {
        h.reset();
        let spans = h.line(path, line);
        assert_eq!(joined(&spans), line, "round-trip failed for {path}");
        assert!(!spans.is_empty(), "no spans at all for {path}");
    }
}

#[test]
fn only_an_empty_line_produces_an_empty_span() {
    let palette = Palette::load();
    // Spans place columns; an empty one is a wasted iteration and a zero-width
    // write. An empty line is the one case
    // that has nothing else to return.
    let mut h = Highlighter::new(&palette);
    for line in ["", "fn main() {}", "   ", "let s = \"中文\";"] {
        let spans = h.line("a.rs", line);
        let empties = spans.iter().filter(|(_, t)| t.is_empty()).count();
        if line.is_empty() {
            // An empty line is the one case that has nothing to carry.
            assert_eq!(spans.len(), 1);
        } else {
            assert_eq!(empties, 0, "{line:?} produced empty spans: {spans:?}");
        }
    }
}

#[test]
fn parse_state_carries_across_lines_within_a_file() {
    let palette = Palette::load();
    // This is what a per-line HighlightLines throws away: the second line
    // is only known to be inside the comment because the first one opened
    // it. Recreating the parser per line makes `inside` equal `outside`.
    let mut h = Highlighter::new(&palette);
    h.line("a.rs", "/* opened");
    let inside = h.line("a.rs", "fn main() {}");

    let mut fresh = Highlighter::new(&palette);
    let outside = fresh.line("a.rs", "fn main() {}");

    assert!(
        outside.len() > 1,
        "outside a comment this line has several spans: {outside:?}"
    );
    assert_eq!(
        inside.len(),
        1,
        "inside a block comment the whole line is one span: {inside:?}"
    );
    assert_ne!(
        inside, outside,
        "parse state did not carry from the line that opened the comment"
    );
    assert_eq!(joined(&inside), "fn main() {}");
}

#[test]
fn a_multi_line_string_keeps_its_colour_on_the_second_line() {
    let palette = Palette::load();
    // The same property through a different construct, so a comment-only
    // quirk of one syntax cannot be the whole evidence.
    let mut h = Highlighter::new(&palette);
    h.line("a.rs", "let s = \"opened");
    let inside = h.line("a.rs", "fn main() {}");

    let mut fresh = Highlighter::new(&palette);
    let outside = fresh.line("a.rs", "fn main() {}");

    assert_ne!(
        inside, outside,
        "the unterminated string did not carry to the next line"
    );
    assert_eq!(joined(&inside), "fn main() {}");
}

#[test]
fn a_closed_comment_returns_to_normal_highlighting() {
    let palette = Palette::load();
    // Carrying state is only half of it. A highlighter that latched the
    // comment colour and never let go would pass the test above; this one
    // needs the parser to leave the comment when it ends.
    let mut h = Highlighter::new(&palette);
    h.line("a.rs", "/* opened");
    h.line("a.rs", "still inside");
    h.line("a.rs", "closed */");
    let after = h.line("a.rs", "fn main() {}");

    let mut fresh = Highlighter::new(&palette);
    assert_eq!(
        after,
        fresh.line("a.rs", "fn main() {}"),
        "the block comment never closed"
    );
}

#[test]
fn reset_starts_a_new_file_rather_than_continuing_the_last() {
    let palette = Palette::load();
    // Syntect carries parse state across lines. A file that opens a block
    // comment must not leave the next file's first line inside it.
    //
    // The path deliberately does NOT change: `line` restarts by itself on
    // a new path, which would hide a `reset` that does nothing. The same
    // path at a different commit is also the real case reset exists for.
    let mut h = Highlighter::new(&palette);
    h.line("a.rs", "/* opened");
    h.reset();
    let spans = h.line("a.rs", "fn main() {}");

    let mut fresh = Highlighter::new(&palette);
    assert_eq!(
        spans,
        fresh.line("a.rs", "fn main() {}"),
        "state leaked from the previous file: {spans:?}"
    );
    assert!(
        spans.len() > 1,
        "state leaked from the previous file: {spans:?}"
    );
}

#[test]
fn a_new_path_starts_a_new_file_too() {
    let palette = Palette::load();
    let mut h = Highlighter::new(&palette);
    h.line("a.rs", "/* opened");
    let spans = h.line("b.rs", "fn main() {}");

    let mut fresh = Highlighter::new(&palette);
    assert_eq!(spans, fresh.line("b.rs", "fn main() {}"));
}

#[test]
fn an_unknown_file_in_between_does_not_leave_the_old_state_to_resume() {
    let palette = Palette::load();
    let mut h = Highlighter::new(&palette);
    h.line("a.rs", "/* opened");
    h.line("notes.zzzz", "plain");
    let spans = h.line("a.rs", "fn main() {}");

    let mut fresh = Highlighter::new(&palette);
    assert_eq!(
        spans,
        fresh.line("a.rs", "fn main() {}"),
        "the comment state survived a detour through an unknown file"
    );
}

#[test]
fn every_span_is_an_rgb_colour() {
    let palette = Palette::load();
    // Named ANSI colours would follow the host terminal's theme and clash
    // with asd's own palette, which is RGB throughout.
    let mut h = Highlighter::new(&palette);
    let spans = h.line("a.rs", "fn main() { let x = 1; }");
    for (style, text) in &spans {
        assert!(
            matches!(style.fg, Some(Color::Rgb(..))),
            "{text:?} got {:?}",
            style.fg
        );
    }
}

#[test]
fn the_theme_is_the_one_we_asked_for() {
    // `unwrap_or_default` would silently fall back to a themeless theme,
    // which paints every span the same colour.
    let palette = Palette::load();
    assert_eq!(palette.theme().name.as_deref(), Some("Base16 Ocean Dark"));
    assert!(!palette.theme().scopes.is_empty());
}
