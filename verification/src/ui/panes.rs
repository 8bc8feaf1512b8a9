//! What can be read in the lower panes, in an open diff, in the search dropdown and
//! in the help.
use crate::geometry::Rect;
use crate::git::diff::{DiffLine, FileChange, FileStat};
use crate::git::graph::GraphNode;
use crate::screen;
use crate::screen::Cells;
use crate::state::DetailState;
use crate::style;
use crate::style::{Color, Style};
use crate::text;
use crate::ui::file_diff;
use crate::ui::file_list;
use crate::ui::graph_view;
use crate::ui::help;
use crate::ui::search;
use crate::ui::writing::{colored, grounded, lemma_put, lemma_put_only, narrow, reads, wrote};
use crate::worker::HighlightedDiff;
use vstd::prelude::*;
use vstd::string::*;

verus! {

proof fn lemma_narrow_parts(a: Seq<char>, b: Seq<char>)
    ensures
        narrow(a + b) <==> narrow(a) && narrow(b),
{
    if narrow(a + b) {
        assert forall|i: int| 0 <= i < a.len() implies screen::char_columns(#[trigger] a[i]) == Some(
            1usize,
        ) by {
            assert((a + b)[i] == a[i]);
        }
        assert forall|i: int| 0 <= i < b.len() implies screen::char_columns(#[trigger] b[i]) == Some(
            1usize,
        ) by {
            assert((a + b)[a.len() + i] == b[i]);
        }
    }
    if narrow(a) && narrow(b) {
        assert forall|i: int| 0 <= i < (a + b).len() implies screen::char_columns(
            #[trigger] (a + b)[i],
        ) == Some(1usize) by {
            if i < a.len() {
                assert((a + b)[i] == a[i]);
            } else {
                assert((a + b)[i] == b[i - a.len()]);
            }
        }
    }
}

/// What was just written can be read, in its colour.
proof fn lemma_reads_now(a: Cells, b: Cells, cx: int, y: u16, s: Seq<char>, style: Style)
    requires
        wrote(a, b, cx, y, s, style),
        0 <= cx,
        cx + s.len() <= 65535,
    ensures
        reads(b, cx, y, s),
        style.fg matches Some(c) ==> colored(b, cx, y, s.len() as int, c),
        style.bg matches Some(c) ==> grounded(b, cx, y, s.len() as int, c),
{
    assert forall|i: int| 0 <= i < s.len() implies (#[trigger] b[((cx + i) as u16, y)]).symbol
        == seq![s[i]] by {
        let u = (cx + i) as u16;
        assert(b[(u, y)] == screen::written(a[(u, y)], s[u - cx], style));
    }
    if let Some(c) = style.fg {
        assert forall|i: int| 0 <= i < s.len() implies (#[trigger] b[((cx + i) as u16, y)]).fg == c by {
            let u = (cx + i) as u16;
            assert(b[(u, y)] == screen::written(a[(u, y)], s[u - cx], style));
        }
    }
    if let Some(c) = style.bg {
        assert forall|i: int| 0 <= i < s.len() implies (#[trigger] b[((cx + i) as u16, y)]).bg == c by {
            let u = (cx + i) as u16;
            assert(b[(u, y)] == screen::written(a[(u, y)], s[u - cx], style));
        }
    }
}

/// What stands left of what was written can still be read, in its colours.
proof fn lemma_reads_on(
    a: Cells,
    b: Cells,
    cx: int,
    y: u16,
    s: Seq<char>,
    style: Style,
    x: int,
    t: Seq<char>,
)
    requires
        wrote(a, b, cx, y, s, style),
        0 <= x,
        x + t.len() <= cx,
        cx <= 65535,
        reads(a, x, y, t),
    ensures
        reads(b, x, y, t),
        forall|c: Color| #[trigger] colored(a, x, y, t.len() as int, c) ==> colored(b, x, y, t.len() as int, c),
{
    assert forall|i: int| 0 <= i < t.len() implies (#[trigger] b[((x + i) as u16, y)]).symbol
        == seq![t[i]] by {
        let u = (x + i) as u16;
        assert(b[(u, y)] == a[(u, y)]);
    }
    assert forall|c: Color| #[trigger] colored(a, x, y, t.len() as int, c) implies colored(
        b,
        x,
        y,
        t.len() as int,
        c,
    ) by {
        assert forall|i: int| 0 <= i < t.len() implies (#[trigger] b[((x + i) as u16, y)]).fg == c by {
            let u = (x + i) as u16;
            assert(b[(u, y)] == a[(u, y)]);
        }
    }
}

proof fn lemma_reads_join(c: Cells, x: int, y: u16, a: Seq<char>, b: Seq<char>)
    requires
        reads(c, x, y, a),
        reads(c, x + a.len(), y, b),
    ensures
        reads(c, x, y, a + b),
{
    assert forall|i: int| 0 <= i < (a + b).len() implies (#[trigger] c[((x + i) as u16, y)]).symbol
        == seq![(a + b)[i]] by {
        if i >= a.len() {
            let k = i - a.len();
            assert(c[((x + a.len() + k) as u16, y)].symbol == seq![b[k]]);
        }
    }
}

/// The letter of a change.
pub open spec fn letter(change: FileChange) -> char {
    match change {
        FileChange::Added => 'A',
        FileChange::Modified => 'M',
        FileChange::Deleted => 'D',
        FileChange::Renamed { .. } => 'R',
    }
}

/// Law: a changed file's row reads as its letter, its path and the lines it adds and
/// removes, the one count in green and the other in red.
pub proof fn law_file_row_reads(cells: Cells, inner: Rect, y: u16, file: FileStat, base: Style)
    requires
        file.unreadable is None,
        !file.binary,
        inner.end_x() < 65535,
        ({
            let head = seq![letter(file.change), ' ', ' '] + file.path@;
            let plus = seq![' ', ' ', '+'] + text::decimal_text(file.insertions as nat);
            let minus = seq![' ', '-'] + text::decimal_text(file.removals as nat);
            &&& narrow(head) && narrow(plus) && narrow(minus)
            &&& inner.x + head.len() + plus.len() + minus.len() <= inner.end_x()
        }),
    ensures
        ({
            let after = file_list::file_cells(cells, inner, y, file, base);
            let head = seq![letter(file.change), ' ', ' '] + file.path@;
            let plus = seq![' ', ' ', '+'] + text::decimal_text(file.insertions as nat);
            let minus = seq![' ', '-'] + text::decimal_text(file.removals as nat);
            let x = inner.x as int;
            &&& reads(after, x, y, head)
            &&& reads(after, x + head.len(), y, plus)
            &&& reads(after, x + head.len() + plus.len(), y, minus)
            &&& colored(
                after,
                x + head.len(),
                y,
                plus.len() as int,
                Color::Rgb(0x79, 0xD1, 0x8C),
            )
            &&& colored(
                after,
                x + head.len() + plus.len(),
                y,
                minus.len() as int,
                Color::Rgb(0xE5, 0x59, 0x5E),
            )
        }),
{
    reveal_strlit("  ");
    reveal_strlit("  +");
    reveal_strlit(" -");
    let mark = seq![file_list::marker_of(file.change)] + "  "@;
    assert(mark =~= seq![letter(file.change), ' ', ' ']);
    assert("  +"@ =~= seq![' ', ' ', '+']);
    assert(" -"@ =~= seq![' ', '-']);
    let path = file.path@;
    let head = mark + path;
    let plus = "  +"@ + text::decimal_text(file.insertions as nat);
    let minus = " -"@ + text::decimal_text(file.removals as nat);
    lemma_narrow_parts(mark, path);
    let right = inner.end_x() as u16;
    let x = inner.x as int;
    lemma_put(cells, right, inner.x, y, mark, base);
    let c1 = screen::put_cells(cells, inner, inner.x, y, mark, base);
    let x1 = screen::put_end(cells, inner, inner.x, y, mark, base);
    lemma_put(c1, right, x1, y, path, base);
    let c2 = screen::put_cells(c1, inner, x1, y, path, base);
    let x2 = screen::put_end(c1, inner, x1, y, path, base);
    assert(file_list::fitted(path, crate::geometry::most(inner.width - 3, 0) as nat) == path) by {
        assert(path.len() + 3 <= inner.width);
        if path.len() == 0 {
            assert(path =~= Seq::<char>::empty());
        }
    }
    let green = base.with_fg(file_list::green());
    let red = base.with_fg(file_list::red());
    lemma_put(c2, right, x2, y, plus, green);
    let c3 = screen::put_cells(c2, inner, x2, y, plus, green);
    let x3 = screen::put_end(c2, inner, x2, y, plus, green);
    lemma_put(c3, right, x3, y, minus, red);
    let c4 = screen::put_cells(c3, inner, x3, y, minus, red);
    assert(c4 == file_list::file_cells(cells, inner, y, file, base));
    lemma_reads_now(cells, c1, x, y, mark, base);
    lemma_reads_on(c1, c2, x1 as int, y, path, base, x, mark);
    lemma_reads_now(c1, c2, x1 as int, y, path, base);
    lemma_reads_join(c2, x, y, mark, path);
    lemma_reads_on(c2, c3, x2 as int, y, plus, green, x, head);
    lemma_reads_now(c2, c3, x2 as int, y, plus, green);
    lemma_reads_on(c3, c4, x3 as int, y, minus, red, x, head);
    lemma_reads_on(c3, c4, x3 as int, y, minus, red, x2 as int, plus);
    lemma_reads_now(c3, c4, x3 as int, y, minus, red);
}

/// Law: a file that could not be read, or is binary, says so behind its path in
/// place of any counts.
pub proof fn law_file_row_without_counts(
    cells: Cells,
    inner: Rect,
    y: u16,
    file: FileStat,
    base: Style,
)
    requires
        file.unreadable is Some || file.binary,
        inner.end_x() < 65535,
        ({
            let head = seq![letter(file.change), ' ', ' '] + file.path@;
            let note = if file.unreadable is Some {
                "  unreadable"@
            } else {
                "  binary"@
            };
            &&& narrow(head) && narrow(note)
            &&& inner.x + head.len() + note.len() <= inner.end_x()
        }),
    ensures
        ({
            let after = file_list::file_cells(cells, inner, y, file, base);
            let head = seq![letter(file.change), ' ', ' '] + file.path@;
            let x = inner.x as int;
            &&& reads(after, x, y, head)
            &&& file.unreadable is Some ==> reads(after, x + head.len(), y, "  unreadable"@)
            &&& file.unreadable is None ==> reads(after, x + head.len(), y, "  binary"@)
        }),
{
    reveal_strlit("  ");
    let mark = seq![file_list::marker_of(file.change)] + "  "@;
    assert(mark =~= seq![letter(file.change), ' ', ' ']);
    let path = file.path@;
    let head = mark + path;
    lemma_narrow_parts(mark, path);
    let right = inner.end_x() as u16;
    let x = inner.x as int;
    lemma_put(cells, right, inner.x, y, mark, base);
    let c1 = screen::put_cells(cells, inner, inner.x, y, mark, base);
    let x1 = screen::put_end(cells, inner, inner.x, y, mark, base);
    lemma_put(c1, right, x1, y, path, base);
    let c2 = screen::put_cells(c1, inner, x1, y, path, base);
    let x2 = screen::put_end(c1, inner, x1, y, path, base);
    assert(file_list::fitted(path, crate::geometry::most(inner.width - 3, 0) as nat) == path) by {
        if path.len() == 0 {
            assert(path =~= Seq::<char>::empty());
        }
    }
    lemma_reads_now(cells, c1, x, y, mark, base);
    lemma_reads_on(c1, c2, x1 as int, y, path, base, x, mark);
    lemma_reads_now(c1, c2, x1 as int, y, path, base);
    lemma_reads_join(c2, x, y, mark, path);
    let (note, s) = if file.unreadable is Some {
        ("  unreadable"@, base.with_fg(file_list::red()))
    } else {
        ("  binary"@, base.with_fg(style::dim_color()))
    };
    lemma_put(c2, right, x2, y, note, s);
    let c3 = screen::put_cells(c2, inner, x2, y, note, s);
    lemma_reads_on(c2, c3, x2 as int, y, note, s, x, head);
    lemma_reads_now(c2, c3, x2 as int, y, note, s);
}

proof fn lemma_file_row_only(cells: Cells, inner: Rect, y: u16, file: FileStat, base: Style)
    requires
        inner.end_x() < 65535,
    ensures
        forall|u: u16, v: u16|
            v != y ==> #[trigger] file_list::file_cells(cells, inner, y, file, base)[(u, v)]
                == cells[(u, v)],
{
    let right = inner.end_x() as u16;
    let mark = seq![file_list::marker_of(file.change)] + "  "@;
    lemma_put_only(cells, right, screen::put_start(inner, inner.x), y, mark, base);
    let c1 = screen::put_cells(cells, inner, inner.x, y, mark, base);
    let x1 = screen::put_end(cells, inner, inner.x, y, mark, base);
    let path = file_list::fitted(file.path@, crate::geometry::most(inner.width - 3, 0) as nat);
    lemma_put_only(c1, right, screen::put_start(inner, x1), y, path, base);
    let c2 = screen::put_cells(c1, inner, x1, y, path, base);
    let x2 = screen::put_end(c1, inner, x1, y, path, base);
    let start = screen::put_start(inner, x2);
    lemma_put_only(c2, right, start, y, "  unreadable"@, base.with_fg(file_list::red()));
    lemma_put_only(c2, right, start, y, "  binary"@, base.with_fg(style::dim_color()));
    let plus = "  +"@ + text::decimal_text(file.insertions as nat);
    let minus = " -"@ + text::decimal_text(file.removals as nat);
    let green = base.with_fg(file_list::green());
    lemma_put_only(c2, right, start, y, plus, green);
    let c3 = screen::put_cells(c2, inner, x2, y, plus, green);
    let x3 = screen::put_end(c2, inner, x2, y, plus, green);
    lemma_put_only(
        c3,
        right,
        screen::put_start(inner, x3),
        y,
        minus,
        base.with_fg(file_list::red()),
    );
}

/// Law: the files stand one under the other, from the first one in view: what is
/// seen in the end on row `k` is what drawing the file there made of it. The
/// selected one is drawn in reverse while the pane has the focus, and no other.
pub proof fn law_files_stand_in_order(
    cells: Cells,
    inner: Rect,
    files: Seq<FileStat>,
    selected: nat,
    scroll: nat,
    focused: bool,
    n: int,
    k: int,
    u: u16,
)
    requires
        0 <= k < n,
        inner.end_x() < 65535,
        inner.y + n <= 65535,
    ensures
        ({
            let after = file_list::rows_cells(cells, inner, files, selected, scroll, focused, n);
            let before = file_list::rows_cells(cells, inner, files, selected, scroll, focused, k);
            let y = (inner.y + k) as u16;
            let stands_out = focused && scroll + k == selected;
            after[(u, y)] == file_list::file_cells(
                before,
                inner,
                y,
                files[scroll + k],
                graph_view::base_style(stands_out),
            )[(u, y)]
        }),
    decreases n,
{
    if k < n - 1 {
        law_files_stand_in_order(cells, inner, files, selected, scroll, focused, n - 1, k, u);
        let before = file_list::rows_cells(
            cells,
            inner,
            files,
            selected,
            scroll,
            focused,
            n - 1,
        );
        lemma_file_row_only(
            before,
            inner,
            (inner.y + n - 1) as u16,
            files[scroll + n - 1],
            graph_view::base_style(scroll + n - 1 == selected && focused),
        );
    }
}

/// Whether a number is written in `width` columns from column `at` on, to the right
/// of them, with blanks in front; without a number there are blanks alone.
pub open spec fn numbered(g: Seq<char>, at: int, width: int, n: Option<u32>) -> bool {
    let digits = match n {
        Some(k) => text::decimal_text(k as nat),
        None => Seq::empty(),
    };
    &&& digits.len() <= width
    &&& forall|i: int| 0 <= i < digits.len() ==> g[at + width - digits.len() + i] == #[trigger] digits[i]
    &&& forall|i: int| at <= i < at + width - digits.len() ==> #[trigger] g[i] == ' '
}

/// Law: in front of a line's text stand its number in the old file, its number in
/// the new one, and a sign: an added line has no old number and a plus, a removed
/// one no new number and a minus, an unchanged one both and a blank.
pub proof fn law_gutter(line: DiffLine, width: nat)
    requires
        file_diff::number_text(file_diff::old_number(line)).len() <= width,
        file_diff::number_text(file_diff::new_number(line)).len() <= width,
    ensures
        ({
            let g = file_diff::gutter_text(line, width);
            let w = width as int;
            &&& g.len() == 2 * w + 4
            &&& g[w] == ' ' && g[2 * w + 1] == ' ' && g[2 * w + 3] == ' '
            &&& match line {
                DiffLine::Context { old, new, .. } => numbered(g, 0, w, Some(old)) && numbered(
                    g,
                    w + 1,
                    w,
                    Some(new),
                ) && g[2 * w + 2] == ' ',
                DiffLine::Added { new, .. } => numbered(g, 0, w, None) && numbered(
                    g,
                    w + 1,
                    w,
                    Some(new),
                ) && g[2 * w + 2] == '+',
                DiffLine::Removed { old, .. } => numbered(g, 0, w, Some(old)) && numbered(
                    g,
                    w + 1,
                    w,
                    None,
                ) && g[2 * w + 2] == '-',
            }
        }),
{
    reveal_strlit(" ");
    let old = file_diff::number_text(file_diff::old_number(line));
    let new = file_diff::number_text(file_diff::new_number(line));
    let a = file_diff::right_aligned(old, width);
    let b = file_diff::right_aligned(new, width);
    assert(a.len() == width && b.len() == width);
    let g = file_diff::gutter_text(line, width);
    let w = width as int;
    assert forall|i: int| 0 <= i < old.len() implies g[w - old.len() + i] == #[trigger] old[i] by {
        assert(a[w - old.len() + i] == old[i]);
    }
    assert forall|i: int| 0 <= i < w - old.len() implies #[trigger] g[i] == ' ' by {
        assert(a[i] == ' ');
    }
    assert forall|i: int| 0 <= i < new.len() implies g[w + 1 + w - new.len() + i]
        == #[trigger] new[i] by {
        assert(b[w - new.len() + i] == new[i]);
    }
    assert forall|i: int| w + 1 <= i < w + 1 + w - new.len() implies #[trigger] g[i] == ' ' by {
        assert(b[i - (w + 1)] == ' ');
    }
}

/// Law: there is room for every number of the diff in front of the lines, and no
/// more than the widest one needs.
pub proof fn law_numbers_have_room(lines: Seq<DiffLine>, n: int, k: int)
    requires
        0 <= n <= lines.len(),
    ensures
        1 <= file_diff::number_width(lines, n),
        0 <= k < n ==> file_diff::number_text(file_diff::old_number(lines[k])).len()
            <= file_diff::number_width(lines, n),
        0 <= k < n ==> file_diff::number_text(file_diff::new_number(lines[k])).len()
            <= file_diff::number_width(lines, n),
        file_diff::number_width(lines, n) > 1 ==> exists|j: int|
            0 <= j < n && (file_diff::number_width(lines, n) == file_diff::number_text(
                file_diff::old_number(#[trigger] lines[j]),
            ).len() || file_diff::number_width(lines, n) == file_diff::number_text(
                file_diff::new_number(lines[j]),
            ).len()),
    decreases n,
{
    if n > 0 {
        law_numbers_have_room(lines, n - 1, k);
        let before = file_diff::number_width(lines, n - 1);
        let now = file_diff::number_width(lines, n);
        if now > 1 {
            if now == before {
                let j = choose|j: int|
                    0 <= j < n - 1 && (before == file_diff::number_text(
                        file_diff::old_number(#[trigger] lines[j]),
                    ).len() || before == file_diff::number_text(
                        file_diff::new_number(lines[j]),
                    ).len());
                assert(0 <= j < n);
            } else {
                let j = n - 1;
                assert(now == file_diff::number_text(file_diff::old_number(lines[j])).len() || now
                    == file_diff::number_text(file_diff::new_number(lines[j])).len());
            }
        }
    }
}

/// The background of a changed line: green for an added one, red for a removed one.
pub open spec fn ground_of(line: DiffLine) -> Option<Color> {
    match line {
        DiffLine::Context { .. } => None,
        DiffLine::Added { .. } => Some(Color::Rgb(0x10, 0x2A, 0x18)),
        DiffLine::Removed { .. } => Some(Color::Rgb(0x2E, 0x14, 0x16)),
    }
}

/// The text of a line.
pub open spec fn text_of(line: DiffLine) -> Seq<char> {
    match line {
        DiffLine::Context { text, .. } => text@,
        DiffLine::Added { text, .. } => text@,
        DiffLine::Removed { text, .. } => text@,
    }
}

/// Law: a line of a diff without colours of its own reads as its numbers, its sign
/// and its text; a changed one has its ground all the way across the row.
pub proof fn law_diff_line_reads(
    cells: Cells,
    inner: Rect,
    y: u16,
    line: DiffLine,
    width: nat,
    u: u16,
)
    requires
        inner.x + inner.width < 65535,
        screen::char_columns(' ') == Some(1usize),
        ({
            let g = file_diff::gutter_text(line, width);
            let t = file_diff::untabbed(text_of(line));
            &&& narrow(g) && narrow(t)
            &&& inner.x + g.len() + t.len() <= inner.end_x()
        }),
    ensures
        ({
            let after = file_diff::line_cells(cells, inner, y, line, None, width);
            let g = file_diff::gutter_text(line, width);
            let t = file_diff::untabbed(text_of(line));
            &&& reads(after, inner.x as int, y, g)
            &&& reads(after, inner.x + g.len(), y, t)
            &&& (ground_of(line) is Some && inner.x <= u < inner.end_x()) ==> after[(u, y)].bg
                == ground_of(line)->0
            &&& ground_of(line) is None ==> after[(u, y)].bg == cells[(u, y)].bg
        }),
{
    let base = file_diff::row_style(line);
    let right = inner.end_x() as u16;
    let x = inner.x as int;
    let g = file_diff::gutter_text(line, width);
    let t = file_diff::untabbed(text_of(line));
    let blanks = text::repeated(' ', inner.width as nat);
    assert(narrow(blanks));
    let filled = if file_diff::ground(line) is Some {
        screen::put_cells(cells, inner, inner.x, y, blanks, base)
    } else {
        cells
    };
    lemma_put(cells, right, inner.x, y, blanks, base);
    let number_style = base.with_fg(Color::Rgb(0x5A, 0x64, 0x72));
    lemma_put(filled, right, inner.x, y, g, number_style);
    let numbered = screen::put_cells(filled, inner, inner.x, y, g, number_style);
    let next = screen::put_end(filled, inner, inner.x, y, g, number_style);
    lemma_put(numbered, right, next, y, t, base);
    let after = screen::put_cells(numbered, inner, next, y, t, base);
    lemma_reads_now(filled, numbered, x, y, g, number_style);
    lemma_reads_on(numbered, after, next as int, y, t, base, x, g);
    lemma_reads_now(numbered, after, next as int, y, t, base);
    assert(after == file_diff::line_cells(cells, inner, y, line, None, width));
    assert(filled[(u, y)].bg == (if ground_of(line) is Some && inner.x <= u < inner.end_x() {
        ground_of(line)->0
    } else {
        cells[(u, y)].bg
    }));
    assert(numbered[(u, y)].bg == filled[(u, y)].bg || numbered[(u, y)].bg == ground_of(line)->0);
    assert(after[(u, y)].bg == numbered[(u, y)].bg || after[(u, y)].bg == ground_of(line)->0);
}

/// The text of pieces from the `k`th on, with blanks for tabs.
pub open spec fn pieces_text(pieces: Seq<(Style, String)>, k: int) -> Seq<char>
    decreases pieces.len() - k,
{
    if k < 0 || k >= pieces.len() {
        Seq::empty()
    } else {
        file_diff::untabbed(pieces[k].1@) + pieces_text(pieces, k + 1)
    }
}

proof fn lemma_pieces_read(
    cells: Cells,
    inner: Rect,
    x: u16,
    y: u16,
    pieces: Seq<(Style, String)>,
    base: Style,
    k: int,
    from: int,
    t: Seq<char>,
)
    requires
        0 <= k <= pieces.len(),
        inner.end_x() < 65535,
        inner.x <= x,
        narrow(pieces_text(pieces, k)),
        x + pieces_text(pieces, k).len() < inner.end_x(),
        0 <= from,
        from + t.len() <= x,
        reads(cells, from, y, t),
    ensures
        ({
            let after = file_diff::pieces_cells(cells, inner, x, y, pieces, base, k);
            &&& reads(after, x as int, y, pieces_text(pieces, k))
            &&& reads(after, from, y, t)
        }),
    decreases pieces.len() - k,
{
    let all = pieces_text(pieces, k);
    if k < pieces.len() {
        let s = pieces[k].0.patched(base);
        let one = file_diff::untabbed(pieces[k].1@);
        let rest = pieces_text(pieces, k + 1);
        lemma_narrow_parts(one, rest);
        let right = inner.end_x() as u16;
        lemma_put(cells, right, x, y, one, s);
        let drawn = screen::put_cells(cells, inner, x, y, one, s);
        let next = screen::put_end(cells, inner, x, y, one, s);
        lemma_reads_now(cells, drawn, x as int, y, one, s);
        lemma_reads_on(cells, drawn, x as int, y, one, s, from, t);
        lemma_pieces_read(drawn, inner, next, y, pieces, base, k + 1, x as int, one);
        lemma_pieces_read(drawn, inner, next, y, pieces, base, k + 1, from, t);
        let after = file_diff::pieces_cells(drawn, inner, next, y, pieces, base, k + 1);
        lemma_reads_join(after, x as int, y, one, rest);
    }
}

/// Law: a line of a diff in several colours reads the same: its numbers, its sign,
/// and its pieces one behind the other.
pub proof fn law_colored_diff_line_reads(
    cells: Cells,
    inner: Rect,
    y: u16,
    line: DiffLine,
    pieces: Seq<(Style, String)>,
    width: nat,
)
    requires
        inner.x + inner.width < 65535,
        ({
            let g = file_diff::gutter_text(line, width);
            let t = pieces_text(pieces, 0);
            &&& narrow(g) && narrow(t)
            &&& inner.x + g.len() + t.len() < inner.end_x()
        }),
    ensures
        ({
            let after = file_diff::line_cells(cells, inner, y, line, Some(pieces), width);
            let g = file_diff::gutter_text(line, width);
            &&& reads(after, inner.x as int, y, g)
            &&& reads(after, inner.x + g.len(), y, pieces_text(pieces, 0))
        }),
{
    let base = file_diff::row_style(line);
    let right = inner.end_x() as u16;
    let g = file_diff::gutter_text(line, width);
    let blanks = text::repeated(' ', inner.width as nat);
    let filled = if file_diff::ground(line) is Some {
        screen::put_cells(cells, inner, inner.x, y, blanks, base)
    } else {
        cells
    };
    let number_style = base.with_fg(Color::Rgb(0x5A, 0x64, 0x72));
    lemma_put(filled, right, inner.x, y, g, number_style);
    let numbered = screen::put_cells(filled, inner, inner.x, y, g, number_style);
    let next = screen::put_end(filled, inner, inner.x, y, g, number_style);
    lemma_reads_now(filled, numbered, inner.x as int, y, g, number_style);
    lemma_pieces_read(numbered, inner, next, y, pieces, base, 0, inner.x as int, g);
}

proof fn lemma_pieces_only(
    cells: Cells,
    inner: Rect,
    x: u16,
    y: u16,
    pieces: Seq<(Style, String)>,
    base: Style,
    k: int,
)
    requires
        inner.end_x() < 65535,
    ensures
        forall|u: u16, v: u16|
            v != y ==> #[trigger] file_diff::pieces_cells(cells, inner, x, y, pieces, base, k)[(
                u,
                v,
            )] == cells[(u, v)],
    decreases pieces.len() - k,
{
    if 0 <= k < pieces.len() {
        let s = pieces[k].0.patched(base);
        let t = file_diff::untabbed(pieces[k].1@);
        lemma_put_only(cells, inner.end_x() as u16, screen::put_start(inner, x), y, t, s);
        let next = screen::put_end(cells, inner, x, y, t, s);
        let drawn = screen::put_cells(cells, inner, x, y, t, s);
        lemma_pieces_only(drawn, inner, next, y, pieces, base, k + 1);
        let rest = file_diff::pieces_cells(drawn, inner, next, y, pieces, base, k + 1);
        let after = file_diff::pieces_cells(cells, inner, x, y, pieces, base, k);
        assert(after == drawn || after == rest);
        assert forall|u: u16, v: u16| v != y implies #[trigger] after[(u, v)] == cells[(u, v)] by {
            assert(drawn[(u, v)] == cells[(u, v)]);
            assert(rest[(u, v)] == drawn[(u, v)]);
        }
    }
}

proof fn lemma_line_only(
    cells: Cells,
    inner: Rect,
    y: u16,
    line: DiffLine,
    pieces: Option<Seq<(Style, String)>>,
    width: nat,
)
    requires
        inner.end_x() < 65535,
    ensures
        forall|u: u16, v: u16|
            v != y ==> #[trigger] file_diff::line_cells(cells, inner, y, line, pieces, width)[(u, v)]
                == cells[(u, v)],
{
    let base = file_diff::row_style(line);
    let right = inner.end_x() as u16;
    let blanks = text::repeated(' ', inner.width as nat);
    let start = screen::put_start(inner, inner.x);
    lemma_put_only(cells, right, start, y, blanks, base);
    let filled = if file_diff::ground(line) is Some {
        screen::put_cells(cells, inner, inner.x, y, blanks, base)
    } else {
        cells
    };
    let number_style = base.with_fg(Color::Rgb(0x5A, 0x64, 0x72));
    let g = file_diff::gutter_text(line, width);
    lemma_put_only(filled, right, start, y, g, number_style);
    let numbered = screen::put_cells(filled, inner, inner.x, y, g, number_style);
    let x = screen::put_end(filled, inner, inner.x, y, g, number_style);
    match pieces {
        Some(p) => lemma_pieces_only(numbered, inner, x, y, p, base, 0),
        None => lemma_put_only(
            numbered,
            right,
            screen::put_start(inner, x),
            y,
            file_diff::untabbed(file_diff::line_text(line)),
            base,
        ),
    }
}

/// Law: the lines of a diff stand one under the other, from the first one in view:
/// what is seen in the end on row `k` is what drawing the line there made of it.
pub proof fn law_diff_lines_stand_in_order(
    cells: Cells,
    inner: Rect,
    h: HighlightedDiff,
    scroll: nat,
    n: int,
    k: int,
    u: u16,
)
    requires
        0 <= k < n,
        inner.end_x() < 65535,
        inner.y + n <= 65535,
    ensures
        ({
            let lines = h.diff.lines@;
            let after = file_diff::lines_cells(cells, inner, h, scroll, n);
            let before = file_diff::lines_cells(cells, inner, h, scroll, k);
            let y = (inner.y + k) as u16;
            let pieces = if scroll + k < h.spans@.len() {
                Some(h.spans@[scroll + k]@)
            } else {
                None
            };
            after[(u, y)] == file_diff::line_cells(
                before,
                inner,
                y,
                lines[scroll + k],
                pieces,
                file_diff::number_width(lines, lines.len() as int) as nat,
            )[(u, y)]
        }),
    decreases n,
{
    let lines = h.diff.lines@;
    if k < n - 1 {
        law_diff_lines_stand_in_order(cells, inner, h, scroll, n - 1, k, u);
        lemma_line_only(
            file_diff::lines_cells(cells, inner, h, scroll, n - 1),
            inner,
            (inner.y + n - 1) as u16,
            lines[scroll + n - 1],
            file_diff::pieces_of(h, scroll + n - 1),
            file_diff::number_width(lines, lines.len() as int) as nat,
        );
    }
}

/// Law: a tab is four blanks, and nothing else changes.
pub proof fn law_tabs(a: Seq<char>, c: char)
    ensures
        c == '\t' ==> file_diff::untabbed(a.push(c)) == file_diff::untabbed(a) + seq![
            ' ',
            ' ',
            ' ',
            ' ',
        ],
        c != '\t' ==> file_diff::untabbed(a.push(c)) == file_diff::untabbed(a).push(c),
        file_diff::untabbed(Seq::empty()).len() == 0,
{
    assert(a.push(c).drop_last() =~= a);
    assert(text::repeated(' ', 4) =~= seq![' ', ' ', ' ', ' ']);
}

/// Law: a match in the dropdown reads as its commit's first line and author.
pub proof fn law_match_reads(
    cells: Cells,
    list: Rect,
    y: u16,
    width: nat,
    nodes: Seq<GraphNode>,
    row: usize,
    is_selected: bool,
)
    requires
        list.end_x() < 65535,
        row < nodes.len(),
        nodes[row as int].commit is Some,
        ({
            let c = nodes[row as int].commit->0;
            let line = text::first_line(c.summary@);
            let author = seq![' ', ' '] + c.author@;
            &&& narrow(line) && narrow(author)
            &&& list.x + line.len() + author.len() <= list.end_x()
        }),
    ensures
        ({
            let c = nodes[row as int].commit->0;
            let line = text::first_line(c.summary@);
            let after = search::match_cells(cells, list, y, width, nodes, row, is_selected);
            reads(after, list.x as int, y, line + (seq![' ', ' '] + c.author@))
        }),
{
    reveal_strlit("  ");
    assert("  "@ =~= seq![' ', ' ']);
    let base = graph_view::base_style(is_selected);
    let right = list.end_x() as u16;
    let band = if is_selected {
        screen::put_cells(cells, list, list.x, y, text::repeated(' ', width), base)
    } else {
        cells
    };
    let c = nodes[row as int].commit->0;
    let line = text::first_line(c.summary@);
    let author = "  "@ + c.author@;
    let s = if is_selected {
        base
    } else {
        base.with_fg(style::dim_color())
    };
    lemma_put(band, right, list.x, y, line, base);
    let named = screen::put_cells(band, list, list.x, y, line, base);
    let x = screen::put_end(band, list, list.x, y, line, base);
    lemma_put(named, right, x, y, author, s);
    let after = screen::put_cells(named, list, x, y, author, s);
    lemma_reads_now(band, named, list.x as int, y, line, base);
    lemma_reads_on(named, after, x as int, y, author, s, list.x as int, line);
    lemma_reads_now(named, after, x as int, y, author, s);
    lemma_reads_join(after, list.x as int, y, line, author);
}

/// Law: the status says which match is highlighted, counted from one, of how many,
/// and how many commits the search could not see.
pub proof fn law_status(found: Seq<usize>, highlighted: nat, not_loaded: nat)
    ensures
        ({
            let count = text::decimal_text(highlighted + 1) + seq!['/'] + text::decimal_text(
                found.len(),
            );
            let more = text::decimal_text(not_loaded) + " not loaded"@;
            &&& found.len() > 0 ==> search::counter_text(found, highlighted) == Some(count)
            &&& found.len() == 0 ==> search::counter_text(found, highlighted) is None
            &&& found.len() > 0 && not_loaded == 0 ==> search::status_text(
                found,
                highlighted,
                not_loaded,
            ) == Some(count)
            &&& found.len() > 0 && not_loaded > 0 ==> search::status_text(
                found,
                highlighted,
                not_loaded,
            ) == Some(count + " · "@ + more)
            &&& found.len() == 0 && not_loaded > 0 ==> search::status_text(
                found,
                highlighted,
                not_loaded,
            ) == Some(more)
            &&& found.len() == 0 && not_loaded == 0 ==> search::status_text(
                found,
                highlighted,
                not_loaded,
            ) is None
        }),
{
    reveal_strlit("/");
    assert("/"@ =~= seq!['/']);
}

/// Law: the dropdown is as wide as the pane it hangs from, begins at its top, and has
/// a row for the query, one for each match up to ten, and its border, as far as the
/// pane reaches.
pub proof fn law_dropdown_size(area: Rect, typed: Seq<char>, found: Seq<usize>)
    ensures
        ({
            let d = search::dropdown(area, typed, found);
            let rows: int = if found.len() == 0 && typed.len() == 0 {
                0
            } else if found.len() == 0 {
                1
            } else if found.len() <= 10 {
                found.len() as int
            } else {
                10
            };
            &&& d.x == area.x && d.y == area.y && d.width == area.width
            &&& rows + 3 <= area.height ==> d.height == rows + 3
            &&& rows + 3 > area.height ==> d.height == area.height
        }),
{
}

/// Law: the help tells what the keys do.
pub proof fn law_help_names_every_key()
    ensures
        help::key_row(0) == ("j/k, ↑/↓"@, "move the focused pane"@),
        help::key_row(1) == ("Ctrl+d/Ctrl+u"@, "half page down/up"@),
        help::key_row(2) == ("PageDown/PageUp"@, "page down/up"@),
        help::key_row(3) == ("g/Home, G/End"@, "jump to newest/oldest"@),
        help::key_row(4) == ("@"@, "jump to HEAD"@),
        help::key_row(5) == ("[ / ]"@, "jump between decorated commits"@),
        help::key_row(6) == ("Tab, Shift+Tab"@, "cycle focus: graph, detail, files"@),
        help::key_row(7) == ("Enter"@, "open the selected file's diff"@),
        help::key_row(8) == ("/"@, "search commit summaries and authors"@),
        help::key_row(9) == ("o / t"@, "toggle remote branches / tags"@),
        help::key_row(10) == ("y"@, "copy the selected commit's hash"@),
        help::key_row(11) == ("R"@, "re-read the repository"@),
        help::key_row(12) == ("?"@, "show this help"@),
        help::key_row(13) == ("q, Esc"@, "close"@),
{
}

/// Law: the help stands in the middle of its area, within it: what is left above it
/// and below it, and to either side, differs by one at most.
pub proof fn law_help_is_centred(area: Rect)
    requires
        area.x + area.width <= 65535,
        area.y + area.height <= 65535,
        help::keys_width(14) >= 0,
        help::meanings_width(14) >= 0,
    ensures
        ({
            let p = help::popup(area);
            let (left, above) = (p.x - area.x, p.y - area.y);
            let (right, below) = (
                area.width - p.width - left,
                area.height - p.height - above,
            );
            &&& left >= 0 && above >= 0 && right >= 0 && below >= 0
            &&& 0 <= right - left <= 1
            &&& 0 <= below - above <= 1
            &&& p.height <= 16
        }),
{
}

/// The status that the query row shows: the longest of the two that leaves a column
/// behind the cursor.
pub open spec fn status_shown(
    room: int,
    found: Seq<usize>,
    highlighted: nat,
    not_loaded: nat,
) -> Option<Seq<char>> {
    let long = search::status_text(found, highlighted, not_loaded);
    let short = search::counter_text(found, highlighted);
    if long is Some && (long->0).len() <= room {
        long
    } else if short is Some && (short->0).len() <= room {
        short
    } else {
        None
    }
}

/// Law: the query row reads a slash, what was typed and the cursor, from the left
/// edge; the status ends at the right edge.
pub proof fn law_query_reads(
    cells: Cells,
    inner: Rect,
    typed: Seq<char>,
    found: Seq<usize>,
    highlighted: nat,
    not_loaded: nat,
)
    requires
        inner.x + inner.width < 65535,
        typed.len() + 2 <= inner.width,
        narrow(seq!['/'] + typed),
        narrow(seq!['▏']),
        search::status_text(found, highlighted, not_loaded) matches Some(s) ==> narrow(s)
            && screen::text_columns(s) == s.len() && s.len() < 65535,
        search::counter_text(found, highlighted) matches Some(s) ==> narrow(s)
            && screen::text_columns(s) == s.len() && s.len() < 65535,
    ensures
        ({
            let after = search::query_cells(cells, inner, typed, found, highlighted, not_loaded);
            let room = inner.width - (typed.len() + 2);
            let status = status_shown(room, found, highlighted, not_loaded);
            &&& reads(after, inner.x as int, inner.y, seq!['/'] + typed + seq!['▏'])
            &&& status matches Some(s) ==> reads(
                after,
                inner.x + inner.width - s.len(),
                inner.y,
                s,
            )
        }),
{
    reveal_strlit("/");
    reveal_strlit("▏");
    assert("/"@ =~= seq!['/']);
    assert("▏"@ =~= seq!['▏']);
    let right = inner.end_x() as u16;
    let line = "/"@ + typed;
    let plain = style::plain();
    let bright = plain.with_fg(style::accent_color());
    let quiet = plain.with_fg(style::dim_color());
    let c1 = screen::put_cells(cells, inner, inner.x, inner.y, line, plain);
    lemma_put(cells, right, inner.x, inner.y, line, plain);
    let x = screen::put_end(cells, inner, inner.x, inner.y, line, plain);
    let c2 = screen::put_cells(c1, inner, x, inner.y, "▏"@, bright);
    lemma_put(c1, right, x, inner.y, "▏"@, bright);
    lemma_reads_now(cells, c1, inner.x as int, inner.y, line, plain);
    lemma_reads_on(c1, c2, x as int, inner.y, "▏"@, bright, inner.x as int, line);
    lemma_reads_now(c1, c2, x as int, inner.y, "▏"@, bright);
    lemma_reads_join(c2, inner.x as int, inner.y, line, "▏"@);
    let room = inner.width - (typed.len() + 2);
    let after = search::query_cells(cells, inner, typed, found, highlighted, not_loaded);
    let all = line + "▏"@;
    let long = search::status_text(found, highlighted, not_loaded);
    let short = search::counter_text(found, highlighted);
    assert(x == inner.x + line.len());
    if long is Some {
        assert(search::status_fits(inner, x, long->0) == ((long->0).len() <= room));
    }
    if short is Some {
        assert(search::status_fits(inner, x, short->0) == ((short->0).len() <= room));
    }
    match status_shown(room, found, highlighted, not_loaded) {
        Some(s) => {
            let at = (inner.x + inner.width - s.len()) as u16;
            assert(after == search::status_cells(c2, inner, s));
            assert(after == screen::put_cells(c2, inner, at, inner.y, s, quiet));
            lemma_put(c2, right, at, inner.y, s, quiet);
            lemma_reads_now(c2, after, at as int, inner.y, s, quiet);
            lemma_reads_on(c2, after, at as int, inner.y, s, quiet, inner.x as int, all);
        },
        None => {
            assert(after == c2);
        },
    }
}

/// Law: where there is nothing to list, the pane says why: the files are being read,
/// cannot be read, could not be, or there are none. Its title counts the files once
/// they are known.
pub proof fn law_file_pane_says_why(detail: DetailState)
    ensures
        detail is Loading ==> file_list::empty_message(detail) == "Loading…"@,
        detail is Unavailable ==> file_list::empty_message(detail) == "diffs unavailable"@,
        detail is Failed ==> file_list::empty_message(detail) == "diff failed"@,
        detail is Ready ==> file_list::empty_message(detail) == "no files changed"@,
        detail matches DetailState::Ready(d) ==> file_list::pane_title(detail)
            == " Changed Files ("@ + text::decimal_text(d.files@.len()) + ") "@
            && file_list::files_of(detail) == d.files@,
        !(detail is Ready) ==> file_list::pane_title(detail) == " Changed Files "@
            && file_list::files_of(detail).len() == 0,
{
}

/// Law: a binary file is said to be one on the first row; a diff that was cut short
/// says so on the last row.
pub proof fn law_diff_notes(cells: Cells, inner: Rect, h: HighlightedDiff, scroll: nat)
    requires
        inner.x + inner.width < 65535,
        0 < inner.height,
        inner.y + inner.height <= 65535,
        "binary file"@.len() <= inner.width,
        "… diff truncated"@.len() <= inner.width,
        narrow("binary file"@),
        narrow("… diff truncated"@),
    ensures
        ({
            let after = file_diff::diff_cells(cells, inner, h, scroll);
            &&& h.diff.binary ==> reads(after, inner.x as int, inner.y, "binary file"@)
            &&& !h.diff.binary && h.diff.truncated ==> reads(
                after,
                inner.x as int,
                (inner.y + inner.height - 1) as u16,
                "… diff truncated"@,
            )
        }),
{
    let right = inner.end_x() as u16;
    let quiet = style::plain().with_fg(style::dim_color());
    let after = file_diff::diff_cells(cells, inner, h, scroll);
    if h.diff.binary {
        lemma_put(cells, right, inner.x, inner.y, "binary file"@, quiet);
        lemma_reads_now(cells, after, inner.x as int, inner.y, "binary file"@, quiet);
    } else if h.diff.truncated {
        let y = (inner.y + inner.height - 1) as u16;
        let drawn = file_diff::lines_cells(
            cells,
            inner,
            h,
            scroll,
            file_diff::lines_shown(h.diff.lines@.len(), inner, scroll),
        );
        lemma_put(drawn, right, inner.x, y, "… diff truncated"@, quiet);
        lemma_reads_now(drawn, after, inner.x as int, y, "… diff truncated"@, quiet);
    }
}

/// Law: a search without a match says so below the query once something was typed.
pub proof fn law_no_matches(
    cells: Cells,
    list: Rect,
    width: nat,
    nodes: Seq<GraphNode>,
    typed: Seq<char>,
    highlighted: nat,
)
    requires
        list.x + list.width < 65535,
        list.height > 0,
        "no matches"@.len() <= list.width,
        narrow("no matches"@),
    ensures
        ({
            let after = search::list_cells(
                cells,
                list,
                width,
                nodes,
                typed,
                Seq::empty(),
                highlighted,
            );
            &&& typed.len() > 0 ==> reads(after, list.x as int, list.y, "no matches"@)
            &&& typed.len() == 0 ==> after == cells
        }),
{
    let quiet = style::plain().with_fg(style::dim_color());
    if typed.len() > 0 {
        lemma_put(cells, list.end_x() as u16, list.x, list.y, "no matches"@, quiet);
        lemma_reads_now(
            cells,
            search::list_cells(cells, list, width, nodes, typed, Seq::empty(), highlighted),
            list.x as int,
            list.y,
            "no matches"@,
            quiet,
        );
    }
}

} // verus!
