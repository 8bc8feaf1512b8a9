//! The changed-files pane.
use crate::geometry;
use crate::geometry::Rect;
use crate::git::diff::{FileChange, FileStat};
use crate::screen;
use crate::screen::{draw_block, put, Cells};
use crate::state::DetailState;
use crate::style;
use crate::style::{dim, Color, Style, REVERSED};
use crate::text;
use crate::ui::graph_view;
use ratatui::buffer::Buffer;
use vstd::prelude::*;
use vstd::string::*;

verus! {

/// The colour of an added-lines count.
pub open spec fn green() -> Color {
    Color::Rgb(0x79, 0xD1, 0x8C)
}

/// The colour of a removed-lines count.
pub open spec fn red() -> Color {
    Color::Rgb(0xE5, 0x59, 0x5E)
}

/// One-letter status marker, in the vocabulary of `git status --short`.
pub open spec fn marker_of(change: FileChange) -> char {
    match change {
        FileChange::Added => 'A',
        FileChange::Modified => 'M',
        FileChange::Deleted => 'D',
        FileChange::Renamed { .. } => 'R',
    }
}

/// One-letter status marker.
pub fn marker(change: &FileChange) -> (r: char)
    ensures
        r == marker_of(*change),
{
    match change {
        FileChange::Added => 'A',
        FileChange::Modified => 'M',
        FileChange::Deleted => 'D',
        FileChange::Renamed { .. } => 'R',
    }
}

/// A path cut to `max` characters from the left, behind an ellipsis.
pub open spec fn fitted(path: Seq<char>, max: nat) -> Seq<char> {
    if max == 0 {
        Seq::empty()
    } else if path.len() <= max {
        path
    } else {
        seq!['…'] + path.skip(path.len() - (max - 1))
    }
}

/// Cuts a path that does not fit from the left, so that the filename is what
/// stays.
pub fn fit_path(path: &str, max: usize) -> (r: String)
    ensures
        r@ == fitted(path@, max as nat),
{
    if max == 0 {
        return String::new();
    }
    let chars = text::chars_of(path);
    if chars.len() <= max {
        return path.to_owned();
    }
    let tail = text::text_of(&chars, chars.len() - (max - 1), chars.len());
    let out = text::join2("…", tail.as_str());
    proof {
        reveal_strlit("…");
        assert(out@ =~= fitted(path@, max as nat));
    }
    out
}

/// Law: a cut path fills the room it is given and ends as the path does.
pub proof fn law_fitted(path: Seq<char>, max: nat)
    ensures
        fitted(path, max).len() == geometry::least(path.len() as int, max as int),
        max > 0 && path.len() > max ==> fitted(path, max).skip(1) == path.skip(
            path.len() - (max - 1),
        ),
{
    if max > 0 && path.len() > max {
        assert(fitted(path, max).skip(1) =~= path.skip(path.len() - (max - 1)));
    }
}

/// The pane's title.
pub open spec fn pane_title(detail: DetailState) -> Seq<char> {
    match detail {
        DetailState::Ready(d) => " Changed Files ("@ + text::decimal_text(d.files@.len()) + ") "@,
        _ => " Changed Files "@,
    }
}

/// The files there are to list.
pub open spec fn files_of(detail: DetailState) -> Seq<FileStat> {
    match detail {
        DetailState::Ready(d) => d.files@,
        _ => Seq::empty(),
    }
}

/// What the pane says when there is nothing to list.
pub open spec fn empty_message(detail: DetailState) -> Seq<char> {
    match detail {
        DetailState::Loading => "Loading…"@,
        DetailState::Unavailable => "diffs unavailable"@,
        DetailState::Failed(_) => "diff failed"@,
        DetailState::Ready(_) => "no files changed"@,
    }
}

/// The border's colour.
pub open spec fn border_of(focused: bool) -> (u8, u8, u8) {
    if focused {
        (0xF3, 0xB2, 0x4C)
    } else {
        (0x8B, 0x94, 0xA2)
    }
}

/// The border's colour.
pub fn border(focused: bool) -> (r: (u8, u8, u8))
    ensures
        r == border_of(focused),
{
    if focused {
        (0xF3, 0xB2, 0x4C)
    } else {
        (0x8B, 0x94, 0xA2)
    }
}

/// The cells once one file's row was drawn: the marker, the path, and either
/// what stands in for the counts or the counts.
pub open spec fn file_cells(
    cells: Cells,
    inner: Rect,
    y: u16,
    file: FileStat,
    base: Style,
) -> Cells {
    let mark = seq![marker_of(file.change)] + "  "@;
    let c1 = screen::put_cells(cells, inner, inner.x, y, mark, base);
    let x1 = screen::put_end(cells, inner, inner.x, y, mark, base);
    let path = fitted(file.path@, geometry::most(inner.width - 3, 0) as nat);
    let c2 = screen::put_cells(c1, inner, x1, y, path, base);
    let x2 = screen::put_end(c1, inner, x1, y, path, base);
    if file.unreadable is Some {
        screen::put_cells(c2, inner, x2, y, "  unreadable"@, base.with_fg(red()))
    } else if file.binary {
        screen::put_cells(c2, inner, x2, y, "  binary"@, base.with_fg(style::dim_color()))
    } else {
        let plus = "  +"@ + text::decimal_text(file.insertions as nat);
        let minus = " -"@ + text::decimal_text(file.removals as nat);
        let c3 = screen::put_cells(c2, inner, x2, y, plus, base.with_fg(green()));
        let x3 = screen::put_end(c2, inner, x2, y, plus, base.with_fg(green()));
        screen::put_cells(c3, inner, x3, y, minus, base.with_fg(red()))
    }
}

/// How many files are shown from `scroll` on.
pub open spec fn files_shown(files: nat, inner: Rect, scroll: nat) -> int {
    geometry::least(geometry::most(files - scroll, 0), inner.height as int)
}

/// The cells once the first `n` shown files were drawn. The selected one stands
/// out while the pane has the focus.
pub open spec fn rows_cells(
    cells: Cells,
    inner: Rect,
    files: Seq<FileStat>,
    selected: nat,
    scroll: nat,
    focused: bool,
    n: int,
) -> Cells
    decreases n,
{
    if n <= 0 {
        cells
    } else {
        file_cells(
            rows_cells(cells, inner, files, selected, scroll, focused, n - 1),
            inner,
            (inner.y + n - 1) as u16,
            files[scroll + n - 1],
            graph_view::base_style(scroll + n - 1 == selected && focused),
        )
    }
}

/// The cells once the pane was drawn.
pub open spec fn pane_cells(
    cells: Cells,
    bounds: Rect,
    area: Rect,
    detail: DetailState,
    selected: nat,
    scroll: nat,
    focused: bool,
) -> Cells {
    if area.is_blank() {
        cells
    } else {
        let inner = area.inside();
        let files = files_of(detail);
        let boxed = screen::block_cells(
            cells,
            bounds,
            area,
            pane_title(detail),
            border_of(focused),
            None,
        );
        if inner.is_blank() {
            boxed
        } else if files.len() == 0 {
            screen::put_cells(
                boxed,
                inner,
                inner.x,
                inner.y,
                empty_message(detail),
                style::plain().with_fg(style::dim_color()),
            )
        } else {
            rows_cells(
                boxed,
                inner,
                files,
                selected,
                scroll,
                focused,
                files_shown(files.len(), inner, scroll),
            )
        }
    }
}

/// Draws one file's row.
fn draw_file(buf: &mut Buffer, inner: Rect, y: u16, file: &FileStat, base: Style)
    requires
        screen::drawable(inner, screen::buffer_area(*old(buf))),
        inner.y <= y < inner.end_y(),
    ensures
        screen::buffer_area(*final(buf)) == screen::buffer_area(*old(buf)),
        screen::buffer_cells(*final(buf)) == file_cells(
            screen::buffer_cells(*old(buf)),
            inner,
            y,
            *file,
            base,
        ),
        screen::same_outside(
            screen::buffer_cells(*old(buf)),
            screen::buffer_cells(*final(buf)),
            inner,
        ),
{
    let ghost c0 = screen::buffer_cells(*buf);
    let mut mark = String::new();
    mark.push(marker(&file.change));
    mark.append("  ");
    proof {
        assert(mark@ =~= seq![marker_of(file.change)] + "  "@);
    }
    let x: u16 = put(buf, inner, inner.x, y, mark.as_str(), base);
    let ghost c1 = screen::buffer_cells(*buf);
    let path = fit_path(file.path.as_str(), (inner.width as usize).saturating_sub(3));
    let x: u16 = put(buf, inner, x, y, path.as_str(), base);
    let ghost c2 = screen::buffer_cells(*buf);
    proof {
        screen::lemma_also(c0, c1, c2, inner, inner);
    }
    if file.unreadable.is_some() {
        put(buf, inner, x, y, "  unreadable", base.fg(Color::Rgb(0xE5, 0x59, 0x5E)));
        proof {
            screen::lemma_also(c0, c2, screen::buffer_cells(*buf), inner, inner);
        }
    } else if file.binary {
        put(buf, inner, x, y, "  binary", base.fg(dim()));
        proof {
            screen::lemma_also(c0, c2, screen::buffer_cells(*buf), inner, inner);
        }
    } else {
        let ins = text::decimal(file.insertions as u64);
        let plus = text::join2("  +", ins.as_str());
        let x: u16 = put(buf, inner, x, y, plus.as_str(), base.fg(Color::Rgb(0x79, 0xD1, 0x8C)));
        let ghost c3 = screen::buffer_cells(*buf);
        let rem = text::decimal(file.removals as u64);
        let minus = text::join2(" -", rem.as_str());
        put(buf, inner, x, y, minus.as_str(), base.fg(Color::Rgb(0xE5, 0x59, 0x5E)));
        proof {
            screen::lemma_also(c0, c2, c3, inner, inner);
            screen::lemma_also(c0, c3, screen::buffer_cells(*buf), inner, inner);
        }
    }
}

/// Renders the pane, including its border.
pub fn draw_files(
    buf: &mut Buffer,
    area: Rect,
    detail: &DetailState,
    selected: usize,
    scroll: usize,
    focused: bool,
)
    requires
        screen::drawable(area, screen::buffer_area(*old(buf))),
        area.y + area.height <= 65535,
    ensures
        screen::buffer_area(*final(buf)) == screen::buffer_area(*old(buf)),
        screen::buffer_cells(*final(buf)) == pane_cells(
            screen::buffer_cells(*old(buf)),
            screen::buffer_area(*old(buf)),
            area,
            *detail,
            selected as nat,
            scroll as nat,
            focused,
        ),
        screen::same_outside(
            screen::buffer_cells(*old(buf)),
            screen::buffer_cells(*final(buf)),
            area,
        ),
{
    let ghost c0 = screen::buffer_cells(*buf);
    let ghost bounds = screen::buffer_area(*buf);
    proof {
        reveal(screen::same_outside);
        reveal_strlit(" Changed Files (");
        reveal_strlit(") ");
        reveal_strlit(" Changed Files ");
    }
    if area.is_empty() {
        return ;
    }
    let title = match detail {
        DetailState::Ready(d) => {
            let n = text::decimal(d.files.len() as u64);
            proof {
                text::lemma_decimal_len(d.files@.len());
            }
            text::join3(" Changed Files (", n.as_str(), ") ")
        },
        _ => " Changed Files ".to_owned(),
    };
    draw_block(buf, area, title.as_str(), border(focused), None);
    let ghost c1 = screen::buffer_cells(*buf);
    let inner = area.inset();
    proof {
        geometry::law_inside(area, bounds);
    }
    if inner.is_empty() {
        return ;
    }
    let count: usize = match detail {
        DetailState::Ready(d) => d.files.len(),
        _ => 0,
    };
    if count == 0 {
        let msg = match detail {
            DetailState::Loading => "Loading…",
            DetailState::Unavailable => "diffs unavailable",
            DetailState::Failed(_) => "diff failed",
            DetailState::Ready(_) => "no files changed",
        };
        put(buf, inner, inner.x, inner.y, msg, Style::default().fg(dim()));
        proof {
            screen::lemma_also(c0, c1, screen::buffer_cells(*buf), inner, area);
        }
        return ;
    }
    if let DetailState::Ready(d) = detail {
        let left: usize = d.files.len().saturating_sub(scroll);
        let shown: usize = if left <= inner.height as usize {
            left
        } else {
            inner.height as usize
        };
        let mut row: usize = 0;
        while row < shown
            invariant
                row <= shown,
                shown == files_shown(d.files@.len(), inner, scroll as nat),
                inner.within(area),
                inner.y + inner.height <= 65535,
                screen::drawable(inner, bounds),
                screen::buffer_area(*buf) == bounds,
                screen::buffer_cells(*buf) == rows_cells(
                    c1,
                    inner,
                    d.files@,
                    selected as nat,
                    scroll as nat,
                    focused,
                    row as int,
                ),
                screen::same_outside(c0, screen::buffer_cells(*buf), area),
            decreases shown - row,
        {
            assert(scroll + row < d.files.len());
            let index: usize = scroll + row;
            let base = if index == selected && focused {
                Style::default().add_modifier(REVERSED)
            } else {
                Style::default()
            };
            let ghost b0 = screen::buffer_cells(*buf);
            draw_file(buf, inner, inner.y + row as u16, &d.files[index], base);
            proof {
                screen::lemma_also(c0, b0, screen::buffer_cells(*buf), inner, area);
            }
            row += 1;
        }
    }
}

} // verus!
