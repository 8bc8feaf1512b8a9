//! One file's diff, filling the overlay.
//!
//! Line numbers on the left, then the change marker, then the text. The pieces
//! of a line arrive already styled; a line that comes without them is painted
//! from its own text.
use crate::geometry;
use crate::geometry::Rect;
use crate::git::diff::DiffLine;
use crate::screen;
use crate::screen::{draw_block, put, Cells};
use crate::state::FileDiffState;
use crate::style;
use crate::style::{dim, Color, Style};
use crate::text;
use crate::worker::HighlightedDiff;
use ratatui::buffer::Buffer;
use vstd::prelude::*;
use vstd::string::*;

verus! {

/// Columns a tab occupies.
pub const TAB_WIDTH: usize = 4;

/// How many decimal digits `n` has.
pub fn digits(n: u32) -> (r: usize)
    ensures
        r == text::decimal_text(n as nat).len(),
        1 <= r <= 20,
{
    let mut rest: u32 = n;
    let mut count: usize = 1;
    proof {
        text::lemma_decimal_len(n as nat);
    }
    while rest >= 10
        invariant
            1 <= count <= 20,
            text::decimal_text(n as nat).len() <= 20,
            text::decimal_text(n as nat).len() == count - 1 + text::decimal_text(rest as nat).len(),
        decreases rest,
    {
        proof {
            text::lemma_decimal_len((rest / 10) as nat);
        }
        rest = rest / 10;
        count += 1;
    }
    count
}

/// `text` with every tab replaced by blanks.
pub open spec fn untabbed(s: Seq<char>) -> Seq<char>
    decreases s.len(),
{
    if s.len() == 0 {
        s
    } else if s.last() == '\t' {
        untabbed(s.drop_last()) + text::repeated(' ', TAB_WIDTH as nat)
    } else {
        untabbed(s.drop_last()).push(s.last())
    }
}

/// Tabs as a fixed number of blanks: a tab itself has no width on screen.
pub fn expand_tabs(s: &str) -> (r: String)
    ensures
        r@ == untabbed(s@),
{
    let chars = text::chars_of(s);
    let blanks = text::repeat(' ', TAB_WIDTH);
    let mut out = String::new();
    let mut i: usize = 0;
    proof {
        assert(s@.take(0) =~= Seq::<char>::empty());
        assert(untabbed(s@.take(0)) =~= out@);
    }
    while i < chars.len()
        invariant
            i <= chars.len(),
            chars@ == s@,
            blanks@ == text::repeated(' ', TAB_WIDTH as nat),
            out@ == untabbed(s@.take(i as int)),
        decreases chars.len() - i,
    {
        proof {
            let next = s@.take(i + 1);
            assert(next.drop_last() =~= s@.take(i as int));
            assert(next.last() == s@[i as int]);
        }
        if chars[i] == '\t' {
            out.append(blanks.as_str());
        } else {
            out.push(chars[i]);
        }
        i += 1;
    }
    assert(s@.take(i as int) =~= s@);
    out
}

/// The line's number in the old file.
pub open spec fn old_number(line: DiffLine) -> Option<u32> {
    match line {
        DiffLine::Context { old, .. } => Some(old),
        DiffLine::Added { .. } => None,
        DiffLine::Removed { old, .. } => Some(old),
    }
}

/// The line's number in the new file.
pub open spec fn new_number(line: DiffLine) -> Option<u32> {
    match line {
        DiffLine::Context { new, .. } => Some(new),
        DiffLine::Added { new, .. } => Some(new),
        DiffLine::Removed { .. } => None,
    }
}

/// What stands between the numbers and the text.
pub open spec fn sign(line: DiffLine) -> char {
    match line {
        DiffLine::Context { .. } => ' ',
        DiffLine::Added { .. } => '+',
        DiffLine::Removed { .. } => '-',
    }
}

/// The background of a changed line.
pub open spec fn ground(line: DiffLine) -> Option<Color> {
    match line {
        DiffLine::Context { .. } => None,
        DiffLine::Added { .. } => Some(Color::Rgb(0x10, 0x2A, 0x18)),
        DiffLine::Removed { .. } => Some(Color::Rgb(0x2E, 0x14, 0x16)),
    }
}

/// The line's text.
pub open spec fn line_text(line: DiffLine) -> Seq<char> {
    match line {
        DiffLine::Context { text, .. } => text@,
        DiffLine::Added { text, .. } => text@,
        DiffLine::Removed { text, .. } => text@,
    }
}

/// A number as text, nothing where there is none.
pub open spec fn number_text(n: Option<u32>) -> Seq<char> {
    match n {
        Some(k) => text::decimal_text(k as nat),
        None => Seq::empty(),
    }
}

/// `s` behind as many blanks as bring it to `width` characters.
pub open spec fn right_aligned(s: Seq<char>, width: nat) -> Seq<char> {
    text::repeated(' ', geometry::most(width - s.len(), 0) as nat) + s
}

/// What stands in front of a line's text: both numbers, then the sign.
pub open spec fn gutter_text(line: DiffLine, width: nat) -> Seq<char> {
    right_aligned(number_text(old_number(line)), width) + " "@ + (right_aligned(
        number_text(new_number(line)),
        width,
    ) + " "@) + (seq![sign(line)] + " "@)
}

/// The widest number of the first `n` lines; one column where there is none.
pub open spec fn number_width(lines: Seq<DiffLine>, n: int) -> int
    decreases n,
{
    if n <= 0 {
        1
    } else {
        geometry::most(
            number_width(lines, n - 1),
            geometry::most(
                number_text(old_number(lines[n - 1])).len() as int,
                number_text(new_number(lines[n - 1])).len() as int,
            ),
        )
    }
}

/// The cells once the styled pieces from the `k`th on were drawn from column
/// `x`; what would start past the right edge is left out.
pub open spec fn pieces_cells(
    cells: Cells,
    inner: Rect,
    x: u16,
    y: u16,
    pieces: Seq<(Style, String)>,
    base: Style,
    k: int,
) -> Cells
    decreases pieces.len() - k,
{
    if k < 0 || k >= pieces.len() {
        cells
    } else {
        let s = pieces[k].0.patched(base);
        let t = untabbed(pieces[k].1@);
        let next = screen::put_end(cells, inner, x, y, t, s);
        let drawn = screen::put_cells(cells, inner, x, y, t, s);
        if next >= inner.end_x() {
            drawn
        } else {
            pieces_cells(drawn, inner, next, y, pieces, base, k + 1)
        }
    }
}

/// The style a line's row starts from.
pub open spec fn row_style(line: DiffLine) -> Style {
    match ground(line) {
        Some(b) => style::plain().with_bg(b),
        None => style::plain(),
    }
}

/// The cells once one line was drawn: a changed line's background first, then
/// the gutter, then the text.
pub open spec fn line_cells(
    cells: Cells,
    inner: Rect,
    y: u16,
    line: DiffLine,
    pieces: Option<Seq<(Style, String)>>,
    width: nat,
) -> Cells {
    let base = row_style(line);
    let filled = if ground(line) is Some {
        screen::put_cells(
            cells,
            inner,
            inner.x,
            y,
            text::repeated(' ', inner.width as nat),
            base,
        )
    } else {
        cells
    };
    let number_style = base.with_fg(Color::Rgb(0x5A, 0x64, 0x72));
    let gutter = gutter_text(line, width);
    let numbered = screen::put_cells(filled, inner, inner.x, y, gutter, number_style);
    let x = screen::put_end(filled, inner, inner.x, y, gutter, number_style);
    match pieces {
        Some(p) => pieces_cells(numbered, inner, x, y, p, base, 0),
        None => screen::put_cells(numbered, inner, x, y, untabbed(line_text(line)), base),
    }
}

/// The styled pieces of line `i`, where there are any.
pub open spec fn pieces_of(h: HighlightedDiff, i: int) -> Option<Seq<(Style, String)>> {
    if 0 <= i < h.spans@.len() {
        Some(h.spans@[i]@)
    } else {
        None
    }
}

/// How many lines are shown from `scroll` on.
pub open spec fn lines_shown(lines: nat, inner: Rect, scroll: nat) -> int {
    geometry::least(geometry::most(lines - scroll, 0), inner.height as int)
}

/// The cells once the first `n` shown lines were drawn.
pub open spec fn lines_cells(
    cells: Cells,
    inner: Rect,
    h: HighlightedDiff,
    scroll: nat,
    n: int,
) -> Cells
    decreases n,
{
    if n <= 0 {
        cells
    } else {
        let lines = h.diff.lines@;
        line_cells(
            lines_cells(cells, inner, h, scroll, n - 1),
            inner,
            (inner.y + n - 1) as u16,
            lines[scroll + n - 1],
            pieces_of(h, scroll + n - 1),
            number_width(lines, lines.len() as int) as nat,
        )
    }
}

/// The view's title: the path it shows.
pub open spec fn view_title(state: FileDiffState) -> Seq<char> {
    match state {
        FileDiffState::Closed => " diff "@,
        FileDiffState::Loading(path) => " "@ + path@ + " "@,
        FileDiffState::Ready(h) => " "@ + h.diff.path@ + " "@,
        FileDiffState::Failed(_) => " diff "@,
    }
}

/// The view's title.
pub fn title_text(state: &FileDiffState) -> (r: String)
    ensures
        r@ == view_title(*state),
{
    match state {
        FileDiffState::Closed => " diff ".to_owned(),
        FileDiffState::Loading(path) => text::join3(" ", path.as_str(), " "),
        FileDiffState::Ready(h) => text::join3(" ", h.diff.path.as_str(), " "),
        FileDiffState::Failed(_) => " diff ".to_owned(),
    }
}

/// The cells once a diff was drawn: its lines, and over the last row a note
/// where the diff was cut short.
pub open spec fn diff_cells(cells: Cells, inner: Rect, h: HighlightedDiff, scroll: nat) -> Cells {
    let quiet = style::plain().with_fg(style::dim_color());
    if h.diff.binary {
        screen::put_cells(cells, inner, inner.x, inner.y, "binary file"@, quiet)
    } else {
        let drawn = lines_cells(
            cells,
            inner,
            h,
            scroll,
            lines_shown(h.diff.lines@.len(), inner, scroll),
        );
        if h.diff.truncated {
            screen::put_cells(
                drawn,
                inner,
                inner.x,
                (inner.y + inner.height - 1) as u16,
                "… diff truncated"@,
                quiet,
            )
        } else {
            drawn
        }
    }
}

/// The cells once the view was drawn.
pub open spec fn view_cells(
    cells: Cells,
    bounds: Rect,
    area: Rect,
    state: FileDiffState,
    scroll: nat,
) -> Cells {
    if area.is_blank() {
        cells
    } else {
        let inner = area.inside();
        let quiet = style::plain().with_fg(style::dim_color());
        let boxed = screen::block_cells(
            cells,
            bounds,
            area,
            view_title(state),
            (0xF3, 0xB2, 0x4C),
            None,
        );
        if inner.is_blank() {
            boxed
        } else {
            match state {
                FileDiffState::Closed => boxed,
                FileDiffState::Loading(_) => screen::put_cells(
                    boxed,
                    inner,
                    inner.x,
                    inner.y,
                    "Loading…"@,
                    quiet,
                ),
                FileDiffState::Failed(msg) => screen::put_cells(
                    boxed,
                    inner,
                    inner.x,
                    inner.y,
                    msg@,
                    quiet,
                ),
                FileDiffState::Ready(h) => diff_cells(boxed, inner, h, scroll),
            }
        }
    }
}

/// How many rows of diff the view has room for.
pub open spec fn view_rows(area: Rect) -> nat {
    if area.is_blank() || area.inside().is_blank() {
        0
    } else {
        area.inside().height as nat
    }
}

/// `s` behind as many blanks as bring it to `width` characters.
fn align_right(s: &str, width: usize) -> (r: String)
    ensures
        r@ == right_aligned(s@, width as nat),
{
    let n: usize = text::chars_of(s).len();
    let fill = text::repeat(' ', width.saturating_sub(n));
    text::join2(fill.as_str(), s)
}

/// A number as text, nothing where there is none.
fn number(n: Option<u32>) -> (r: String)
    ensures
        r@ == number_text(n),
{
    match n {
        Some(k) => text::decimal(k as u64),
        None => String::new(),
    }
}

/// What stands in front of a line's text.
fn gutter(old: Option<u32>, new: Option<u32>, mark: char, width: usize) -> (r: String)
    ensures
        r@ == right_aligned(number_text(old), width as nat) + " "@ + (right_aligned(
            number_text(new),
            width as nat,
        ) + " "@) + (seq![mark] + " "@),
{
    let a = number(old);
    let b = number(new);
    let left = align_right(a.as_str(), width);
    let right = align_right(b.as_str(), width);
    let mut out = text::join2(left.as_str(), " ");
    let mut second = text::join2(right.as_str(), " ");
    let mut third = String::new();
    third.push(mark);
    third.append(" ");
    proof {
        assert(third@ =~= seq![mark] + " "@);
    }
    second.append(third.as_str());
    out.append(second.as_str());
    proof {
        assert(out@ =~= right_aligned(number_text(old), width as nat) + " "@ + (right_aligned(
            number_text(new),
            width as nat,
        ) + " "@) + (seq![mark] + " "@));
    }
    out
}

/// The widest line number of a diff.
fn widest_number(lines: &Vec<DiffLine>) -> (r: usize)
    ensures
        r == number_width(lines@, lines@.len() as int),
        r <= 20,
{
    let mut widest: usize = 1;
    let mut i: usize = 0;
    while i < lines.len()
        invariant
            i <= lines.len(),
            widest == number_width(lines@, i as int),
            1 <= widest <= 20,
        decreases lines.len() - i,
    {
        let w: usize = match &lines[i] {
            DiffLine::Context { old, new, .. } => {
                let a: usize = digits(*old);
                let b: usize = digits(*new);
                if a >= b {
                    a
                } else {
                    b
                }
            },
            DiffLine::Added { new, .. } => digits(*new),
            DiffLine::Removed { old, .. } => digits(*old),
        };
        if w > widest {
            widest = w;
        }
        i += 1;
    }
    widest
}

/// Draws a line's styled pieces.
fn draw_pieces(
    buf: &mut Buffer,
    inner: Rect,
    x: u16,
    y: u16,
    pieces: &Vec<(Style, String)>,
    base: Style,
)
    requires
        screen::drawable(inner, screen::buffer_area(*old(buf))),
        inner.y <= y < inner.end_y(),
    ensures
        screen::buffer_area(*final(buf)) == screen::buffer_area(*old(buf)),
        screen::buffer_cells(*final(buf)) == pieces_cells(
            screen::buffer_cells(*old(buf)),
            inner,
            x,
            y,
            pieces@,
            base,
            0,
        ),
        screen::same_outside(
            screen::buffer_cells(*old(buf)),
            screen::buffer_cells(*final(buf)),
            inner,
        ),
{
    let ghost c0 = screen::buffer_cells(*buf);
    let ghost bounds = screen::buffer_area(*buf);
    let ghost goal = pieces_cells(c0, inner, x, y, pieces@, base, 0);
    proof {
        reveal(screen::same_outside);
    }
    let right: u16 = inner.right();
    let mut cx: u16 = x;
    let mut k: usize = 0;
    while k < pieces.len()
        invariant
            k <= pieces.len(),
            right == inner.end_x(),
            screen::drawable(inner, bounds),
            inner.y <= y < inner.end_y(),
            bounds == screen::buffer_area(*old(buf)),
            c0 == screen::buffer_cells(*old(buf)),
            goal == pieces_cells(c0, inner, x, y, pieces@, base, 0),
            screen::buffer_area(*buf) == bounds,
            screen::same_outside(c0, screen::buffer_cells(*buf), inner),
            goal == pieces_cells(
                screen::buffer_cells(*buf),
                inner,
                cx,
                y,
                pieces@,
                base,
                k as int,
            ),
        decreases pieces.len() - k,
    {
        let ghost b0 = screen::buffer_cells(*buf);
        let shown = expand_tabs(pieces[k].1.as_str());
        cx = put(buf, inner, cx, y, shown.as_str(), pieces[k].0.patch(base));
        proof {
            screen::lemma_also(c0, b0, screen::buffer_cells(*buf), inner, inner);
        }
        if cx >= right {
            return ;
        }
        k += 1;
    }
}

/// Draws one line.
fn draw_line(
    buf: &mut Buffer,
    inner: Rect,
    y: u16,
    line: &DiffLine,
    pieces: Option<&Vec<(Style, String)>>,
    width: usize,
    blank: &str,
)
    requires
        screen::drawable(inner, screen::buffer_area(*old(buf))),
        inner.y <= y < inner.end_y(),
        blank@ == text::repeated(' ', inner.width as nat),
    ensures
        screen::buffer_area(*final(buf)) == screen::buffer_area(*old(buf)),
        screen::buffer_cells(*final(buf)) == line_cells(
            screen::buffer_cells(*old(buf)),
            inner,
            y,
            *line,
            match pieces {
                Some(p) => Some(p@),
                None => None,
            },
            width as nat,
        ),
        screen::same_outside(
            screen::buffer_cells(*old(buf)),
            screen::buffer_cells(*final(buf)),
            inner,
        ),
{
    let ghost c0 = screen::buffer_cells(*buf);
    proof {
        reveal(screen::same_outside);
    }
    let (old, new, mark, bg, words) = match line {
        DiffLine::Context { old, new, text } => (Some(*old), Some(*new), ' ', None, text),
        DiffLine::Added { new, text } => (
            None,
            Some(*new),
            '+',
            Some(Color::Rgb(0x10, 0x2A, 0x18)),
            text,
        ),
        DiffLine::Removed { old, text } => (
            Some(*old),
            None,
            '-',
            Some(Color::Rgb(0x2E, 0x14, 0x16)),
            text,
        ),
    };
    let base = match bg {
        Some(b) => Style::default().bg(b),
        None => Style::default(),
    };
    if bg.is_some() {
        put(buf, inner, inner.x, y, blank, base);
    }
    let ghost c1 = screen::buffer_cells(*buf);
    let front = gutter(old, new, mark, width);
    let x: u16 = put(
        buf,
        inner,
        inner.x,
        y,
        front.as_str(),
        base.fg(Color::Rgb(0x5A, 0x64, 0x72)),
    );
    let ghost c2 = screen::buffer_cells(*buf);
    match pieces {
        Some(p) => {
            draw_pieces(buf, inner, x, y, p, base);
        },
        None => {
            let shown = expand_tabs(words.as_str());
            put(buf, inner, x, y, shown.as_str(), base);
        },
    }
    proof {
        screen::lemma_also(c0, c1, c2, inner, inner);
        screen::lemma_also(c0, c2, screen::buffer_cells(*buf), inner, inner);
    }
}

/// Draws a diff's lines from `scroll` on.
fn draw_lines_of(buf: &mut Buffer, inner: Rect, h: &HighlightedDiff, scroll: usize)
    requires
        !inner.is_blank(),
        screen::drawable(inner, screen::buffer_area(*old(buf))),
        inner.y + inner.height <= 65535,
    ensures
        screen::buffer_area(*final(buf)) == screen::buffer_area(*old(buf)),
        screen::buffer_cells(*final(buf)) == diff_cells(
            screen::buffer_cells(*old(buf)),
            inner,
            *h,
            scroll as nat,
        ),
        screen::same_outside(
            screen::buffer_cells(*old(buf)),
            screen::buffer_cells(*final(buf)),
            inner,
        ),
{
    let ghost c0 = screen::buffer_cells(*buf);
    let ghost bounds = screen::buffer_area(*buf);
    proof {
        reveal(screen::same_outside);
    }
    if h.diff.binary {
        put(buf, inner, inner.x, inner.y, "binary file", Style::default().fg(dim()));
        return ;
    }
    let width: usize = widest_number(&h.diff.lines);
    let blank = text::repeat(' ', inner.width as usize);
    let left: usize = h.diff.lines.len().saturating_sub(scroll);
    let shown: usize = if left <= inner.height as usize {
        left
    } else {
        inner.height as usize
    };
    let mut row: usize = 0;
    while row < shown
        invariant
            row <= shown,
            shown == lines_shown(h.diff.lines@.len(), inner, scroll as nat),
            width == number_width(h.diff.lines@, h.diff.lines@.len() as int),
            blank@ == text::repeated(' ', inner.width as nat),
            inner.y + inner.height <= 65535,
            screen::drawable(inner, bounds),
            screen::buffer_area(*buf) == bounds,
            screen::buffer_cells(*buf) == lines_cells(c0, inner, *h, scroll as nat, row as int),
            screen::same_outside(c0, screen::buffer_cells(*buf), inner),
        decreases shown - row,
    {
        assert(scroll + row < h.diff.lines.len());
        let index: usize = scroll + row;
        let pieces = if index < h.spans.len() {
            Some(&h.spans[index])
        } else {
            None
        };
        let ghost b0 = screen::buffer_cells(*buf);
        draw_line(
            buf,
            inner,
            inner.y + row as u16,
            &h.diff.lines[index],
            pieces,
            width,
            blank.as_str(),
        );
        proof {
            screen::lemma_also(c0, b0, screen::buffer_cells(*buf), inner, inner);
        }
        row += 1;
    }
    if h.diff.truncated {
        let ghost b0 = screen::buffer_cells(*buf);
        let y: u16 = inner.y + (inner.height - 1);
        put(buf, inner, inner.x, y, "… diff truncated", Style::default().fg(dim()));
        proof {
            screen::lemma_also(c0, b0, screen::buffer_cells(*buf), inner, inner);
        }
    }
}

/// Renders the view, including its border.
///
/// Returns how many rows of diff the view had room for.
pub fn draw_file_diff(buf: &mut Buffer, area: Rect, state: &FileDiffState, scroll: usize) -> (r:
    usize)
    requires
        screen::drawable(area, screen::buffer_area(*old(buf))),
        area.y + area.height <= 65535,
        view_title(*state).len() <= screen::TITLE_MAX,
    ensures
        r == view_rows(area),
        screen::buffer_area(*final(buf)) == screen::buffer_area(*old(buf)),
        screen::buffer_cells(*final(buf)) == view_cells(
            screen::buffer_cells(*old(buf)),
            screen::buffer_area(*old(buf)),
            area,
            *state,
            scroll as nat,
        ),
        screen::same_outside(
            screen::buffer_cells(*old(buf)),
            screen::buffer_cells(*final(buf)),
            area,
        ),
{
    let ghost c0 = screen::buffer_cells(*buf);
    let ghost bounds = screen::buffer_area(*buf);
    proof {
        reveal(screen::same_outside);
    }
    if area.is_empty() {
        return 0;
    }
    let title = title_text(state);
    draw_block(buf, area, title.as_str(), (0xF3, 0xB2, 0x4C), None);
    let ghost c1 = screen::buffer_cells(*buf);
    let inner = area.inset();
    proof {
        geometry::law_inside(area, bounds);
    }
    if inner.is_empty() {
        return 0;
    }
    let rows: usize = inner.height as usize;
    match state {
        FileDiffState::Closed => {
            return rows;
        },
        FileDiffState::Loading(_) => {
            put(buf, inner, inner.x, inner.y, "Loading…", Style::default().fg(dim()));
        },
        FileDiffState::Failed(msg) => {
            put(buf, inner, inner.x, inner.y, msg.as_str(), Style::default().fg(dim()));
        },
        FileDiffState::Ready(h) => {
            draw_lines_of(buf, inner, h, scroll);
        },
    }
    proof {
        screen::lemma_also(c0, c1, screen::buffer_cells(*buf), inner, area);
    }
    rows
}

} // verus!
