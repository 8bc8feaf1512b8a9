//! What the terminal pane paints, and what a selection in it copies.
//!
//! Positions are columns and rows of cells; scaling them to pixels is left to
//! whoever draws.
use crate::gui::vt::{CellSnapshot, CellWidth, RenderSnapshot, Rgb, UnderlineKind};
use crate::text;
use vstd::prelude::*;
use vstd::string::*;

verus! {

/// A drag selection anchored in absolute scrollback rows: each end is a column
/// and an absolute row, row 0 being the oldest line of the scrollback. Anchored
/// so, the highlight follows the text while the viewport scrolls.
#[derive(Debug, Clone, Copy, PartialEq, Eq)]
pub struct GuiSelection {
    pub anchor: (u16, usize),
    pub head: (u16, usize),
}

/// The ends of a selection, the earlier one first.
pub open spec fn ends(sel: GuiSelection) -> ((u16, usize), (u16, usize)) {
    if sel.anchor.1 < sel.head.1 || (sel.anchor.1 == sel.head.1 && sel.anchor.0 <= sel.head.0) {
        (sel.anchor, sel.head)
    } else {
        (sel.head, sel.anchor)
    }
}

/// The ends of a selection, the earlier one first.
fn order(sel: GuiSelection) -> (r: ((u16, usize), (u16, usize)))
    ensures
        r == ends(sel),
{
    if sel.anchor.1 < sel.head.1 || (sel.anchor.1 == sel.head.1 && sel.anchor.0 <= sel.head.0) {
        (sel.anchor, sel.head)
    } else {
        (sel.head, sel.anchor)
    }
}

/// The absolute row of a viewport row, `base` being that of the viewport's top.
pub fn abs_row(base: usize, row: usize) -> (r: usize)
    requires
        base + row <= usize::MAX,
    ensures
        r == base + row,
{
    base + row
}

/// Where in a viewport of `rows` rows an absolute row stands, if it is in it.
pub open spec fn row_in_view(abs: usize, base: usize, rows: u16) -> Option<usize> {
    if base <= abs && abs - base < rows {
        Some((abs - base) as usize)
    } else {
        None
    }
}

/// The viewport row of an absolute row, or `None` where it is out of view.
pub fn viewport_row(abs: usize, base: usize, rows: u16) -> (r: Option<usize>)
    ensures
        r == row_in_view(abs, base, rows),
{
    if base <= abs && abs - base < rows as usize {
        Some(abs - base)
    } else {
        None
    }
}

/// The text a cell adds to a copy: nothing for the second half of a wide cell, a
/// blank for an empty one.
pub open spec fn cell_text(cell: CellSnapshot) -> Seq<char> {
    if cell.width == CellWidth::SpacerTail {
        Seq::empty()
    } else if cell.grapheme@.len() == 0 {
        seq![' ']
    } else {
        cell.grapheme@
    }
}

/// The text of cells in order.
pub open spec fn cells_text(cells: Seq<CellSnapshot>) -> Seq<char>
    decreases cells.len(),
{
    if cells.len() == 0 {
        Seq::empty()
    } else {
        cells_text(cells.drop_last()) + cell_text(cells.last())
    }
}

/// A text without the blanks at its end.
pub open spec fn without_blanks(s: Seq<char>) -> Seq<char>
    decreases s.len(),
{
    if s.len() > 0 && s.last() == ' ' {
        without_blanks(s.drop_last())
    } else {
        s
    }
}

/// The cells of a row from one column to another, both counted in, as far as
/// the row has them.
pub open spec fn span(row: Seq<CellSnapshot>, from: int, to: int) -> Seq<CellSnapshot> {
    let end = if to < row.len() {
        to + 1
    } else {
        row.len() as int
    };
    if from < end {
        row.subrange(from, end)
    } else {
        Seq::empty()
    }
}

/// Lines one after the other, a line feed between each two.
pub open spec fn stacked(lines: Seq<Seq<char>>) -> Seq<char>
    decreases lines.len(),
{
    if lines.len() == 0 {
        Seq::empty()
    } else if lines.len() == 1 {
        lines[0]
    } else {
        stacked(lines.drop_last()).push('\n') + lines.last()
    }
}

/// The viewport row a selection starts on: the top one where it starts above.
/// `None` where all of it is below.
pub open spec fn top_row(a: (u16, usize), base: usize, rows: u16) -> Option<int> {
    if a.1 < base {
        Some(0)
    } else if a.1 - base < rows {
        Some(a.1 - base)
    } else {
        None
    }
}

/// The viewport row a selection ends on: the last one where it ends below.
/// `None` where all of it is above.
pub open spec fn bottom_row(b: (u16, usize), base: usize, rows: u16) -> Option<int> {
    if b.1 < base {
        None
    } else if b.1 - base < rows {
        Some(b.1 - base)
    } else if rows == 0 {
        Some(0)
    } else {
        Some(rows - 1)
    }
}

/// The first column copied of a viewport row.
pub open spec fn first_col(a: (u16, usize), top: int, y: int) -> int {
    if y == top {
        a.0 as int
    } else {
        0
    }
}

/// The last column copied of a viewport row.
pub open spec fn last_col(b: (u16, usize), bottom: int, y: int, cols: u16) -> int {
    if y == bottom {
        b.0 as int
    } else if cols == 0 {
        0
    } else {
        cols - 1
    }
}

/// The line copied of a viewport row.
pub open spec fn copied_line(
    snap: RenderSnapshot,
    sel: GuiSelection,
    top: int,
    bottom: int,
    y: int,
) -> Seq<char> {
    let (a, b) = ends(sel);
    without_blanks(
        cells_text(
            span(snap.cells@[y]@, first_col(a, top, y), last_col(b, bottom, y, snap.cols)),
        ),
    )
}

/// The lines copied of the viewport rows `top..end`.
pub open spec fn copied_lines(
    snap: RenderSnapshot,
    sel: GuiSelection,
    top: int,
    bottom: int,
    end: int,
) -> Seq<Seq<char>> {
    Seq::new(
        if top < end {
            (end - top) as nat
        } else {
            0
        },
        |i: int| copied_line(snap, sel, top, bottom, top + i),
    )
}

/// The text a selection copies: its visible cells by line, each line without
/// the blanks at its end.
pub open spec fn selection_text(snap: RenderSnapshot, sel: GuiSelection, base: usize) -> Seq<char> {
    let (a, b) = ends(sel);
    match (top_row(a, base, snap.rows), bottom_row(b, base, snap.rows)) {
        (Some(top), Some(bottom)) => {
            let end = if bottom < snap.cells@.len() {
                bottom + 1
            } else {
                snap.cells@.len() as int
            };
            stacked(copied_lines(snap, sel, top, bottom, end))
        },
        _ => Seq::empty(),
    }
}

/// Take the blanks off the end of a text.
fn strip_blanks(s: &mut String)
    ensures
        final(s)@ == without_blanks(old(s)@),
{
    let chars = text::chars_of(s.as_str());
    let mut n: usize = chars.len();
    proof {
        assert(chars@.take(n as int) =~= s@);
    }
    while n > 0 && chars[n - 1] == ' '
        invariant
            n <= chars.len(),
            chars@ == s@,
            without_blanks(s@) == without_blanks(chars@.take(n as int)),
        decreases n,
    {
        assert(chars@.take(n as int).drop_last() =~= chars@.take(n - 1));
        n -= 1;
    }
    let kept = text::text_of(&chars, 0, n);
    assert(chars@.subrange(0, n as int) =~= chars@.take(n as int));
    *s = kept;
}

/// The text of the cells of a row from one column to another, both counted in.
fn copy_span(row: &Vec<CellSnapshot>, from: usize, to: usize) -> (r: String)
    ensures
        r@ == without_blanks(cells_text(span(row@, from as int, to as int))),
{
    let end: usize = if to < row.len() {
        to + 1
    } else {
        row.len()
    };
    let mut line = String::new();
    let mut x: usize = from;
    let ghost part = span(row@, from as int, to as int);
    while x < end
        invariant
            from <= x,
            x <= end || x == from,
            end <= row.len(),
            part == span(row@, from as int, to as int),
            part == (if from < end {
                row@.subrange(from as int, end as int)
            } else {
                Seq::empty()
            }),
            line@ == cells_text(part.take(x - from)),
        decreases end - x,
    {
        let cell = &row[x];
        proof {
            let upto = part.take(x - from + 1);
            assert(upto.drop_last() =~= part.take(x - from));
            assert(upto.last() == row@[x as int]);
        }
        if cell.width != CellWidth::SpacerTail {
            if cell.grapheme.as_str().is_empty() {
                line.push(' ');
                assert(line@ =~= cells_text(part.take(x - from)) + seq![' ']);
            } else {
                line.append(cell.grapheme.as_str());
            }
        } else {
            assert(line@ =~= cells_text(part.take(x - from)) + Seq::<char>::empty());
        }
        x += 1;
    }
    assert(part.take(x - from) =~= part);
    strip_blanks(&mut line);
    line
}

/// The text of a selection, with `base` the absolute row of the viewport's top.
pub fn extract_selection_text(snap: &RenderSnapshot, sel: GuiSelection, base: usize) -> (r: String)
    ensures
        r@ == selection_text(*snap, sel, base),
{
    let (a, b) = order(sel);
    let rows: u16 = snap.rows;
    let top: usize = match viewport_row(a.1, base, rows) {
        Some(v) => v,
        None => if a.1 < base {
            0
        } else {
            return String::new();
        },
    };
    let bottom: usize = match viewport_row(b.1, base, rows) {
        Some(v) => v,
        None => if b.1 >= base {
            if rows == 0 {
                0
            } else {
                (rows - 1) as usize
            }
        } else {
            return String::new();
        },
    };
    let end: usize = if bottom < snap.cells.len() {
        bottom + 1
    } else {
        snap.cells.len()
    };
    let mut out = String::new();
    let mut y: usize = top;
    let ghost lines = copied_lines(*snap, sel, top as int, bottom as int, end as int);
    while y < end
        invariant
            top <= y,
            y <= end || y == top,
            end <= snap.cells.len(),
            (a, b) == ends(sel),
            lines == copied_lines(*snap, sel, top as int, bottom as int, end as int),
            out@ == stacked(lines.take(y - top)),
        decreases end - y,
    {
        let from: usize = if y == top {
            a.0 as usize
        } else {
            0
        };
        let to: usize = if y == bottom {
            b.0 as usize
        } else if snap.cols == 0 {
            0
        } else {
            (snap.cols - 1) as usize
        };
        let line = copy_span(&snap.cells[y], from, to);
        proof {
            assert(line@ == copied_line(*snap, sel, top as int, bottom as int, y as int));
            assert(lines[y - top] == line@);
            assert(lines.take(y - top + 1).drop_last() =~= lines.take(y - top));
        }
        if y > top {
            out.push('\n');
        }
        out.append(line.as_str());
        assert(y == top ==> out@ =~= line@);
        y += 1;
    }
    assert(lines.take(y - top) =~= lines);
    out
}

/// Law: a selection copies the same whichever end was set first.
pub proof fn law_selection_has_no_direction(snap: RenderSnapshot, sel: GuiSelection, base: usize)
    ensures
        selection_text(snap, GuiSelection { anchor: sel.head, head: sel.anchor }, base)
            == selection_text(snap, sel, base),
{
    let swapped = GuiSelection { anchor: sel.head, head: sel.anchor };
    assert(ends(swapped) == ends(sel));
    let (a, b) = ends(sel);
    if let (Some(top), Some(bottom)) = (
        top_row(a, base, snap.rows),
        bottom_row(b, base, snap.rows),
    ) {
        let end = if bottom < snap.cells@.len() {
            bottom + 1
        } else {
            snap.cells@.len() as int
        };
        assert(copied_lines(snap, swapped, top, bottom, end) =~= copied_lines(
            snap,
            sel,
            top,
            bottom,
            end,
        ));
    }
}

/// Law: a selection with both ends above the viewport, or both below it, copies
/// nothing.
pub proof fn law_selection_out_of_view(snap: RenderSnapshot, sel: GuiSelection, base: usize)
    requires
        (sel.anchor.1 < base && sel.head.1 < base) || (sel.anchor.1 >= base + snap.rows
            && sel.head.1 >= base + snap.rows),
    ensures
        selection_text(snap, sel, base) == Seq::<char>::empty(),
{
}

/// Whether no cell of a screen holds a line feed.
pub open spec fn without_line_feeds(snap: RenderSnapshot) -> bool {
    forall|y: int, x: int|
        0 <= y < snap.cells@.len() && 0 <= x < snap.cells@[y]@.len() ==> !(
        #[trigger] snap.cells@[y]@[x]).grapheme@.contains('\n')
}

/// How many line feeds a text holds.
pub open spec fn line_feeds(s: Seq<char>) -> nat
    decreases s.len(),
{
    if s.len() == 0 {
        0
    } else {
        line_feeds(s.drop_last()) + (if s.last() == '\n' {
            1nat
        } else {
            0
        })
    }
}

/// Whether no line of a text ends in a blank.
pub open spec fn ends_clean(s: Seq<char>) -> bool {
    &&& s.len() > 0 ==> s.last() != ' '
    &&& forall|i: int| 0 <= i < s.len() - 1 && #[trigger] s[i] == ' ' ==> s[i + 1] != '\n'
}

proof fn lemma_line_feeds_join(a: Seq<char>, b: Seq<char>)
    ensures
        line_feeds(a + b) == line_feeds(a) + line_feeds(b),
    decreases b.len(),
{
    if b.len() == 0 {
        assert(a + b =~= a);
    } else {
        lemma_line_feeds_join(a, b.drop_last());
        assert((a + b).drop_last() =~= a + b.drop_last());
    }
}

proof fn lemma_no_line_feeds(s: Seq<char>)
    requires
        !s.contains('\n'),
    ensures
        line_feeds(s) == 0,
    decreases s.len(),
{
    if s.len() > 0 {
        assert(s[s.len() - 1] == s.last());
        assert forall|i: int| 0 <= i < s.len() - 1 implies s.drop_last()[i] != '\n' by {
            assert(s[i] != '\n');
        }
        lemma_no_line_feeds(s.drop_last());
    }
}

proof fn lemma_without_blanks(s: Seq<char>)
    ensures
        without_blanks(s).len() > 0 ==> without_blanks(s).last() != ' ',
        !s.contains('\n') ==> !without_blanks(s).contains('\n'),
    decreases s.len(),
{
    if s.len() > 0 && s.last() == ' ' {
        let front = s.drop_last();
        lemma_without_blanks(front);
        if !s.contains('\n') {
            assert forall|i: int| 0 <= i < front.len() implies front[i] != '\n' by {
                assert(s[i] != '\n');
            }
        }
    }
}

proof fn lemma_cells_text(cells: Seq<CellSnapshot>)
    requires
        forall|x: int| 0 <= x < cells.len() ==> !(#[trigger] cells[x]).grapheme@.contains('\n'),
    ensures
        !cells_text(cells).contains('\n'),
    decreases cells.len(),
{
    if cells.len() > 0 {
        let front = cells_text(cells.drop_last());
        let last = cell_text(cells.last());
        lemma_cells_text(cells.drop_last());
        assert(!cells[cells.len() - 1].grapheme@.contains('\n'));
        assert forall|i: int| 0 <= i < (front + last).len() implies (front + last)[i] != '\n' by {
            if i < front.len() {
                assert(front[i] != '\n');
            } else {
                assert(last[i - front.len()] != '\n');
            }
        }
    }
}

proof fn lemma_stacked(lines: Seq<Seq<char>>)
    requires
        forall|i: int|
            0 <= i < lines.len() ==> !(#[trigger] lines[i]).contains('\n') && (lines[i].len() > 0
                ==> lines[i].last() != ' '),
    ensures
        ends_clean(stacked(lines)),
        lines.len() > 0 ==> line_feeds(stacked(lines)) == lines.len() - 1,
        lines.len() == 0 ==> line_feeds(stacked(lines)) == 0,
    decreases lines.len(),
{
    if lines.len() > 0 {
        let last = lines.last();
        assert(last == lines[lines.len() - 1]);
        lemma_no_line_feeds(last);
        assert forall|i: int| 0 <= i < last.len() implies last[i] != '\n' by {
            assert(!last.contains('\n'));
        }
        if lines.len() > 1 {
            let front = stacked(lines.drop_last());
            lemma_stacked(lines.drop_last());
            assert(front.push('\n').drop_last() =~= front);
            lemma_line_feeds_join(front.push('\n'), last);
            let all = front.push('\n') + last;
            assert forall|i: int| 0 <= i < all.len() - 1 && #[trigger] all[i] == ' ' implies all[i
                + 1] != '\n' by {
                if i + 1 < front.len() {
                    assert(front[i] == ' ');
                }
            }
        }
    }
}

/// Law: of a screen whose cells hold no line feed, a selection copies lines none
/// of which ends in a blank, and no more lines than the viewport has rows, given
/// that it has any.
pub proof fn law_copied_lines(snap: RenderSnapshot, sel: GuiSelection, base: usize)
    requires
        without_line_feeds(snap),
    ensures
        ends_clean(selection_text(snap, sel, base)),
        snap.rows > 0 ==> line_feeds(selection_text(snap, sel, base)) < snap.rows,
{
    let (a, b) = ends(sel);
    if let (Some(top), Some(bottom)) = (
        top_row(a, base, snap.rows),
        bottom_row(b, base, snap.rows),
    ) {
        let end = if bottom < snap.cells@.len() {
            bottom + 1
        } else {
            snap.cells@.len() as int
        };
        let lines = copied_lines(snap, sel, top, bottom, end);
        assert forall|i: int| 0 <= i < lines.len() implies !(#[trigger] lines[i]).contains('\n')
            && (lines[i].len() > 0 ==> lines[i].last() != ' ') by {
            let row = snap.cells@[top + i]@;
            let cells = span(
                row,
                first_col(a, top, top + i),
                last_col(b, bottom, top + i, snap.cols),
            );
            assert forall|x: int| 0 <= x < cells.len() implies !(
            #[trigger] cells[x]).grapheme@.contains('\n') by {
                let k = first_col(a, top, top + i) + x;
                assert(cells[x] == snap.cells@[top + i]@[k]);
            }
            lemma_cells_text(cells);
            lemma_without_blanks(cells_text(cells));
        }
        lemma_stacked(lines);
    }
}

/// Whether a selection covers the cell at a column of an absolute row.
pub open spec fn covered(sel: GuiSelection, x: usize, abs: int, cols: u16) -> bool {
    let (a, b) = ends(sel);
    let last: int = if cols == 0 {
        0
    } else {
        cols - 1
    };
    a.1 <= abs <= b.1 && (x as u16) >= (if abs == a.1 {
        a.0 as int
    } else {
        0
    }) && (x as u16) <= (if abs == b.1 {
        b.0 as int
    } else {
        last
    })
}

/// Whether a selection covers the cell at a column of an absolute row.
fn covers(sel: GuiSelection, x: usize, abs: usize, cols: u16) -> (r: bool)
    ensures
        r == covered(sel, x, abs as int, cols),
{
    let (a, b) = order(sel);
    let col: u16 = x as u16;
    let first: u16 = if abs == a.1 {
        a.0
    } else {
        0
    };
    let last: u16 = if abs == b.1 {
        b.0
    } else if cols == 0 {
        0
    } else {
        cols - 1
    };
    a.1 <= abs && abs <= b.1 && col >= first && col <= last
}

/// Law: what is highlighted is what is copied. In a visible row that fits the
/// screen, the cells a copy takes are the ones the selection covers, but for the
/// rows that stand in for an end out of view.
pub proof fn law_copied_is_highlighted(
    sel: GuiSelection,
    base: usize,
    cols: u16,
    rows: u16,
    x: usize,
    y: usize,
)
    requires
        x < cols,
        y < rows,
        ends(sel).0.1 < base ==> y != 0,
        ends(sel).1.1 >= base + rows ==> y != rows - 1,
    ensures
        covered(sel, x, base + y, cols) <==> match (
            top_row(ends(sel).0, base, rows),
            bottom_row(ends(sel).1, base, rows),
        ) {
            (Some(top), Some(bottom)) => top <= y <= bottom && first_col(
                ends(sel).0,
                top,
                y as int,
            ) <= x <= last_col(ends(sel).1, bottom, y as int, cols),
            _ => false,
        },
{
    assert(x as u16 == x);
}

/// A colour and whether it is drawn at half strength.
#[derive(Debug, Clone, Copy, PartialEq, Eq, Structural)]
pub struct Ink {
    pub color: Rgb,
    pub faint: bool,
}

/// One step of painting the pane. Positions are in cells; `span` is how many
/// columns the cell takes.
#[derive(Debug, Clone, PartialEq, Eq)]
#[allow(inconsistent_fields)]
pub enum Op {
    /// Fill the whole pane.
    Clear { color: Rgb },
    /// Fill one cell.
    Fill { x: usize, y: usize, span: usize, color: Rgb },
    /// Draw what stands in a cell. A wide cell has a font of its own.
    Glyph { x: usize, y: usize, text: String, ink: Ink, wide: bool, bold: bool, italic: bool },
    /// A line below the cell; `double` draws two.
    Underline { x: usize, y: usize, span: usize, double: bool, ink: Ink },
    /// A line through the middle of the cell.
    Strike { x: usize, y: usize, span: usize, ink: Ink },
    /// A line above the cell.
    Overline { x: usize, y: usize, span: usize, ink: Ink },
}

/// One step of painting, by view.
#[allow(inconsistent_fields)]
pub enum OpView {
    Clear { color: Rgb },
    Fill { x: int, y: int, span: int, color: Rgb },
    Glyph { x: int, y: int, text: Seq<char>, ink: Ink, wide: bool, bold: bool, italic: bool },
    Underline { x: int, y: int, span: int, double: bool, ink: Ink },
    Strike { x: int, y: int, span: int, ink: Ink },
    Overline { x: int, y: int, span: int, ink: Ink },
}

impl View for Op {
    type V = OpView;

    open spec fn view(&self) -> OpView {
        match self {
            Op::Clear { color } => OpView::Clear { color: *color },
            Op::Fill { x, y, span, color } => OpView::Fill {
                x: *x as int,
                y: *y as int,
                span: *span as int,
                color: *color,
            },
            Op::Glyph { x, y, text, ink, wide, bold, italic } => OpView::Glyph {
                x: *x as int,
                y: *y as int,
                text: text@,
                ink: *ink,
                wide: *wide,
                bold: *bold,
                italic: *italic,
            },
            Op::Underline { x, y, span, double, ink } => OpView::Underline {
                x: *x as int,
                y: *y as int,
                span: *span as int,
                double: *double,
                ink: *ink,
            },
            Op::Strike { x, y, span, ink } => OpView::Strike {
                x: *x as int,
                y: *y as int,
                span: *span as int,
                ink: *ink,
            },
            Op::Overline { x, y, span, ink } => OpView::Overline {
                x: *x as int,
                y: *y as int,
                span: *span as int,
                ink: *ink,
            },
        }
    }
}

/// Steps, by view.
pub open spec fn ops(v: Seq<Op>) -> Seq<OpView> {
    v.map_values(|o: Op| o@)
}

proof fn lemma_ops_push(v: Seq<Op>, o: Op)
    ensures
        ops(v.push(o)) == ops(v).push(o@),
{
    assert(ops(v.push(o)) =~= ops(v).push(o@));
}

/// Whether a cell has something to draw.
pub open spec fn inked(cell: CellSnapshot) -> bool {
    cell.grapheme@.len() > 0 && cell.grapheme@ != seq![' ']
}

/// How many columns a cell takes.
pub open spec fn columns(cell: CellSnapshot) -> int {
    if cell.width == CellWidth::Wide {
        2
    } else {
        1
    }
}

/// The colour a cell is filled with: the pane's foreground where it is selected,
/// else its own background if it has one.
pub open spec fn fill_of(snap: RenderSnapshot, cell: CellSnapshot, selected: bool) -> Option<Rgb> {
    if selected {
        Some(snap.foreground)
    } else {
        cell.bg
    }
}

/// The colour a cell's glyph is drawn in. Inverse video takes the background;
/// a selected cell takes the pane's background; faint text is half as strong.
pub open spec fn ink_of(snap: RenderSnapshot, cell: CellSnapshot, selected: bool) -> Ink {
    if cell.flags.inverse {
        Ink {
            color: match cell.bg {
                Some(c) => c,
                None => snap.background,
            },
            faint: false,
        }
    } else if selected {
        Ink { color: snap.background, faint: false }
    } else {
        Ink {
            color: match cell.fg {
                Some(c) => c,
                None => snap.foreground,
            },
            faint: cell.flags.faint,
        }
    }
}

/// The colour behind a glyph: the cell's own background, or the pane's
/// foreground where inverse video stands on no background of its own.
pub open spec fn behind(snap: RenderSnapshot, cell: CellSnapshot) -> Option<Rgb> {
    if cell.flags.inverse && cell.bg is None {
        Some(snap.foreground)
    } else {
        cell.bg
    }
}

/// A fill of one cell, if there is a colour for it.
pub open spec fn filled(x: int, y: int, span: int, color: Option<Rgb>) -> Seq<OpView> {
    match color {
        Some(c) => seq![OpView::Fill { x, y, span, color: c }],
        None => Seq::empty(),
    }
}

/// What stands in a cell, drawn; nothing where it is invisible.
pub open spec fn drawn(cell: CellSnapshot, x: int, y: int, ink: Ink) -> Seq<OpView> {
    if cell.flags.invisible {
        Seq::empty()
    } else {
        seq![
            OpView::Glyph {
                x,
                y,
                text: cell.grapheme@,
                ink,
                wide: cell.width == CellWidth::Wide,
                bold: cell.flags.bold,
                italic: cell.flags.italic,
            },
        ]
    }
}

/// The lines of a cell: under it, through it, above it.
pub open spec fn lined(cell: CellSnapshot, x: int, y: int, ink: Ink) -> Seq<OpView> {
    let span = columns(cell);
    (if cell.flags.underline != UnderlineKind::Absent {
        seq![
            OpView::Underline {
                x,
                y,
                span,
                double: cell.flags.underline == UnderlineKind::Double,
                ink,
            },
        ]
    } else {
        Seq::empty()
    }) + (if cell.flags.strikethrough {
        seq![OpView::Strike { x, y, span, ink }]
    } else {
        Seq::empty()
    }) + (if cell.flags.overline {
        seq![OpView::Overline { x, y, span, ink }]
    } else {
        Seq::empty()
    })
}

/// The steps that paint one cell.
pub open spec fn cell_ops(
    snap: RenderSnapshot,
    cell: CellSnapshot,
    x: int,
    y: int,
    selected: bool,
) -> Seq<OpView> {
    if cell.width == CellWidth::SpacerTail {
        Seq::empty()
    } else {
        let fill = filled(x, y, columns(cell), fill_of(snap, cell, selected));
        if inked(cell) {
            let ink = ink_of(snap, cell, selected);
            fill + filled(x, y, columns(cell), behind(snap, cell)) + drawn(cell, x, y, ink) + lined(
                cell,
                x,
                y,
                ink,
            )
        } else {
            fill
        }
    }
}

/// Whether a cell is painted as selected: it holds something, and the selection
/// covers it.
pub open spec fn marked(
    snap: RenderSnapshot,
    sel: Option<GuiSelection>,
    base: int,
    x: int,
    y: int,
) -> bool {
    snap.cells@[y]@[x].grapheme@.len() > 0 && match sel {
        Some(s) => covered(s, x as usize, base + y, snap.cols),
        None => false,
    }
}

/// The steps that paint the first `n` cells of a row.
pub open spec fn row_ops(
    snap: RenderSnapshot,
    sel: Option<GuiSelection>,
    base: int,
    y: int,
    n: nat,
) -> Seq<OpView>
    decreases n,
{
    if n == 0 {
        Seq::empty()
    } else {
        row_ops(snap, sel, base, y, (n - 1) as nat) + cell_ops(
            snap,
            snap.cells@[y]@[n - 1],
            n - 1,
            y,
            marked(snap, sel, base, n - 1, y),
        )
    }
}

/// A step, done in another row.
pub open spec fn at_row(op: OpView, y: int) -> OpView {
    match op {
        OpView::Clear { color } => OpView::Clear { color },
        OpView::Fill { x, span, color, .. } => OpView::Fill { x, y, span, color },
        OpView::Glyph { x, text, ink, wide, bold, italic, .. } => OpView::Glyph {
            x,
            y,
            text,
            ink,
            wide,
            bold,
            italic,
        },
        OpView::Underline { x, span, double, ink, .. } => OpView::Underline {
            x,
            y,
            span,
            double,
            ink,
        },
        OpView::Strike { x, span, ink, .. } => OpView::Strike { x, y, span, ink },
        OpView::Overline { x, span, ink, .. } => OpView::Overline { x, y, span, ink },
    }
}

/// Steps, done in another row.
pub open spec fn in_row(v: Seq<OpView>, y: int) -> Seq<OpView> {
    v.map_values(|o: OpView| at_row(o, y))
}

proof fn lemma_in_row_add(a: Seq<OpView>, b: Seq<OpView>, y: int)
    ensures
        in_row(a + b, y) == in_row(a, y) + in_row(b, y),
{
    assert(in_row(a + b, y) =~= in_row(a, y) + in_row(b, y));
}

proof fn lemma_cell_in_row(
    snap: RenderSnapshot,
    later: RenderSnapshot,
    cell: CellSnapshot,
    x: int,
    y: int,
    new_y: int,
    selected: bool,
)
    requires
        later.foreground == snap.foreground,
        later.background == snap.background,
    ensures
        cell_ops(later, cell, x, new_y, selected) == in_row(
            cell_ops(snap, cell, x, y, selected),
            new_y,
        ),
{
    let ink = ink_of(snap, cell, selected);
    let fill = filled(x, y, columns(cell), fill_of(snap, cell, selected));
    let under = filled(x, y, columns(cell), behind(snap, cell));
    let glyph = drawn(cell, x, y, ink);
    let lines = lined(cell, x, y, ink);
    assert(in_row(fill, new_y) =~= filled(
        x,
        new_y,
        columns(cell),
        fill_of(snap, cell, selected),
    ));
    assert(in_row(under, new_y) =~= filled(x, new_y, columns(cell), behind(snap, cell)));
    assert(in_row(glyph, new_y) =~= drawn(cell, x, new_y, ink));
    assert(in_row(lines, new_y) =~= lined(cell, x, new_y, ink));
    lemma_in_row_add(fill, under, new_y);
    lemma_in_row_add(fill + under, glyph, new_y);
    lemma_in_row_add(fill + under + glyph, lines, new_y);
    assert(in_row(Seq::<OpView>::empty(), new_y) =~= Seq::<OpView>::empty());
}

/// Law: the highlight follows the text. A row that the view has scrolled to
/// another place is painted there as it was before, with the same cells
/// highlighted.
pub proof fn law_highlight_follows_text(
    snap: RenderSnapshot,
    later: RenderSnapshot,
    sel: Option<GuiSelection>,
    base: int,
    y: int,
    new_base: int,
    new_y: int,
    n: nat,
)
    requires
        later.cols == snap.cols,
        later.foreground == snap.foreground,
        later.background == snap.background,
        later.cells@[new_y]@ == snap.cells@[y]@,
        new_base + new_y == base + y,
    ensures
        row_ops(later, sel, new_base, new_y, n) == in_row(row_ops(snap, sel, base, y, n), new_y),
    decreases n,
{
    if n == 0 {
        assert(in_row(row_ops(snap, sel, base, y, 0), new_y) =~= Seq::<OpView>::empty());
    } else {
        let m = (n - 1) as nat;
        law_highlight_follows_text(snap, later, sel, base, y, new_base, new_y, m);
        let cell = snap.cells@[y]@[n - 1];
        let selected = marked(snap, sel, base, n - 1, y);
        lemma_cell_in_row(snap, later, cell, n - 1, y, new_y, selected);
        lemma_in_row_add(
            row_ops(snap, sel, base, y, m),
            cell_ops(snap, cell, n - 1, y, selected),
            new_y,
        );
    }
}

/// The steps that paint the first `n` rows.
pub open spec fn rows_ops(
    snap: RenderSnapshot,
    sel: Option<GuiSelection>,
    base: int,
    n: nat,
) -> Seq<OpView>
    decreases n,
{
    if n == 0 {
        Seq::empty()
    } else {
        rows_ops(snap, sel, base, (n - 1) as nat) + row_ops(
            snap,
            sel,
            base,
            n - 1,
            snap.cells@[n - 1]@.len(),
        )
    }
}

/// The steps that paint the cursor: a block in the pane's foreground, with what
/// it stands on redrawn in the background so it stays legible.
pub open spec fn cursor_ops(snap: RenderSnapshot) -> Seq<OpView> {
    match snap.cursor.position {
        Some((x, y)) => if snap.cursor.visible {
            let block = seq![
                OpView::Fill { x: x as int, y: y as int, span: 1, color: snap.foreground },
            ];
            if y < snap.cells@.len() && x < snap.cells@[y as int]@.len() && inked(
                snap.cells@[y as int]@[x as int],
            ) {
                block + drawn(
                    snap.cells@[y as int]@[x as int],
                    x as int,
                    y as int,
                    Ink { color: snap.background, faint: false },
                )
            } else {
                block
            }
        } else {
            Seq::empty()
        },
        None => Seq::empty(),
    }
}

/// The steps that paint a screen with a selection over it, `base` being the
/// absolute row of the viewport's top.
pub open spec fn painted(snap: RenderSnapshot, sel: Option<GuiSelection>, base: usize) -> Seq<
    OpView,
> {
    seq![OpView::Clear { color: snap.background }] + rows_ops(
        snap,
        sel,
        base as int,
        snap.cells@.len(),
    ) + cursor_ops(snap)
}

/// Whether a cell has something to draw.
fn has_ink(cell: &CellSnapshot) -> (r: bool)
    ensures
        r == inked(*cell),
{
    proof {
        reveal_strlit(" ");
        assert(" "@ =~= seq![' ']);
    }
    !cell.grapheme.as_str().is_empty() && !text::same(cell.grapheme.as_str(), " ")
}

/// Add a fill of one cell, if there is a colour for it.
fn push_fill(out: &mut Vec<Op>, x: usize, y: usize, span: usize, color: Option<Rgb>)
    ensures
        ops(final(out)@) == ops(old(out)@) + filled(x as int, y as int, span as int, color),
{
    match color {
        Some(c) => {
            let op = Op::Fill { x, y, span, color: c };
            proof {
                lemma_ops_push(out@, op);
            }
            out.push(op);
        },
        None => {},
    }
    assert(ops(out@) =~= ops(old(out)@) + filled(x as int, y as int, span as int, color));
}

/// Add what stands in a cell, unless it is invisible.
fn push_glyph(out: &mut Vec<Op>, cell: &CellSnapshot, x: usize, y: usize, ink: Ink)
    ensures
        ops(final(out)@) == ops(old(out)@) + drawn(*cell, x as int, y as int, ink),
{
    if !cell.flags.invisible {
        let op = Op::Glyph {
            x,
            y,
            text: cell.grapheme.clone(),
            ink,
            wide: cell.width == CellWidth::Wide,
            bold: cell.flags.bold,
            italic: cell.flags.italic,
        };
        proof {
            lemma_ops_push(out@, op);
        }
        out.push(op);
    }
    assert(ops(out@) =~= ops(old(out)@) + drawn(*cell, x as int, y as int, ink));
}

/// Add the lines of a cell.
fn paint_decorations(
    out: &mut Vec<Op>,
    cell: &CellSnapshot,
    x: usize,
    y: usize,
    span: usize,
    ink: Ink,
)
    requires
        span == columns(*cell),
    ensures
        ops(final(out)@) == ops(old(out)@) + lined(*cell, x as int, y as int, ink),
{
    if cell.flags.underline != UnderlineKind::Absent {
        let op = Op::Underline {
            x,
            y,
            span,
            double: cell.flags.underline == UnderlineKind::Double,
            ink,
        };
        proof {
            lemma_ops_push(out@, op);
        }
        out.push(op);
    }
    if cell.flags.strikethrough {
        let op = Op::Strike { x, y, span, ink };
        proof {
            lemma_ops_push(out@, op);
        }
        out.push(op);
    }
    if cell.flags.overline {
        let op = Op::Overline { x, y, span, ink };
        proof {
            lemma_ops_push(out@, op);
        }
        out.push(op);
    }
    assert(ops(out@) =~= ops(old(out)@) + lined(*cell, x as int, y as int, ink));
}

proof fn lemma_append_four(
    before: Seq<OpView>,
    a: Seq<OpView>,
    b: Seq<OpView>,
    c: Seq<OpView>,
    d: Seq<OpView>,
)
    ensures
        before + a + b + c + d == before + (a + b + c + d),
{
    assert(before + a + b + c + d =~= before + (a + b + c + d));
}

/// Add the steps that paint one cell.
fn paint_cell(
    out: &mut Vec<Op>,
    snap: &RenderSnapshot,
    cell: &CellSnapshot,
    x: usize,
    y: usize,
    selected: bool,
)
    ensures
        ops(final(out)@) == ops(old(out)@) + cell_ops(*snap, *cell, x as int, y as int, selected),
{
    let ghost before = ops(out@);
    if cell.width == CellWidth::SpacerTail {
        assert(before =~= before + cell_ops(*snap, *cell, x as int, y as int, selected));
        return;
    }
    let span: usize = if cell.width == CellWidth::Wide {
        2
    } else {
        1
    };
    let fill = if selected {
        Some(snap.foreground)
    } else {
        cell.bg
    };
    push_fill(out, x, y, span, fill);
    if has_ink(cell) {
        let ink = if cell.flags.inverse {
            Ink {
                color: match cell.bg {
                    Some(c) => c,
                    None => snap.background,
                },
                faint: false,
            }
        } else if selected {
            Ink { color: snap.background, faint: false }
        } else {
            Ink {
                color: match cell.fg {
                    Some(c) => c,
                    None => snap.foreground,
                },
                faint: cell.flags.faint,
            }
        };
        let back = if cell.flags.inverse && cell.bg.is_none() {
            Some(snap.foreground)
        } else {
            cell.bg
        };
        assert(ink == ink_of(*snap, *cell, selected));
        assert(back == behind(*snap, *cell));
        push_fill(out, x, y, span, back);
        push_glyph(out, cell, x, y, ink);
        paint_decorations(out, cell, x, y, span, ink);
        proof {
            lemma_append_four(
                before,
                filled(x as int, y as int, span as int, fill),
                filled(x as int, y as int, span as int, back),
                drawn(*cell, x as int, y as int, ink),
                lined(*cell, x as int, y as int, ink),
            );
        }
    }
}

/// Add the steps that paint the cursor.
fn paint_cursor(out: &mut Vec<Op>, snap: &RenderSnapshot)
    ensures
        ops(final(out)@) == ops(old(out)@) + cursor_ops(*snap),
{
    let ghost before = ops(out@);
    if snap.cursor.visible {
        if let Some((cx, cy)) = snap.cursor.position {
            let x: usize = cx as usize;
            let y: usize = cy as usize;
            push_fill(out, x, y, 1, Some(snap.foreground));
            if y < snap.cells.len() && x < snap.cells[y].len() && has_ink(&snap.cells[y][x]) {
                push_glyph(
                    out,
                    &snap.cells[y][x],
                    x,
                    y,
                    Ink { color: snap.background, faint: false },
                );
            }
        }
    }
    assert(ops(out@) =~= before + cursor_ops(*snap));
}

/// The steps that paint a screen with a selection over it, `base` being the
/// absolute row of the viewport's top.
pub fn paint(snap: &RenderSnapshot, sel: Option<GuiSelection>, base: usize) -> (r: Vec<Op>)
    requires
        base + snap.cells.len() <= usize::MAX,
    ensures
        ops(r@) == painted(*snap, sel, base),
{
    let mut out: Vec<Op> = Vec::new();
    let clear = Op::Clear { color: snap.background };
    proof {
        lemma_ops_push(out@, clear);
    }
    out.push(clear);
    let ghost head = seq![OpView::Clear { color: snap.background }];
    let mut y: usize = 0;
    assert(ops(out@) =~= head + rows_ops(*snap, sel, base as int, 0));
    while y < snap.cells.len()
        invariant
            y <= snap.cells.len(),
            base + snap.cells.len() <= usize::MAX,
            ops(out@) == head + rows_ops(*snap, sel, base as int, y as nat),
        decreases snap.cells.len() - y,
    {
        let ghost done = ops(out@);
        let row = &snap.cells[y];
        let mut x: usize = 0;
        assert(ops(out@) =~= done + row_ops(*snap, sel, base as int, y as int, 0));
        while x < row.len()
            invariant
                x <= row.len(),
                y < snap.cells.len(),
                row == snap.cells@[y as int],
                base + snap.cells.len() <= usize::MAX,
                ops(out@) == done + row_ops(*snap, sel, base as int, y as int, x as nat),
            decreases row.len() - x,
        {
            let cell = &row[x];
            let selected = !cell.grapheme.as_str().is_empty() && match sel {
                Some(s) => covers(s, x, abs_row(base, y), snap.cols),
                None => false,
            };
            paint_cell(&mut out, snap, cell, x, y, selected);
            x += 1;
            assert(ops(out@) =~= done + row_ops(*snap, sel, base as int, y as int, x as nat));
        }
        y += 1;
        assert(ops(out@) =~= head + rows_ops(*snap, sel, base as int, y as nat));
    }
    paint_cursor(&mut out, snap);
    out
}

} // verus!
