//! What is seen of a screen that was painted: every cell in its own colours, what
//! is selected in reverse, and the cursor over all of it.
use crate::gui::render;
use crate::gui::render::{GuiSelection, Ink, OpView};
use crate::gui::vt::{CellSnapshot, CellWidth, Cursor, RenderSnapshot, Rgb, UnderlineKind};
use vstd::prelude::*;

verus! {

/// Whether one place comes no later than another in reading order.
pub open spec fn no_later(x: int, row: int, other_x: int, other_row: int) -> bool {
    row < other_row || (row == other_row && x <= other_x)
}

/// Whether a place lies between the ends of a selection, whichever was set first.
pub open spec fn between(sel: GuiSelection, x: int, row: int) -> bool {
    let (ax, ay) = (sel.anchor.0 as int, sel.anchor.1 as int);
    let (hx, hy) = (sel.head.0 as int, sel.head.1 as int);
    ||| no_later(ax, ay, x, row) && no_later(x, row, hx, hy)
    ||| no_later(hx, hy, x, row) && no_later(x, row, ax, ay)
}

/// Whether there is a cell at a place of the screen.
pub open spec fn on_screen(snap: RenderSnapshot, x: int, y: int) -> bool {
    0 <= y < snap.cells@.len() && 0 <= x < snap.cells@[y]@.len()
}

/// The cell at a place of the screen.
pub open spec fn cell_at(snap: RenderSnapshot, x: int, y: int) -> CellSnapshot {
    snap.cells@[y]@[x]
}

/// Whether a cell shows as selected: something stands in it, and it lies between
/// the ends of the selection.
pub open spec fn chosen(
    snap: RenderSnapshot,
    sel: Option<GuiSelection>,
    base: int,
    x: int,
    y: int,
) -> bool {
    cell_at(snap, x, y).grapheme@.len() > 0 && (sel matches Some(s) && between(s, x, base + y))
}

/// Whether something other than a blank stands in a cell.
pub open spec fn written_on(cell: CellSnapshot) -> bool {
    cell.grapheme@.len() > 0 && !(cell.grapheme@.len() == 1 && cell.grapheme@[0] == ' ')
}

/// Law: what is highlighted is what lies between the ends, in reading order.
pub proof fn law_covered_is_between(sel: GuiSelection, x: usize, row: int, cols: u16)
    requires
        x < cols,
    ensures
        render::covered(sel, x, row, cols) == between(sel, x as int, row),
{
    assert(x as u16 == x);
}

/// Whether every row is no longer than the screen is wide.
pub open spec fn fits(snap: RenderSnapshot) -> bool {
    forall|y: int| 0 <= y < snap.cells@.len() ==> (#[trigger] snap.cells@[y])@.len() <= snap.cols
}

/// The colour of what stands in a cell: the cell's own where it has one, else the
/// pane's, at half strength where the cell is faint. In reverse it is what would
/// be behind it.
pub open spec fn right_ink(snap: RenderSnapshot, cell: CellSnapshot, chosen: bool, ink: Ink) -> bool {
    &&& !cell.flags.inverse && !chosen ==> {
        &&& cell.fg matches Some(c) ==> ink.color == c
        &&& cell.fg is None ==> ink.color == snap.foreground
        &&& ink.faint == cell.flags.faint
    }
    &&& !cell.flags.inverse && chosen ==> ink.color == snap.background && !ink.faint
    &&& cell.flags.inverse ==> {
        &&& cell.bg matches Some(c) ==> ink.color == c
        &&& cell.bg is None ==> ink.color == snap.background
        &&& !ink.faint
    }
}

/// Whether a step may paint the cell at `(cx, cy)`.
pub open spec fn right_step(
    snap: RenderSnapshot,
    cell: CellSnapshot,
    chosen: bool,
    cx: int,
    cy: int,
    op: OpView,
) -> bool {
    let wide = cell.width == CellWidth::Wide;
    let columns: int = if wide {
        2
    } else {
        1
    };
    &&& cell.width != CellWidth::SpacerTail
    &&& match op {
        OpView::Clear { .. } => false,
        OpView::Fill { x, y, span, color } => {
            &&& x == cx && y == cy && span == columns
            &&& (chosen && color == snap.foreground) || cell.bg == Some(color) || (written_on(cell)
                && cell.flags.inverse && cell.bg is None && color == snap.foreground)
        },
        OpView::Glyph { x, y, text, ink, wide: w, bold, italic } => {
            &&& x == cx && y == cy
            &&& written_on(cell) && !cell.flags.invisible
            &&& text == cell.grapheme@
            &&& w == wide && bold == cell.flags.bold && italic == cell.flags.italic
            &&& right_ink(snap, cell, chosen, ink)
        },
        OpView::Underline { x, y, span, double, ink } => {
            &&& x == cx && y == cy && span == columns
            &&& written_on(cell) && cell.flags.underline != UnderlineKind::Absent
            &&& double == (cell.flags.underline == UnderlineKind::Double)
            &&& right_ink(snap, cell, chosen, ink)
        },
        OpView::Strike { x, y, span, ink } => {
            &&& x == cx && y == cy && span == columns
            &&& written_on(cell) && cell.flags.strikethrough
            &&& right_ink(snap, cell, chosen, ink)
        },
        OpView::Overline { x, y, span, ink } => {
            &&& x == cx && y == cy && span == columns
            &&& written_on(cell) && cell.flags.overline
            &&& right_ink(snap, cell, chosen, ink)
        },
    }
}

proof fn lemma_written(cell: CellSnapshot)
    ensures
        render::inked(cell) == written_on(cell),
{
    if cell.grapheme@.len() == 1 && cell.grapheme@[0] == ' ' {
        assert(cell.grapheme@ =~= seq![' ']);
    }
}

/// The steps of one cell, piece by piece.
proof fn lemma_cell_steps(snap: RenderSnapshot, cell: CellSnapshot, x: int, y: int, s: bool)
    requires
        cell.width != CellWidth::SpacerTail,
    ensures
        ({
            let all = render::cell_ops(snap, cell, x, y, s);
            let span = render::columns(cell);
            let ink = render::ink_of(snap, cell, s);
            let fill = render::filled(x, y, span, render::fill_of(snap, cell, s));
            let under = render::filled(x, y, span, render::behind(snap, cell));
            let glyph = render::drawn(cell, x, y, ink);
            let lines = render::lined(cell, x, y, ink);
            &&& render::inked(cell) ==> all == fill + under + glyph + lines
            &&& !render::inked(cell) ==> all == fill
            &&& fill.len() <= 1 && under.len() <= 1 && glyph.len() <= 1 && lines.len() <= 3
        }),
{
}

#[verifier::spinoff_prover]
#[verifier::rlimit(60)]
proof fn lemma_lines_right(snap: RenderSnapshot, cell: CellSnapshot, x: int, y: int, s: bool, j: int)
    requires
        cell.width != CellWidth::SpacerTail,
        written_on(cell),
        0 <= j < render::lined(cell, x, y, render::ink_of(snap, cell, s)).len(),
    ensures
        right_step(
            snap,
            cell,
            s,
            x,
            y,
            render::lined(cell, x, y, render::ink_of(snap, cell, s))[j],
        ),
        !(render::lined(cell, x, y, render::ink_of(snap, cell, s))[j] is Fill),
{
}

proof fn lemma_fill_right(snap: RenderSnapshot, cell: CellSnapshot, x: int, y: int, s: bool)
    requires
        cell.width != CellWidth::SpacerTail,
    ensures
        ({
            let fill = render::filled(x, y, render::columns(cell), render::fill_of(snap, cell, s));
            fill.len() > 0 ==> right_step(snap, cell, s, x, y, fill[0])
        }),
        ({
            let under = render::filled(x, y, render::columns(cell), render::behind(snap, cell));
            written_on(cell) && under.len() > 0 ==> right_step(snap, cell, s, x, y, under[0])
        }),
{
}

proof fn lemma_glyph_right(snap: RenderSnapshot, cell: CellSnapshot, x: int, y: int, s: bool)
    requires
        cell.width != CellWidth::SpacerTail,
        written_on(cell),
    ensures
        ({
            let glyph = render::drawn(cell, x, y, render::ink_of(snap, cell, s));
            glyph.len() > 0 ==> right_step(snap, cell, s, x, y, glyph[0])
        }),
{
}

#[verifier::spinoff_prover]
#[verifier::rlimit(60)]
proof fn lemma_step_right(snap: RenderSnapshot, cell: CellSnapshot, x: int, y: int, s: bool, j: int)
    requires
        0 <= j < render::cell_ops(snap, cell, x, y, s).len(),
    ensures
        right_step(snap, cell, s, x, y, render::cell_ops(snap, cell, x, y, s)[j]),
{
    lemma_written(cell);
    lemma_cell_steps(snap, cell, x, y, s);
    lemma_fill_right(snap, cell, x, y, s);
    let ink = render::ink_of(snap, cell, s);
    let fill = render::filled(x, y, render::columns(cell), render::fill_of(snap, cell, s));
    let under = render::filled(x, y, render::columns(cell), render::behind(snap, cell));
    let glyph = render::drawn(cell, x, y, ink);
    let lines = render::lined(cell, x, y, ink);
    if render::inked(cell) {
        lemma_glyph_right(snap, cell, x, y, s);
        lemma_pick(fill, under, glyph, lines, j);
        let k = j - fill.len() - under.len() - glyph.len();
        if k >= 0 {
            lemma_lines_right(snap, cell, x, y, s, k);
        }
    }
}

/// An element of four pieces is one of a piece.
proof fn lemma_pick(a: Seq<OpView>, b: Seq<OpView>, c: Seq<OpView>, d: Seq<OpView>, j: int)
    requires
        a.len() <= 1,
        b.len() <= 1,
        c.len() <= 1,
        0 <= j < (a + b + c + d).len(),
    ensures
        ({
            let op = (a + b + c + d)[j];
            ||| a.len() > 0 && op == a[0]
            ||| b.len() > 0 && op == b[0]
            ||| c.len() > 0 && op == c[0]
            ||| j - a.len() - b.len() - c.len() >= 0 && op == d[j - a.len() - b.len() - c.len()]
        }),
{
}

/// Where the steps of a cell begin among those of its row.
proof fn lemma_in_its_row(
    snap: RenderSnapshot,
    sel: Option<GuiSelection>,
    base: int,
    y: int,
    n: nat,
    x: int,
) -> (at: int)
    requires
        0 <= x < n,
    ensures
        ({
            let row = render::row_ops(snap, sel, base, y, n);
            let steps = render::cell_ops(
                snap,
                cell_at(snap, x, y),
                x,
                y,
                render::marked(snap, sel, base, x, y),
            );
            0 <= at && at + steps.len() <= row.len() && forall|j: int|
                0 <= j < steps.len() ==> row[at + j] == #[trigger] steps[j]
        }),
    decreases n,
{
    let m = (n - 1) as nat;
    if x == n - 1 {
        render::row_ops(snap, sel, base, y, m).len() as int
    } else {
        lemma_in_its_row(snap, sel, base, y, m, x)
    }
}

/// Where the steps of a cell begin among those of the rows.
proof fn lemma_in_the_rows(
    snap: RenderSnapshot,
    sel: Option<GuiSelection>,
    base: int,
    n: nat,
    x: int,
    y: int,
) -> (at: int)
    requires
        n <= snap.cells@.len(),
        y < n,
        on_screen(snap, x, y),
    ensures
        ({
            let rows = render::rows_ops(snap, sel, base, n);
            let steps = render::cell_ops(
                snap,
                cell_at(snap, x, y),
                x,
                y,
                render::marked(snap, sel, base, x, y),
            );
            0 <= at && at + steps.len() <= rows.len() && forall|j: int|
                0 <= j < steps.len() ==> rows[at + j] == #[trigger] steps[j]
        }),
    decreases n,
{
    let m = (n - 1) as nat;
    if y == n - 1 {
        let front = render::rows_ops(snap, sel, base, m);
        let row = render::row_ops(snap, sel, base, y, snap.cells@[y]@.len());
        let at = lemma_in_its_row(snap, sel, base, y, snap.cells@[y]@.len(), x);
        let steps = render::cell_ops(
            snap,
            cell_at(snap, x, y),
            x,
            y,
            render::marked(snap, sel, base, x, y),
        );
        assert forall|j: int| 0 <= j < steps.len() implies render::rows_ops(
            snap,
            sel,
            base,
            n,
        )[front.len() + at + j] == #[trigger] steps[j] by {
            assert(row[at + j] == steps[j]);
        }
        front.len() + at
    } else {
        lemma_in_the_rows(snap, sel, base, m, x, y)
    }
}

/// Which cell a step of a row paints.
proof fn lemma_of_a_cell(
    snap: RenderSnapshot,
    sel: Option<GuiSelection>,
    base: int,
    y: int,
    n: nat,
    k: int,
) -> (x: int)
    requires
        0 <= k < render::row_ops(snap, sel, base, y, n).len(),
    ensures
        0 <= x < n,
        right_step(
            snap,
            cell_at(snap, x, y),
            render::marked(snap, sel, base, x, y),
            x,
            y,
            render::row_ops(snap, sel, base, y, n)[k],
        ),
    decreases n,
{
    let m = (n - 1) as nat;
    let front = render::row_ops(snap, sel, base, y, m);
    if k < front.len() {
        lemma_of_a_cell(snap, sel, base, y, m, k)
    } else {
        lemma_step_right(
            snap,
            cell_at(snap, m as int, y),
            m as int,
            y,
            render::marked(snap, sel, base, m as int, y),
            k - front.len(),
        );
        m as int
    }
}

/// Which cell a step of the rows paints.
proof fn lemma_of_some_cell(
    snap: RenderSnapshot,
    sel: Option<GuiSelection>,
    base: int,
    n: nat,
    k: int,
) -> (at: (int, int))
    requires
        n <= snap.cells@.len(),
        0 <= k < render::rows_ops(snap, sel, base, n).len(),
    ensures
        on_screen(snap, at.0, at.1),
        right_step(
            snap,
            cell_at(snap, at.0, at.1),
            render::marked(snap, sel, base, at.0, at.1),
            at.0,
            at.1,
            render::rows_ops(snap, sel, base, n)[k],
        ),
    decreases n,
{
    let m = (n - 1) as nat;
    let front = render::rows_ops(snap, sel, base, m);
    if k < front.len() {
        lemma_of_some_cell(snap, sel, base, m, k)
    } else {
        let x = lemma_of_a_cell(snap, sel, base, m as int, snap.cells@[m as int]@.len(), k - front.len());
        (x, m as int)
    }
}

/// The screen without its cursor.
pub open spec fn without_cursor(snap: RenderSnapshot) -> RenderSnapshot {
    RenderSnapshot { cursor: Cursor { visible: false, position: None }, ..snap }
}

proof fn lemma_row_without_cursor(
    snap: RenderSnapshot,
    sel: Option<GuiSelection>,
    base: int,
    y: int,
    n: nat,
)
    ensures
        render::row_ops(without_cursor(snap), sel, base, y, n) == render::row_ops(
            snap,
            sel,
            base,
            y,
            n,
        ),
    decreases n,
{
    if n > 0 {
        lemma_row_without_cursor(snap, sel, base, y, (n - 1) as nat);
        let bare = without_cursor(snap);
        let cell = snap.cells@[y]@[n - 1];
        let s = render::marked(snap, sel, base, n - 1, y);
        assert(render::ink_of(bare, cell, s) == render::ink_of(snap, cell, s));
        assert(render::cell_ops(bare, cell, n - 1, y, s) == render::cell_ops(
            snap,
            cell,
            n - 1,
            y,
            s,
        ));
    }
}

proof fn lemma_rows_without_cursor(
    snap: RenderSnapshot,
    sel: Option<GuiSelection>,
    base: int,
    n: nat,
)
    ensures
        render::rows_ops(without_cursor(snap), sel, base, n) == render::rows_ops(snap, sel, base, n),
    decreases n,
{
    if n > 0 {
        lemma_rows_without_cursor(snap, sel, base, (n - 1) as nat);
        lemma_row_without_cursor(snap, sel, base, n - 1, snap.cells@[n - 1]@.len());
    }
}

proof fn lemma_bare(snap: RenderSnapshot, sel: Option<GuiSelection>, base: usize)
    ensures
        render::painted(without_cursor(snap), sel, base) == seq![
            OpView::Clear { color: snap.background },
        ] + render::rows_ops(snap, sel, base as int, snap.cells@.len()),
        render::painted(snap, sel, base) == render::painted(without_cursor(snap), sel, base)
            + render::cursor_ops(snap),
{
    lemma_rows_without_cursor(snap, sel, base as int, snap.cells@.len());
    let bare = without_cursor(snap);
    let rows = render::rows_ops(snap, sel, base as int, snap.cells@.len());
    assert(render::painted(bare, sel, base) =~= seq![OpView::Clear { color: snap.background }]
        + rows);
}

proof fn lemma_marked(
    snap: RenderSnapshot,
    sel: Option<GuiSelection>,
    base: int,
    x: int,
    y: int,
)
    requires
        fits(snap),
        on_screen(snap, x, y),
    ensures
        render::marked(snap, sel, base, x, y) == chosen(snap, sel, base, x, y),
{
    assert(snap.cells@[y]@.len() <= snap.cols);
    if let Some(s) = sel {
        law_covered_is_between(s, x as usize, base + y, snap.cols);
    }
}

/// Law: nothing is painted but what the screen shows. The pane is cleared to its
/// background; every later step, but for the cursor's, fills, writes or underlines
/// one cell of the screen, in the colours that this cell and the selection give
/// it.
pub proof fn law_every_step_paints_its_cell(
    snap: RenderSnapshot,
    sel: Option<GuiSelection>,
    base: usize,
    k: int,
)
    requires
        fits(snap),
        0 <= k < render::painted(without_cursor(snap), sel, base).len(),
    ensures
        ({
            let op = render::painted(without_cursor(snap), sel, base)[k];
            &&& k == 0 ==> op == OpView::Clear { color: snap.background }
            &&& k > 0 ==> exists|x: int, y: int|
                #![trigger on_screen(snap, x, y)]
                on_screen(snap, x, y) && right_step(
                    snap,
                    cell_at(snap, x, y),
                    chosen(snap, sel, base as int, x, y),
                    x,
                    y,
                    op,
                )
        }),
{
    lemma_bare(snap, sel, base);
    if k > 0 {
        let (x, y) = lemma_of_some_cell(snap, sel, base as int, snap.cells@.len(), k - 1);
        lemma_marked(snap, sel, base as int, x, y);
    }
}

/// Whether one of these steps fills the cell at `(x, y)` with a colour.
pub open spec fn fills(
    steps: Seq<OpView>,
    k: int,
    cell: CellSnapshot,
    x: int,
    y: int,
    color: Rgb,
) -> bool {
    0 <= k < steps.len() && steps[k] == OpView::Fill {
        x,
        y,
        span: if cell.width == CellWidth::Wide {
            2
        } else {
            1
        },
        color,
    }
}

/// Whether a step writes what stands in a cell, in the right colour.
pub open spec fn writes(
    op: OpView,
    snap: RenderSnapshot,
    cell: CellSnapshot,
    picked: bool,
    cx: int,
    cy: int,
) -> bool {
    op matches OpView::Glyph { x, y, text, ink, wide, bold, italic } && {
        &&& x == cx && y == cy && text == cell.grapheme@
        &&& wide == (cell.width == CellWidth::Wide)
        &&& bold == cell.flags.bold && italic == cell.flags.italic
        &&& right_ink(snap, cell, picked, ink)
    }
}

/// Whether these steps show a cell: it is filled where it has a background, is
/// selected, or stands in inverse video; then what stands in it is written; then
/// come its lines.
pub open spec fn shows(
    steps: Seq<OpView>,
    snap: RenderSnapshot,
    cell: CellSnapshot,
    picked: bool,
    cx: int,
    cy: int,
) -> bool {
    &&& picked ==> fills(steps, 0, cell, cx, cy, snap.foreground)
    &&& !picked && cell.bg is Some ==> fills(steps, 0, cell, cx, cy, cell.bg->0)
    &&& written_on(cell) && cell.flags.inverse && cell.bg is None ==> exists|k: int| #[trigger]
        fills(steps, k, cell, cx, cy, snap.foreground)
    &&& written_on(cell) && !cell.flags.invisible ==> exists|k: int|
        0 <= k < steps.len() && writes(#[trigger] steps[k], snap, cell, picked, cx, cy)
    &&& forall|i: int, k: int|
        0 <= i < k < steps.len() && #[trigger] steps[k] is Fill ==> #[trigger] steps[i] is Fill
    &&& written_on(cell) && cell.flags.underline != UnderlineKind::Absent ==> exists|k: int|
        0 <= k < steps.len() && #[trigger] steps[k] is Underline
    &&& written_on(cell) && cell.flags.strikethrough ==> exists|k: int|
        0 <= k < steps.len() && #[trigger] steps[k] is Strike
    &&& written_on(cell) && cell.flags.overline ==> exists|k: int|
        0 <= k < steps.len() && #[trigger] steps[k] is Overline
    &&& forall|k: int|
        0 <= k < steps.len() ==> right_step(snap, cell, picked, cx, cy, #[trigger] steps[k])
}

proof fn lemma_lines_there(cell: CellSnapshot, x: int, y: int, ink: Ink)
    ensures
        ({
            let lines = render::lined(cell, x, y, ink);
            &&& cell.flags.underline != UnderlineKind::Absent ==> lines.len() > 0 && lines[0]
                is Underline
            &&& cell.flags.strikethrough ==> exists|k: int|
                0 <= k < lines.len() && #[trigger] lines[k] is Strike
            &&& cell.flags.overline ==> exists|k: int|
                0 <= k < lines.len() && #[trigger] lines[k] is Overline
            &&& forall|k: int| 0 <= k < lines.len() ==> !(#[trigger] lines[k] is Fill)
        }),
{
    let lines = render::lined(cell, x, y, ink);
    let one: int = if cell.flags.underline != UnderlineKind::Absent {
        1
    } else {
        0
    };
    let two: int = if cell.flags.strikethrough {
        one + 1
    } else {
        one
    };
    if cell.flags.strikethrough {
        assert(lines[one] is Strike);
    }
    if cell.flags.overline {
        assert(lines[two] is Overline);
    }
}

/// Where each of four pieces stands.
proof fn lemma_pieces(a: Seq<OpView>, b: Seq<OpView>, c: Seq<OpView>, d: Seq<OpView>)
    ensures
        forall|k: int| 0 <= k < a.len() ==> (a + b + c + d)[k] == #[trigger] a[k],
        forall|k: int| 0 <= k < b.len() ==> (a + b + c + d)[a.len() + k] == #[trigger] b[k],
        forall|k: int|
            0 <= k < c.len() ==> (a + b + c + d)[a.len() + b.len() + k] == #[trigger] c[k],
        forall|k: int|
            0 <= k < d.len() ==> (a + b + c + d)[a.len() + b.len() + c.len() + k]
                == #[trigger] d[k],
{
}

#[verifier::spinoff_prover]
#[verifier::rlimit(60)]
proof fn lemma_shows_lines(snap: RenderSnapshot, cell: CellSnapshot, x: int, y: int, s: bool)
    requires
        cell.width != CellWidth::SpacerTail,
        written_on(cell),
    ensures
        ({
            let steps = render::cell_ops(snap, cell, x, y, s);
            &&& cell.flags.underline != UnderlineKind::Absent ==> exists|k: int|
                0 <= k < steps.len() && #[trigger] steps[k] is Underline
            &&& cell.flags.strikethrough ==> exists|k: int|
                0 <= k < steps.len() && #[trigger] steps[k] is Strike
            &&& cell.flags.overline ==> exists|k: int|
                0 <= k < steps.len() && #[trigger] steps[k] is Overline
            &&& !cell.flags.invisible ==> exists|k: int|
                0 <= k < steps.len() && writes(#[trigger] steps[k], snap, cell, s, x, y)
            &&& cell.flags.inverse && cell.bg is None ==> exists|k: int| #[trigger]
                fills(steps, k, cell, x, y, snap.foreground)
            &&& forall|i: int, k: int|
                0 <= i < k < steps.len() && #[trigger] steps[k] is Fill ==> #[trigger] steps[i]
                    is Fill
        }),
{
    lemma_written(cell);
    lemma_cell_steps(snap, cell, x, y, s);
    let steps = render::cell_ops(snap, cell, x, y, s);
    let ink = render::ink_of(snap, cell, s);
    let fill = render::filled(x, y, render::columns(cell), render::fill_of(snap, cell, s));
    let under = render::filled(x, y, render::columns(cell), render::behind(snap, cell));
    let glyph = render::drawn(cell, x, y, ink);
    let lines = render::lined(cell, x, y, ink);
    let v = (fill.len() + under.len() + glyph.len()) as int;
    lemma_pieces(fill, under, glyph, lines);
    lemma_lines_there(cell, x, y, ink);
    if cell.flags.underline != UnderlineKind::Absent {
        assert(steps[v + 0] is Underline) by {
            assert(lines[0] is Underline);
        }
    }
    if cell.flags.strikethrough {
        let k = choose|k: int| 0 <= k < lines.len() && #[trigger] lines[k] is Strike;
        assert(steps[v + k] is Strike);
    }
    if cell.flags.overline {
        let k = choose|k: int| 0 <= k < lines.len() && #[trigger] lines[k] is Overline;
        assert(steps[v + k] is Overline);
    }
    if !cell.flags.invisible {
        let k = (fill.len() + under.len()) as int;
        assert(glyph[0] is Glyph);
        assert(steps[k] == glyph[0]);
        assert(writes(steps[k], snap, cell, s, x, y));
    }
    if cell.flags.inverse && cell.bg is None {
        assert(under[0] is Fill);
        assert(steps[fill.len() as int] == under[0]);
        assert(fills(steps, fill.len() as int, cell, x, y, snap.foreground));
    }
    assert forall|i: int, k: int|
        0 <= i < k < steps.len() && #[trigger] steps[k] is Fill implies #[trigger] steps[i]
        is Fill by {
        if k >= v {
            assert(steps[v + (k - v)] == lines[k - v]);
        }
        if i < fill.len() {
            assert(steps[i] == fill[i]);
        } else if i < fill.len() + under.len() {
            assert(steps[fill.len() + (i - fill.len())] == under[i - fill.len()]);
        } else if k < v {
            let g = fill.len() + under.len();
            assert(steps[g + (k - g)] == glyph[k - g]);
        }
    }
}

#[verifier::spinoff_prover]
#[verifier::rlimit(60)]
proof fn lemma_shows(snap: RenderSnapshot, cell: CellSnapshot, x: int, y: int, s: bool)
    requires
        cell.width != CellWidth::SpacerTail,
    ensures
        shows(render::cell_ops(snap, cell, x, y, s), snap, cell, s, x, y),
{
    let steps = render::cell_ops(snap, cell, x, y, s);
    assert forall|k: int| 0 <= k < steps.len() implies right_step(
        snap,
        cell,
        s,
        x,
        y,
        #[trigger] steps[k],
    ) by {
        lemma_step_right(snap, cell, x, y, s, k);
    }
    lemma_written(cell);
    lemma_cell_steps(snap, cell, x, y, s);
    let fill = render::filled(x, y, render::columns(cell), render::fill_of(snap, cell, s));
    if s || cell.bg is Some {
        assert(fill.len() == 1);
        assert(steps[0] == fill[0]);
    }
    if written_on(cell) {
        lemma_shows_lines(snap, cell, x, y, s);
    }
}

/// Law: everything on the screen is painted: `at` and `n` say where the steps of a
/// cell stand, which show what is in it, as it is coloured and selected.
#[verifier::spinoff_prover]
#[verifier::rlimit(60)]
pub proof fn law_every_cell_is_painted(
    snap: RenderSnapshot,
    sel: Option<GuiSelection>,
    base: usize,
    x: int,
    y: int,
) -> (r: (int, int))
    requires
        fits(snap),
        on_screen(snap, x, y),
        cell_at(snap, x, y).width != CellWidth::SpacerTail,
    ensures
        ({
            let (at, n) = r;
            let all = render::painted(snap, sel, base);
            &&& 1 <= at <= at + n <= render::painted(without_cursor(snap), sel, base).len()
            &&& at + n <= all.len()
            &&& shows(
                all.subrange(at, at + n),
                snap,
                cell_at(snap, x, y),
                chosen(snap, sel, base as int, x, y),
                x,
                y,
            )
        }),
{
    lemma_bare(snap, sel, base);
    lemma_marked(snap, sel, base as int, x, y);
    let cell = cell_at(snap, x, y);
    let s = chosen(snap, sel, base as int, x, y);
    let all = render::painted(snap, sel, base);
    let rows = render::rows_ops(snap, sel, base as int, snap.cells@.len());
    let from = lemma_in_the_rows(snap, sel, base as int, snap.cells@.len(), x, y);
    let steps = render::cell_ops(snap, cell, x, y, s);
    let part = all.subrange(from + 1, from + 1 + steps.len());
    assert forall|j: int| 0 <= j < steps.len() implies #[trigger] part[j] == steps[j] by {
        assert(rows[from + j] == steps[j]);
    }
    assert(part =~= steps);
    lemma_shows(snap, cell, x, y, s);
    (from + 1, steps.len() as int)
}

/// Law: text keeps its colour. What stands in a cell that is neither selected nor
/// in inverse video is written in the cell's own colour, so two screens that differ
/// in that colour are painted by different steps.
#[verifier::spinoff_prover]
#[verifier::rlimit(60)]
pub proof fn law_text_keeps_its_color(
    snap: RenderSnapshot,
    other: RenderSnapshot,
    sel: Option<GuiSelection>,
    base: usize,
    x: int,
    y: int,
)
    requires
        fits(snap),
        fits(other),
        on_screen(snap, x, y),
        on_screen(other, x, y),
        ({
            let cell = cell_at(snap, x, y);
            &&& cell.width != CellWidth::SpacerTail
            &&& written_on(cell) && !cell.flags.invisible && !cell.flags.inverse
            &&& cell.fg is Some
            &&& !chosen(snap, sel, base as int, x, y)
            &&& cell_at(other, x, y).fg is Some
            &&& cell_at(other, x, y).fg != cell.fg
            &&& cell_at(other, x, y).grapheme@ == cell.grapheme@
            &&& cell_at(other, x, y).flags == cell.flags
        }),
    ensures
        render::painted(without_cursor(snap), sel, base) != render::painted(
            without_cursor(other),
            sel,
            base,
        ),
{
    let bare = without_cursor(snap);
    let all = render::painted(bare, sel, base);
    let cell = cell_at(snap, x, y);
    assert(fits(bare)) by {
        assert forall|y: int| 0 <= y < bare.cells@.len() implies (#[trigger] bare.cells@[y])@.len()
            <= bare.cols by {
            assert(snap.cells@[y]@.len() <= snap.cols);
        }
    }
    assert(on_screen(bare, x, y));
    let (at, n) = law_every_cell_is_painted(bare, sel, base, x, y);
    let part = all.subrange(at, at + n);
    let k = choose|k: int|
        0 <= k < part.len() && writes(#[trigger] part[k], bare, cell, false, x, y);
    let g = at + k;
    assert(all[g] == part[k]);
    if all == render::painted(without_cursor(other), sel, base) {
        law_every_step_paints_its_cell(other, sel, base, g);
        let (ox, oy) = choose|ox: int, oy: int|
            #![trigger on_screen(other, ox, oy)]
            on_screen(other, ox, oy) && right_step(
                other,
                cell_at(other, ox, oy),
                chosen(other, sel, base as int, ox, oy),
                ox,
                oy,
                all[g],
            );
        assert(ox == x && oy == y);
        assert(chosen(other, sel, base as int, x, y) == chosen(snap, sel, base as int, x, y));
    }
}

/// Law: a visible cursor is painted last, as a block in the pane's foreground, and
/// what it stands on is written over it in the pane's background. A cursor that is
/// hidden or out of view changes nothing.
pub proof fn law_cursor_is_painted_last(snap: RenderSnapshot, sel: Option<GuiSelection>, base: usize)
    ensures
        ({
            let bare = render::painted(without_cursor(snap), sel, base);
            let all = render::painted(snap, sel, base);
            match snap.cursor.position {
                Some((x, y)) if snap.cursor.visible => {
                    let block = OpView::Fill {
                        x: x as int,
                        y: y as int,
                        span: 1,
                        color: snap.foreground,
                    };
                    if on_screen(snap, x as int, y as int) && written_on(
                        cell_at(snap, x as int, y as int),
                    ) && !cell_at(snap, x as int, y as int).flags.invisible {
                        let cell = cell_at(snap, x as int, y as int);
                        all == bare.push(block).push(
                            OpView::Glyph {
                                x: x as int,
                                y: y as int,
                                text: cell.grapheme@,
                                ink: Ink { color: snap.background, faint: false },
                                wide: cell.width == CellWidth::Wide,
                                bold: cell.flags.bold,
                                italic: cell.flags.italic,
                            },
                        )
                    } else {
                        all == bare.push(block)
                    }
                },
                _ => all == bare,
            }
        }),
{
    lemma_bare(snap, sel, base);
    let bare = render::painted(without_cursor(snap), sel, base);
    let all = render::painted(snap, sel, base);
    match snap.cursor.position {
        Some((x, y)) if snap.cursor.visible => {
            let block = OpView::Fill { x: x as int, y: y as int, span: 1, color: snap.foreground };
            if on_screen(snap, x as int, y as int) {
                let cell = cell_at(snap, x as int, y as int);
                lemma_written(cell);
                if written_on(cell) && !cell.flags.invisible {
                    let glyph = render::drawn(
                        cell,
                        x as int,
                        y as int,
                        Ink { color: snap.background, faint: false },
                    );
                    assert(all =~= bare.push(block).push(glyph[0]));
                } else {
                    assert(all =~= bare.push(block));
                }
            } else {
                assert(all =~= bare.push(block));
            }
        },
        _ => {
            assert(all =~= bare);
        },
    }
}

} // verus!
