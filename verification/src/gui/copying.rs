//! What a selection copies, cell by cell and row by row.
use crate::gui::render;
use crate::gui::render::GuiSelection;
use crate::gui::vt::{CellSnapshot, CellWidth, RenderSnapshot};
use crate::screen::glued;
use vstd::prelude::*;

verus! {

/// Whether `t` is `s` without the blanks at its end.
pub open spec fn cut_at_its_blanks(t: Seq<char>, s: Seq<char>) -> bool {
    &&& t.is_prefix_of(s)
    &&& t.len() > 0 ==> t.last() != ' '
    &&& forall|i: int| t.len() <= i < s.len() ==> #[trigger] s[i] == ' '
}

proof fn lemma_cut(s: Seq<char>)
    ensures
        cut_at_its_blanks(render::without_blanks(s), s),
    decreases s.len(),
{
    let t = render::without_blanks(s);
    if s.len() > 0 && s.last() == ' ' {
        let front = s.drop_last();
        lemma_cut(front);
        assert(t =~= s.take(t.len() as int)) by {
            assert(t =~= front.take(t.len() as int));
        }
        assert forall|i: int| t.len() <= i < s.len() implies #[trigger] s[i] == ' ' by {
            if i < front.len() {
                assert(front[i] == ' ');
            }
        }
    } else {
        assert(t =~= s.take(s.len() as int));
    }
}

/// Whether `piece` is what a cell adds to a copy: nothing for the second half of a
/// wide cell, a blank for an empty one, and else what stands in it.
pub open spec fn adds(cell: CellSnapshot, piece: Seq<char>) -> bool {
    &&& cell.width == CellWidth::SpacerTail ==> piece.len() == 0
    &&& cell.width != CellWidth::SpacerTail && cell.grapheme@.len() == 0 ==> piece.len() == 1
        && piece[0] == ' '
    &&& cell.width != CellWidth::SpacerTail && cell.grapheme@.len() > 0 ==> piece
        == cell.grapheme@
}

proof fn lemma_cells(cells: Seq<CellSnapshot>, pieces: Seq<Seq<char>>)
    requires
        pieces.len() == cells.len(),
        forall|i: int| 0 <= i < cells.len() ==> adds(cells[i], #[trigger] pieces[i]),
    ensures
        render::cells_text(cells) == glued(pieces),
    decreases cells.len(),
{
    if cells.len() > 0 {
        let front = pieces.drop_last();
        assert forall|i: int| 0 <= i < cells.len() - 1 implies adds(
            cells.drop_last()[i],
            #[trigger] front[i],
        ) by {
            assert(front[i] == pieces[i]);
        }
        lemma_cells(cells.drop_last(), front);
        assert(adds(cells[cells.len() - 1], pieces[cells.len() - 1]));
        assert(render::cell_text(cells.last()) =~= pieces.last());
    }
}

/// The first and the last column of a selection in one row.
pub open spec fn columns_of(sel: GuiSelection) -> (int, int) {
    if sel.anchor.0 <= sel.head.0 {
        (sel.anchor.0 as int, sel.head.0 as int)
    } else {
        (sel.head.0 as int, sel.anchor.0 as int)
    }
}

/// Law: a selection within one row copies its cells in order, as far as the row
/// has them: of each what stands in it, without the blanks at the end of the line.
pub proof fn law_copied_cells(
    snap: RenderSnapshot,
    sel: GuiSelection,
    base: usize,
    y: int,
    pieces: Seq<Seq<char>>,
)
    requires
        sel.anchor.1 == base + y,
        sel.head.1 == base + y,
        0 <= y < snap.rows,
        y < snap.cells@.len(),
        ({
            let (lo, hi) = columns_of(sel);
            let row = snap.cells@[y]@;
            let n = if hi < row.len() {
                hi + 1 - lo
            } else if lo < row.len() {
                row.len() - lo
            } else {
                0
            };
            &&& pieces.len() == n
            &&& forall|i: int| 0 <= i < n ==> adds(row[lo + i], #[trigger] pieces[i])
        }),
    ensures
        cut_at_its_blanks(render::selection_text(snap, sel, base), glued(pieces)),
{
    let (lo, hi) = columns_of(sel);
    let row = snap.cells@[y]@;
    let cells = render::span(row, lo, hi);
    assert(cells.len() == pieces.len());
    assert forall|i: int| 0 <= i < cells.len() implies adds(cells[i], #[trigger] pieces[i]) by {
        assert(cells[i] == row[lo + i]);
    }
    lemma_cells(cells, pieces);
    lemma_cut(glued(pieces));
    let lines = render::copied_lines(snap, sel, y, y, y + 1);
    assert(lines.len() == 1);
    assert(lines[0] == render::without_blanks(glued(pieces)));
}

proof fn lemma_glued_ones(pieces: Seq<Seq<char>>)
    requires
        forall|i: int| 0 <= i < pieces.len() ==> (#[trigger] pieces[i]).len() == 1,
    ensures
        glued(pieces).len() == pieces.len(),
        forall|i: int| 0 <= i < pieces.len() ==> glued(pieces)[i] == (#[trigger] pieces[i])[0],
    decreases pieces.len(),
{
    if pieces.len() > 0 {
        let front = pieces.drop_last();
        assert forall|i: int| 0 <= i < front.len() implies (#[trigger] front[i]).len() == 1 by {
            assert(pieces[i].len() == 1);
        }
        lemma_glued_ones(front);
        assert(pieces[pieces.len() - 1].len() == 1);
        assert forall|i: int| 0 <= i < pieces.len() implies glued(pieces)[i] == (
        #[trigger] pieces[i])[0] by {
            if i < front.len() {
                assert(front[i] == pieces[i]);
                assert(glued(front)[i] == front[i][0]);
            }
        }
    }
}

/// Law: of narrow cells with one character each, the i-th character copied is that
/// of the i-th cell selected, blanks included; what is not copied are blanks at the
/// end.
pub proof fn law_copied_columns(snap: RenderSnapshot, sel: GuiSelection, base: usize, y: int, i: int)
    requires
        sel.anchor.1 == base + y,
        sel.head.1 == base + y,
        0 <= y < snap.rows,
        y < snap.cells@.len(),
        columns_of(sel).1 < snap.cells@[y]@.len(),
        forall|x: int|
            0 <= x < snap.cells@[y]@.len() ==> (#[trigger] snap.cells@[y]@[x]).width
                == CellWidth::Narrow && snap.cells@[y]@[x].grapheme@.len() == 1,
        0 <= i <= columns_of(sel).1 - columns_of(sel).0,
    ensures
        ({
            let t = render::selection_text(snap, sel, base);
            let (lo, hi) = columns_of(sel);
            let c = snap.cells@[y]@[lo + i].grapheme@[0];
            &&& t.len() <= hi + 1 - lo
            &&& i < t.len() ==> t[i] == c
            &&& i >= t.len() ==> c == ' '
            &&& t.len() > 0 ==> t.last() != ' '
        }),
{
    let (lo, hi) = columns_of(sel);
    let row = snap.cells@[y]@;
    let pieces = Seq::new((hi + 1 - lo) as nat, |k: int| row[lo + k].grapheme@);
    assert forall|k: int| 0 <= k < pieces.len() implies adds(row[lo + k], #[trigger] pieces[k])
        && pieces[k].len() == 1 by {
        assert(row[lo + k].grapheme@.len() == 1);
    }
    law_copied_cells(snap, sel, base, y, pieces);
    lemma_glued_ones(pieces);
    let t = render::selection_text(snap, sel, base);
    assert(glued(pieces)[i] == pieces[i][0]);
    if i < t.len() {
        assert(t[i] == glued(pieces)[i]);
    }
}

proof fn lemma_stacked_join(a: Seq<Seq<char>>, b: Seq<Seq<char>>)
    requires
        a.len() > 0,
        b.len() > 0,
    ensures
        render::stacked(a + b) == render::stacked(a) + seq!['\n'] + render::stacked(b),
    decreases b.len(),
{
    let all = a + b;
    assert(all.drop_last() =~= a + b.drop_last());
    assert(all.last() == b.last());
    if b.len() == 1 {
        assert(a + b.drop_last() =~= a);
        assert(render::stacked(all) =~= render::stacked(a) + seq!['\n'] + render::stacked(b));
    } else {
        lemma_stacked_join(a, b.drop_last());
        assert(render::stacked(all) =~= render::stacked(a) + seq!['\n'] + render::stacked(b));
    }
}

/// Law: a selection over several rows copies them one under the other. Cut between
/// any two of its rows, it copies what its upper part does, a line feed, and what
/// its lower part does; the upper part runs to the end of its last row, the lower
/// one from the start of its first.
pub proof fn law_copied_rows(
    snap: RenderSnapshot,
    a: (u16, usize),
    b: (u16, usize),
    base: usize,
    m: usize,
)
    requires
        base <= a.1 <= m < b.1 < base + snap.rows,
        snap.rows <= snap.cells@.len(),
        a.0 < snap.cols,
    ensures
        render::selection_text(snap, GuiSelection { anchor: a, head: b }, base)
            == render::selection_text(
            snap,
            GuiSelection { anchor: a, head: ((snap.cols - 1) as u16, m) },
            base,
        ) + seq!['\n'] + render::selection_text(
            snap,
            GuiSelection { anchor: (0u16, (m + 1) as usize), head: b },
            base,
        ),
{
    let whole = GuiSelection { anchor: a, head: b };
    let upper = GuiSelection { anchor: a, head: ((snap.cols - 1) as u16, m) };
    let lower = GuiSelection { anchor: (0u16, (m + 1) as usize), head: b };
    let (top, mid, bottom) = (a.1 - base, m - base, b.1 - base);
    let all = render::copied_lines(snap, whole, top, bottom, bottom + 1);
    let one = render::copied_lines(snap, upper, top, mid, mid + 1);
    let two = render::copied_lines(snap, lower, mid + 1, bottom, bottom + 1);
    assert(render::ends(whole) == (a, b));
    assert(render::ends(upper) == (a, ((snap.cols - 1) as u16, m)));
    assert(render::ends(lower) == ((0u16, (m + 1) as usize), b));
    assert forall|i: int| 0 <= i < all.len() implies #[trigger] all[i] == (one + two)[i] by {
        if i < one.len() {
            assert(one[i] == render::copied_line(snap, upper, top, mid, top + i));
        } else {
            assert(two[i - one.len()] == render::copied_line(
                snap,
                lower,
                mid + 1,
                bottom,
                top + i,
            ));
        }
    }
    assert(all =~= one + two);
    lemma_stacked_join(one, two);
}

/// Law: an end above the viewport counts as one in its first row, and an end below
/// it as one in its last row: only what is in view can be copied.
pub proof fn law_copied_is_in_view(
    snap: RenderSnapshot,
    a: (u16, usize),
    b: (u16, usize),
    base: usize,
)
    requires
        a.1 < b.1,
        snap.rows > 0,
        base + snap.rows <= usize::MAX,
    ensures
        a.1 < base && base < b.1 ==> render::selection_text(
            snap,
            GuiSelection { anchor: a, head: b },
            base,
        ) == render::selection_text(snap, GuiSelection { anchor: (a.0, base), head: b }, base),
        b.1 >= base + snap.rows && a.1 < base + snap.rows - 1 ==> render::selection_text(
            snap,
            GuiSelection { anchor: a, head: b },
            base,
        ) == render::selection_text(
            snap,
            GuiSelection { anchor: a, head: (b.0, (base + snap.rows - 1) as usize) },
            base,
        ),
{
    let whole = GuiSelection { anchor: a, head: b };
    if a.1 < base && base < b.1 {
        let seen = GuiSelection { anchor: (a.0, base), head: b };
        assert(render::ends(seen) == ((a.0, base), b));
        if let Some(bottom) = render::bottom_row(b, base, snap.rows) {
            let end = if bottom < snap.cells@.len() {
                bottom + 1
            } else {
                snap.cells@.len() as int
            };
            assert(render::copied_lines(snap, whole, 0, bottom, end) =~= render::copied_lines(
                snap,
                seen,
                0,
                bottom,
                end,
            ));
        }
    }
    if b.1 >= base + snap.rows && a.1 < base + snap.rows - 1 {
        let last = (base + snap.rows - 1) as usize;
        let seen = GuiSelection { anchor: a, head: (b.0, last) };
        assert(render::ends(seen) == (a, (b.0, last)));
        if let Some(top) = render::top_row(a, base, snap.rows) {
            let bottom = snap.rows - 1;
            let end = if bottom < snap.cells@.len() {
                bottom + 1
            } else {
                snap.cells@.len() as int
            };
            assert(render::copied_lines(snap, whole, top, bottom, end) =~= render::copied_lines(
                snap,
                seen,
                top,
                bottom,
                end,
            ));
        }
    }
}

} // verus!
