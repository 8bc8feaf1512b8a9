//! How lines are wrapped: which rows they take, and in which style.
use crate::screen;
use crate::screen::glued;
use crate::style::Style;
use crate::ui::markdown::{
    all_in_clusters, all_joined, columns, cut, flattened, joined, laid, law_nothing_lost, rows_of,
    shown_as, shown_text, styled, wrapped, wrapped_line, Pieces,
};
use vstd::prelude::*;

verus! {

/// The same style, so many times.
pub open spec fn of_style(n: nat, style: Style) -> Seq<Style> {
    Seq::new(n, |i: int| style)
}

/// The style of every character of a row.
pub open spec fn styles(row: Pieces) -> Seq<Style>
    decreases row.len(),
{
    if row.len() == 0 {
        Seq::empty()
    } else {
        styles(row.drop_last()) + of_style(row.last().1.len(), row.last().0)
    }
}

/// The style of every character that the first `n` spans show.
pub open spec fn styles_shown(spans: Pieces, n: int) -> Seq<Style>
    decreases n,
{
    if n <= 0 {
        Seq::empty()
    } else {
        styles_shown(spans, n - 1) + of_style(shown_text(spans[n - 1].1).len(), spans[n - 1].0)
    }
}

proof fn lemma_of_style(a: nat, b: nat, style: Style)
    ensures
        of_style(a, style) + of_style(b, style) == of_style(a + b, style),
{
    assert(of_style(a, style) + of_style(b, style) =~= of_style(a + b, style));
}

proof fn lemma_styles_add(a: Pieces, b: Pieces)
    ensures
        styles(a + b) == styles(a) + styles(b),
    decreases b.len(),
{
    if b.len() == 0 {
        assert(a + b =~= a);
        assert(styles(a) + styles(b) =~= styles(a));
    } else {
        lemma_styles_add(a, b.drop_last());
        assert((a + b).drop_last() =~= a + b.drop_last());
        assert(styles(a + b) =~= styles(a) + styles(b));
    }
}

proof fn lemma_styles_styled(v: Seq<Seq<char>>, style: Style)
    ensures
        styles(styled(v, style)) == of_style(glued(v).len(), style),
    decreases v.len(),
{
    if v.len() == 0 {
        assert(styles(styled(v, style)) =~= of_style(glued(v).len(), style));
    } else {
        lemma_styles_styled(v.drop_last(), style);
        assert(styled(v, style).drop_last() =~= styled(v.drop_last(), style));
        lemma_of_style(glued(v.drop_last()).len(), v.last().len(), style);
    }
}

proof fn lemma_styles_cut(spans: Pieces, n: int)
    requires
        n <= spans.len(),
        all_in_clusters(spans),
    ensures
        styles(cut(spans, n)) == styles_shown(spans, n),
    decreases n,
{
    if n > 0 {
        lemma_styles_cut(spans, n - 1);
        let parts = screen::clusters(shown_text(spans[n - 1].1));
        lemma_styles_styled(parts, spans[n - 1].0);
        lemma_styles_add(cut(spans, n - 1), styled(parts, spans[n - 1].0));
    }
}

/// Law: joining the pieces of a row changes the style of no character, and leaves no
/// two neighbours of one style.
pub proof fn law_joined_pieces_keep_their_style(row: Pieces)
    ensures
        styles(joined(row)) == styles(row),
        forall|i: int|
            0 <= i < joined(row).len() - 1 ==> (#[trigger] joined(row)[i]).0 != joined(row)[i
                + 1].0,
    decreases row.len(),
{
    if row.len() > 0 {
        law_joined_pieces_keep_their_style(row.drop_last());
        let front = joined(row.drop_last());
        let piece = row.last();
        let all = joined(row);
        if front.len() > 0 && front.last().0 == piece.0 {
            assert(all.drop_last() =~= front.drop_last());
            lemma_of_style(front.last().1.len(), piece.1.len(), piece.0);
            assert(styles(all) =~= styles(row));
        } else {
            assert(all.drop_last() =~= front);
        }
        assert forall|i: int| 0 <= i < all.len() - 1 implies (#[trigger] all[i]).0 != all[i + 1].0 by {
            if i + 1 < front.len() {
                assert(front[i].0 != front[i + 1].0);
            }
        }
    }
}

proof fn lemma_styles_all_joined(rows: Seq<Pieces>)
    ensures
        styles(flattened(all_joined(rows))) == styles(flattened(rows)),
    decreases rows.len(),
{
    if rows.len() > 0 {
        lemma_styles_all_joined(rows.drop_last());
        assert(all_joined(rows).drop_last() =~= all_joined(rows.drop_last()));
        law_joined_pieces_keep_their_style(rows.last());
        lemma_styles_add(flattened(rows.drop_last()), rows.last());
        lemma_styles_add(flattened(all_joined(rows.drop_last())), joined(rows.last()));
    }
}

/// Law: wrapping changes the style of no character.
pub proof fn law_wrapping_keeps_the_style(spans: Pieces, width: nat)
    requires
        all_in_clusters(spans),
        forall|i: int|
            0 <= i < cut(spans, spans.len() as int).len() ==> screen::text_columns(
                #[trigger] cut(spans, spans.len() as int)[i].1,
            ) <= width,
    ensures
        styles(flattened(wrapped_line(spans, width))) == styles_shown(spans, spans.len() as int),
{
    let pieces = cut(spans, spans.len() as int);
    let l = laid(pieces, width, pieces.len() as int);
    law_nothing_lost(pieces, width, pieces.len() as int);
    assert(pieces.take(pieces.len() as int).map_values(
        |p: (Style, Seq<char>)| shown_as(p, width),
    ) =~= pieces);
    lemma_styles_all_joined(l.rows.push(l.row));
    lemma_styles_cut(spans, spans.len() as int);
}

/// Law: a piece that no row can hold is shown as an ellipsis in its style; every other
/// piece is shown as it is.
pub proof fn law_too_wide_a_piece(piece: (Style, Seq<char>), width: nat)
    ensures
        screen::text_columns(piece.1) > width ==> shown_as(piece, width) == (piece.0, seq!['…']),
        screen::text_columns(piece.1) <= width ==> shown_as(piece, width) == piece,
{
}

/// Whether no row could have held the first piece of the row behind it.
pub open spec fn full(rows: Seq<Pieces>, width: nat) -> bool {
    forall|i: int|
        0 <= i < rows.len() - 1 ==> (#[trigger] rows[i]).len() > 0 && columns(rows[i])
            + screen::text_columns(rows[i + 1][0].1) > width
}

proof fn lemma_full(pieces: Pieces, width: nat, n: int)
    requires
        0 <= n <= pieces.len(),
        forall|i: int|
            0 <= i < pieces.len() ==> screen::text_columns(#[trigger] pieces[i].1) <= width,
    ensures
        ({
            let l = laid(pieces, width, n);
            &&& columns(l.row) == l.col
            &&& n > 0 ==> l.row.len() > 0
            &&& n == 0 ==> l.row.len() == 0 && l.rows.len() == 0
            &&& full(l.rows.push(l.row), width)
            &&& forall|i: int| 0 <= i < l.rows.len() ==> (#[trigger] l.rows[i]).len() > 0
        }),
    decreases n,
{
    if n > 0 {
        lemma_full(pieces, width, n - 1);
        let before = laid(pieces, width, n - 1);
        let after = laid(pieces, width, n);
        let piece = pieces[n - 1];
        let was = before.rows.push(before.row);
        let is = after.rows.push(after.row);
        assert(screen::text_columns(pieces[n - 1].1) <= width);
        assert(shown_as(piece, width) == piece);
        if before.col + screen::text_columns(piece.1) > width && before.row.len() > 0 {
            assert(after.rows =~= was);
            assert(after.row =~= seq![piece]);
            assert(after.row.drop_last() =~= Seq::empty());
            assert(columns(after.row.drop_last()) == 0);
            assert forall|i: int| 0 <= i < after.rows.len() implies (
            #[trigger] after.rows[i]).len() > 0 by {
                if i < before.rows.len() {
                    assert(after.rows[i] == before.rows[i]);
                }
            }
            assert(is[is.len() - 2] == before.row);
            assert(is[is.len() - 1][0] == piece);
            assert forall|i: int| 0 <= i < is.len() - 1 implies (#[trigger] is[i]).len() > 0
                && columns(is[i]) + screen::text_columns(is[i + 1][0].1) > width by {
                if i < was.len() - 1 {
                    assert(was[i] == is[i] && was[i + 1] == is[i + 1]);
                }
            }
        } else {
            assert(after.rows == before.rows);
            assert(after.row == before.row.push(piece));
            assert(after.row.drop_last() =~= before.row);
            assert forall|i: int| 0 <= i < is.len() - 1 implies (#[trigger] is[i]).len() > 0
                && columns(is[i]) + screen::text_columns(is[i + 1][0].1) > width by {
                assert(was[i] == is[i]);
                if i + 1 < was.len() - 1 {
                    assert(was[i + 1] == is[i + 1]);
                } else {
                    assert(before.row.len() > 0) by {
                        if n - 1 == 0 {
                            assert(before.rows.len() == 0);
                        }
                    }
                    assert(is[i + 1][0] == before.row[0]);
                    assert(was[i + 1] == before.row);
                }
            }
        }
    } else {
        let l = laid(pieces, width, n);
        assert(columns(l.row) == 0);
    }
}

/// Law: a row is ended only where the next piece has no room on it, so a line takes no
/// more rows than it must; a line that fits takes one.
pub proof fn law_rows_are_filled(pieces: Pieces, width: nat)
    requires
        forall|i: int|
            0 <= i < pieces.len() ==> screen::text_columns(#[trigger] pieces[i].1) <= width,
    ensures
        ({
            let l = laid(pieces, width, pieces.len() as int);
            full(l.rows.push(l.row), width)
        }),
        columns(pieces) <= width ==> laid(pieces, width, pieces.len() as int).rows.len() == 0,
{
    lemma_full(pieces, width, pieces.len() as int);
    if columns(pieces) <= width {
        lemma_one_row(pieces, width, pieces.len() as int);
    }
}

proof fn lemma_columns_grow(pieces: Pieces, n: int)
    requires
        0 <= n <= pieces.len(),
    ensures
        columns(pieces.take(n)) <= columns(pieces),
    decreases pieces.len(),
{
    if n == pieces.len() {
        assert(pieces.take(n) =~= pieces);
    } else {
        lemma_columns_grow(pieces.drop_last(), n);
        assert(pieces.drop_last().take(n) =~= pieces.take(n));
    }
}

proof fn lemma_one_row(pieces: Pieces, width: nat, n: int)
    requires
        0 <= n <= pieces.len(),
        columns(pieces) <= width,
        forall|i: int|
            0 <= i < pieces.len() ==> screen::text_columns(#[trigger] pieces[i].1) <= width,
    ensures
        laid(pieces, width, n).rows.len() == 0,
        laid(pieces, width, n).row == pieces.take(n),
        laid(pieces, width, n).col == columns(pieces.take(n)),
    decreases n,
{
    if n > 0 {
        lemma_one_row(pieces, width, n - 1);
        lemma_columns_grow(pieces, n);
        assert(pieces.take(n).drop_last() =~= pieces.take(n - 1));
        assert(screen::text_columns(pieces[n - 1].1) <= width);
        assert(laid(pieces, width, n).row =~= pieces.take(n));
    } else {
        assert(pieces.take(0) =~= Seq::empty());
    }
}

/// Law: every line begins a row of its own and takes at least one; without room there
/// are no rows.
pub proof fn law_lines_begin_rows(lines: Seq<Pieces>, line: Pieces, width: u16)
    ensures
        width == 0 ==> rows_of(lines, width).len() == 0,
        width > 0 ==> rows_of(lines.push(line), width) == rows_of(lines, width) + rows_of(
            seq![line],
            width,
        ),
        width > 0 ==> rows_of(seq![line], width).len() > 0,
        width > 0 && line.len() == 0 ==> rows_of(seq![line], width) == seq![Seq::<
            (Style, Seq<char>),
        >::empty()],
{
    if width > 0 {
        let more = lines.push(line);
        lemma_wrapped_prefix(lines, more, width as nat, lines.len() as int);
        assert(wrapped(seq![line], width as nat, 0) =~= Seq::empty());
        assert(wrapped(seq![line], width as nat, 1) =~= wrapped_line(line, width as nat));
        if line.len() == 0 {
            assert(wrapped_line(line, width as nat) =~= seq![Seq::empty()]);
        }
    }
}

proof fn lemma_wrapped_prefix(a: Seq<Pieces>, b: Seq<Pieces>, width: nat, n: int)
    requires
        n <= a.len(),
        n <= b.len(),
        forall|i: int| 0 <= i < n ==> #[trigger] a[i] == b[i],
    ensures
        wrapped(a, width, n) == wrapped(b, width, n),
    decreases n,
{
    if n > 0 {
        lemma_wrapped_prefix(a, b, width, n - 1);
        assert(a[n - 1] == b[n - 1]);
    }
}

} // verus!
