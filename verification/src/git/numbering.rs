//! What every diff keeps: its line numbers run forward, its rows account for
//! every changed line and show the lines they number, and no context means no
//! unchanged row.
use crate::git::diff;
use crate::git::diff::Hunk;
use vstd::prelude::*;

verus! {

/// The line number a row has in the old file.
pub open spec fn old_number(row: diff::Row) -> Option<int> {
    match row {
        diff::Row::Context { old, .. } => Some(old),
        diff::Row::Removed { old, .. } => Some(old),
        diff::Row::Added { .. } => None,
    }
}

/// The line number a row has in the new file.
pub open spec fn new_number(row: diff::Row) -> Option<int> {
    match row {
        diff::Row::Context { new, .. } => Some(new),
        diff::Row::Added { new, .. } => Some(new),
        diff::Row::Removed { .. } => None,
    }
}

/// A row's number in the old file or in the new one.
pub open spec fn number(row: diff::Row, of_new: bool) -> Option<int> {
    if of_new {
        new_number(row)
    } else {
        old_number(row)
    }
}

/// Whether the numbers of the rows rise, from above `low` to `high`.
pub open spec fn rising(rows: Seq<diff::Row>, of_new: bool, low: int, high: int) -> bool {
    &&& low <= high
    &&& forall|i: int|
        0 <= i < rows.len() ==> (number(#[trigger] rows[i], of_new) matches Some(n) ==> low < n
            <= high)
    &&& forall|i: int, j: int|
        0 <= i < j < rows.len() ==> (number(#[trigger] rows[i], of_new) matches Some(m) ==> (number(
            #[trigger] rows[j],
            of_new,
        ) matches Some(n) ==> m < n))
}

proof fn lemma_rising_join(
    a: Seq<diff::Row>,
    b: Seq<diff::Row>,
    of_new: bool,
    low: int,
    mid: int,
    high: int,
)
    requires
        rising(a, of_new, low, mid),
        rising(b, of_new, mid, high),
    ensures
        rising(a + b, of_new, low, high),
{
    let c = a + b;
    assert forall|i: int|
        0 <= i < c.len() implies (number(#[trigger] c[i], of_new) matches Some(n) ==> low < n
        <= high) by {
        if i < a.len() {
            assert(c[i] == a[i]);
        } else {
            assert(c[i] == b[i - a.len()]);
        }
    }
    assert forall|i: int, j: int|
        0 <= i < j < c.len() implies (number(#[trigger] c[i], of_new) matches Some(m) ==> (number(
        #[trigger] c[j],
        of_new,
    ) matches Some(n) ==> m < n)) by {
        if i < a.len() {
            assert(c[i] == a[i]);
        } else {
            assert(c[i] == b[i - a.len()]);
        }
        if j < a.len() {
            assert(c[j] == a[j]);
        } else {
            assert(c[j] == b[j - a.len()]);
        }
    }
}

/// Where the numbers of `hunks[k]`'s rows end.
spec fn reach(hunks: Seq<Hunk>, k: int, before: nat, context: nat, of_new: bool) -> int {
    if k <= 0 {
        0
    } else {
        let end = diff::tail_end(hunks, k - 1, before, context);
        if of_new {
            end + (hunks[k - 1].after_end - hunks[k - 1].before_end)
        } else {
            end
        }
    }
}

proof fn lemma_rising_hunk(
    before: Seq<Seq<u8>>,
    after: Seq<Seq<u8>>,
    hunks: Seq<Hunk>,
    k: int,
    context: nat,
    of_new: bool,
)
    requires
        0 <= k < hunks.len(),
        diff::hunks_fit(hunks, before.len(), after.len()),
    ensures
        rising(
            diff::hunk_rows(before, after, hunks, k, context),
            of_new,
            reach(hunks, k, before.len(), context, of_new),
            reach(hunks, k + 1, before.len(), context, of_new),
        ),
{
    let h = hunks[k];
    assert(diff::hunk_fits(hunks, k, before.len(), after.len()));
    if k > 0 {
        assert(diff::hunk_fits(hunks, k - 1, before.len(), after.len()));
    }
    if k + 1 < hunks.len() {
        assert(diff::hunk_fits(hunks, k + 1, before.len(), after.len()));
    }
    let low = reach(hunks, k, before.len(), context, of_new);
    let lead = diff::lead_start(hunks, k, before.len(), context);
    let end = diff::tail_end(hunks, k, before.len(), context);
    let shift = h.after_start - h.before_start;
    let a = diff::context_rows(before, lead, h.before_start as int, shift);
    let b = diff::removed_rows(before, h.before_start as int, h.before_end as int);
    let c = diff::added_rows(after, h.after_start as int, h.after_end as int);
    let d = diff::context_rows(before, h.before_end as int, end, h.after_end - h.before_end);
    let high = reach(hunks, k + 1, before.len(), context, of_new);
    if of_new {
        assert(rising(a, of_new, low, h.after_start as int));
        assert(rising(b, of_new, h.after_start as int, h.after_start as int));
        assert(rising(c, of_new, h.after_start as int, h.after_end as int));
        assert(rising(d, of_new, h.after_end as int, high));
        lemma_rising_join(a, b, of_new, low, h.after_start as int, h.after_start as int);
        lemma_rising_join(a + b, c, of_new, low, h.after_start as int, h.after_end as int);
        lemma_rising_join(a + b + c, d, of_new, low, h.after_end as int, high);
    } else {
        assert(rising(a, of_new, low, h.before_start as int));
        assert(rising(b, of_new, h.before_start as int, h.before_end as int));
        assert(rising(c, of_new, h.before_end as int, h.before_end as int));
        assert(rising(d, of_new, h.before_end as int, high));
        lemma_rising_join(a, b, of_new, low, h.before_start as int, h.before_end as int);
        lemma_rising_join(a + b, c, of_new, low, h.before_end as int, h.before_end as int);
        lemma_rising_join(a + b + c, d, of_new, low, h.before_end as int, high);
    }
}

proof fn lemma_rising(
    before: Seq<Seq<u8>>,
    after: Seq<Seq<u8>>,
    hunks: Seq<Hunk>,
    k: int,
    context: nat,
    of_new: bool,
)
    requires
        0 <= k <= hunks.len(),
        diff::hunks_fit(hunks, before.len(), after.len()),
    ensures
        rising(
            diff::diff_rows(before, after, hunks, k, context),
            of_new,
            0,
            reach(hunks, k, before.len(), context, of_new),
        ),
    decreases k,
{
    if k > 0 {
        lemma_rising(before, after, hunks, k - 1, context, of_new);
        lemma_rising_hunk(before, after, hunks, k - 1, context, of_new);
        lemma_rising_join(
            diff::diff_rows(before, after, hunks, k - 1, context),
            diff::hunk_rows(before, after, hunks, k - 1, context),
            of_new,
            0,
            reach(hunks, k - 1, before.len(), context, of_new),
            reach(hunks, k, before.len(), context, of_new),
        );
    }
}

/// Law: the rows of a diff number the lines of both files forward, from 1 and
/// within the file, without naming a line twice.
pub proof fn law_numbers_run_forward(
    before: Seq<Seq<u8>>,
    after: Seq<Seq<u8>>,
    hunks: Seq<Hunk>,
    context: nat,
)
    requires
        diff::hunks_fit(hunks, before.len(), after.len()),
    ensures
        rising(diff::all_rows(before, after, hunks, context), false, 0, before.len() as int),
        rising(diff::all_rows(before, after, hunks, context), true, 0, after.len() as int),
{
    let n = hunks.len() as int;
    lemma_rising(before, after, hunks, n, context, false);
    lemma_rising(before, after, hunks, n, context, true);
    if n > 0 {
        assert(diff::hunk_fits(hunks, n - 1, before.len(), after.len()));
        assert(diff::gap_start(hunks, n) == (
            hunks[n - 1].before_end as int,
            hunks[n - 1].after_end as int,
        ));
    }
}

/// How many of the rows are added lines.
pub open spec fn count_added(rows: Seq<diff::Row>) -> nat
    decreases rows.len(),
{
    if rows.len() == 0 {
        0
    } else {
        count_added(rows.drop_last()) + (if rows.last() is Added {
            1nat
        } else {
            0
        })
    }
}

/// How many of the rows are removed lines.
pub open spec fn count_removed(rows: Seq<diff::Row>) -> nat
    decreases rows.len(),
{
    if rows.len() == 0 {
        0
    } else {
        count_removed(rows.drop_last()) + (if rows.last() is Removed {
            1nat
        } else {
            0
        })
    }
}

/// How many lines the first `k` changes add.
pub open spec fn lines_added(hunks: Seq<Hunk>, k: int) -> int
    decreases k,
{
    if k <= 0 {
        0
    } else {
        lines_added(hunks, k - 1) + (hunks[k - 1].after_end - hunks[k - 1].after_start)
    }
}

/// How many lines the first `k` changes remove.
pub open spec fn lines_removed(hunks: Seq<Hunk>, k: int) -> int
    decreases k,
{
    if k <= 0 {
        0
    } else {
        lines_removed(hunks, k - 1) + (hunks[k - 1].before_end - hunks[k - 1].before_start)
    }
}

/// Changes that fit add no more lines than the new file has, and remove no more
/// than the old one has.
pub proof fn lemma_changed_within(hunks: Seq<Hunk>, before: nat, after: nat, k: int)
    requires
        0 <= k <= hunks.len(),
        diff::hunks_fit(hunks, before, after),
    ensures
        0 <= lines_added(hunks, k) <= diff::gap_start(hunks, k).1 <= after,
        0 <= lines_removed(hunks, k) <= diff::gap_start(hunks, k).0 <= before,
    decreases k,
{
    if k > 0 {
        lemma_changed_within(hunks, before, after, k - 1);
        assert(diff::hunk_fits(hunks, k - 1, before, after));
    }
}

proof fn lemma_count_join(a: Seq<diff::Row>, b: Seq<diff::Row>)
    ensures
        count_added(a + b) == count_added(a) + count_added(b),
        count_removed(a + b) == count_removed(a) + count_removed(b),
    decreases b.len(),
{
    if b.len() == 0 {
        assert(a + b =~= a);
    } else {
        lemma_count_join(a, b.drop_last());
        assert((a + b).drop_last() =~= a + b.drop_last());
    }
}

proof fn lemma_count_same(rows: Seq<diff::Row>, added: bool, removed: bool)
    requires
        forall|i: int|
            0 <= i < rows.len() ==> (#[trigger] rows[i] is Added <==> added) && (rows[i] is Removed
                <==> removed),
    ensures
        count_added(rows) == if added {
            rows.len()
        } else {
            0
        },
        count_removed(rows) == if removed {
            rows.len()
        } else {
            0
        },
    decreases rows.len(),
{
    if rows.len() > 0 {
        lemma_count_same(rows.drop_last(), added, removed);
    }
}

proof fn lemma_counts(
    before: Seq<Seq<u8>>,
    after: Seq<Seq<u8>>,
    hunks: Seq<Hunk>,
    k: int,
    context: nat,
)
    requires
        0 <= k <= hunks.len(),
        diff::hunks_fit(hunks, before.len(), after.len()),
    ensures
        count_added(diff::diff_rows(before, after, hunks, k, context)) == lines_added(hunks, k),
        count_removed(diff::diff_rows(before, after, hunks, k, context)) == lines_removed(hunks, k),
    decreases k,
{
    if k > 0 {
        lemma_counts(before, after, hunks, k - 1, context);
        let h = hunks[k - 1];
        assert(diff::hunk_fits(hunks, k - 1, before.len(), after.len()));
        let lead = diff::lead_start(hunks, k - 1, before.len(), context);
        let end = diff::tail_end(hunks, k - 1, before.len(), context);
        let a = diff::context_rows(
            before,
            lead,
            h.before_start as int,
            h.after_start - h.before_start,
        );
        let b = diff::removed_rows(before, h.before_start as int, h.before_end as int);
        let c = diff::added_rows(after, h.after_start as int, h.after_end as int);
        let d = diff::context_rows(before, h.before_end as int, end, h.after_end - h.before_end);
        lemma_count_same(a, false, false);
        lemma_count_same(b, false, true);
        lemma_count_same(c, true, false);
        lemma_count_same(d, false, false);
        lemma_count_join(a, b);
        lemma_count_join(a + b, c);
        lemma_count_join(a + b + c, d);
        lemma_count_join(
            diff::diff_rows(before, after, hunks, k - 1, context),
            diff::hunk_rows(before, after, hunks, k - 1, context),
        );
    }
}

/// Law: a diff shows every added and every removed line once, however much
/// context it shows, so a count taken from the changes and one taken from the
/// rows agree.
pub proof fn law_counts_agree(
    before: Seq<Seq<u8>>,
    after: Seq<Seq<u8>>,
    hunks: Seq<Hunk>,
    context: nat,
)
    requires
        diff::hunks_fit(hunks, before.len(), after.len()),
    ensures
        count_added(diff::all_rows(before, after, hunks, context)) == lines_added(
            hunks,
            hunks.len() as int,
        ),
        count_removed(diff::all_rows(before, after, hunks, context)) == lines_removed(
            hunks,
            hunks.len() as int,
        ),
{
    lemma_counts(before, after, hunks, hunks.len() as int, context);
}

/// Whether a row shows the line it numbers: an unchanged one stands in both
/// files.
pub open spec fn shows_its_line(
    row: diff::Row,
    before: Seq<Seq<u8>>,
    after: Seq<Seq<u8>>,
) -> bool {
    match row {
        diff::Row::Context { old, new, text } => 1 <= old <= before.len() && 1 <= new <= after.len()
            && text == diff::lossy_text(before[old - 1]) && text == diff::lossy_text(
            after[new - 1],
        ),
        diff::Row::Removed { old, text } => 1 <= old <= before.len() && text == diff::lossy_text(
            before[old - 1],
        ),
        diff::Row::Added { new, text } => 1 <= new <= after.len() && text == diff::lossy_text(
            after[new - 1],
        ),
    }
}

proof fn lemma_hunk_shows_its_lines(
    before: Seq<Seq<u8>>,
    after: Seq<Seq<u8>>,
    hunks: Seq<Hunk>,
    k: int,
    context: nat,
    i: int,
)
    requires
        0 <= k < hunks.len(),
        diff::edits(hunks, before, after),
        0 <= i < diff::hunk_rows(before, after, hunks, k, context).len(),
    ensures
        shows_its_line(diff::hunk_rows(before, after, hunks, k, context)[i], before, after),
{
    let h = hunks[k];
    assert(diff::hunk_fits(hunks, k, before.len(), after.len()));
    if k > 0 {
        assert(diff::hunk_fits(hunks, k - 1, before.len(), after.len()));
    }
    if k + 1 < hunks.len() {
        assert(diff::hunk_fits(hunks, k + 1, before.len(), after.len()));
    }
    let lead = diff::lead_start(hunks, k, before.len(), context);
    let end = diff::tail_end(hunks, k, before.len(), context);
    let a = diff::context_rows(before, lead, h.before_start as int, h.after_start - h.before_start);
    let b = diff::removed_rows(before, h.before_start as int, h.before_end as int);
    let c = diff::added_rows(after, h.after_start as int, h.after_end as int);
    if i < a.len() {
        assert(before[lead + i] == after[lead + i - diff::gap_start(hunks, k).0 + diff::gap_start(
            hunks,
            k,
        ).1]);
    } else if i >= a.len() + b.len() + c.len() {
        let j = h.before_end + (i - a.len() - b.len() - c.len());
        assert(before[j] == after[j - diff::gap_start(hunks, k + 1).0 + diff::gap_start(
            hunks,
            k + 1,
        ).1]);
    }
}

proof fn lemma_rows_show_their_lines(
    before: Seq<Seq<u8>>,
    after: Seq<Seq<u8>>,
    hunks: Seq<Hunk>,
    k: int,
    context: nat,
)
    requires
        0 <= k <= hunks.len(),
        diff::edits(hunks, before, after),
    ensures
        forall|i: int|
            0 <= i < diff::diff_rows(before, after, hunks, k, context).len() ==> shows_its_line(
                #[trigger] diff::diff_rows(before, after, hunks, k, context)[i],
                before,
                after,
            ),
    decreases k,
{
    if k > 0 {
        lemma_rows_show_their_lines(before, after, hunks, k - 1, context);
        let a = diff::diff_rows(before, after, hunks, k - 1, context);
        let b = diff::hunk_rows(before, after, hunks, k - 1, context);
        let c = diff::diff_rows(before, after, hunks, k, context);
        assert forall|i: int| 0 <= i < c.len() implies shows_its_line(
            #[trigger] c[i],
            before,
            after,
        ) by {
            if i < a.len() {
                assert(c[i] == a[i]);
            } else {
                assert(c[i] == b[i - a.len()]);
                lemma_hunk_shows_its_lines(
                    before,
                    after,
                    hunks,
                    k - 1,
                    context,
                    i - a.len(),
                );
            }
        }
    }
}

/// Law: a diff tells the truth. Every row shows the line that its numbers name,
/// and an unchanged row shows a line that both files have.
pub proof fn law_rows_show_their_lines(
    before: Seq<Seq<u8>>,
    after: Seq<Seq<u8>>,
    hunks: Seq<Hunk>,
    context: nat,
)
    requires
        diff::edits(hunks, before, after),
    ensures
        forall|i: int|
            0 <= i < diff::all_rows(before, after, hunks, context).len() ==> shows_its_line(
                #[trigger] diff::all_rows(before, after, hunks, context)[i],
                before,
                after,
            ),
{
    lemma_rows_show_their_lines(before, after, hunks, hunks.len() as int, context);
}

proof fn lemma_no_context(
    before: Seq<Seq<u8>>,
    after: Seq<Seq<u8>>,
    hunks: Seq<Hunk>,
    k: int,
)
    requires
        0 <= k <= hunks.len(),
        diff::hunks_fit(hunks, before.len(), after.len()),
    ensures
        forall|i: int|
            0 <= i < diff::diff_rows(before, after, hunks, k, 0).len() ==> !(
            #[trigger] diff::diff_rows(before, after, hunks, k, 0)[i] is Context),
    decreases k,
{
    if k > 0 {
        lemma_no_context(before, after, hunks, k - 1);
        assert(diff::hunk_fits(hunks, k - 1, before.len(), after.len()));
        let a = diff::diff_rows(before, after, hunks, k - 1, 0);
        let b = diff::hunk_rows(before, after, hunks, k - 1, 0);
        let c = diff::diff_rows(before, after, hunks, k, 0);
        assert forall|i: int| 0 <= i < c.len() implies !(#[trigger] c[i] is Context) by {
            if i < a.len() {
                assert(c[i] == a[i]);
            } else {
                assert(c[i] == b[i - a.len()]);
            }
        }
    }
}

/// Law: without context a diff shows changed lines only.
pub proof fn law_no_context_no_unchanged_rows(
    before: Seq<Seq<u8>>,
    after: Seq<Seq<u8>>,
    hunks: Seq<Hunk>,
)
    requires
        diff::hunks_fit(hunks, before.len(), after.len()),
    ensures
        forall|i: int|
            0 <= i < diff::all_rows(before, after, hunks, 0).len() ==> !(#[trigger] diff::all_rows(
                before,
                after,
                hunks,
                0,
            )[i] is Context),
{
    lemma_no_context(before, after, hunks, hunks.len() as int);
}

/// Rows none of which is unchanged are added or removed ones.
pub proof fn lemma_changed_rows(rows: Seq<diff::Row>)
    ensures
        count_added(rows) + count_removed(rows) <= rows.len(),
        (forall|i: int| 0 <= i < rows.len() ==> !(#[trigger] rows[i] is Context)) ==> count_added(
            rows,
        ) + count_removed(rows) == rows.len(),
    decreases rows.len(),
{
    if rows.len() > 0 {
        lemma_changed_rows(rows.drop_last());
        assert(forall|i: int| 0 <= i < rows.len() - 1 ==> rows.drop_last()[i] == rows[i]);
    }
}

} // verus!
