//! Which unchanged lines a diff shows: those near a change, and no others.
use crate::git::diff;
use crate::git::diff::Hunk;
use vstd::prelude::*;

verus! {

/// Where the rows of `hunks[k]` stand among all rows.
proof fn lemma_rows_of(
    before: Seq<Seq<u8>>,
    after: Seq<Seq<u8>>,
    hunks: Seq<Hunk>,
    context: nat,
    n: int,
    k: int,
) -> (at: int)
    requires
        0 <= k < n <= hunks.len(),
    ensures
        ({
            let all = diff::diff_rows(before, after, hunks, n, context);
            let some = diff::hunk_rows(before, after, hunks, k, context);
            0 <= at && at + some.len() <= all.len() && forall|j: int|
                0 <= j < some.len() ==> all[at + j] == #[trigger] some[j]
        }),
    decreases n,
{
    if k == n - 1 {
        diff::diff_rows(before, after, hunks, n - 1, context).len() as int
    } else {
        lemma_rows_of(before, after, hunks, context, n - 1, k)
    }
}

/// Which change a row belongs to.
proof fn lemma_row_of(
    before: Seq<Seq<u8>>,
    after: Seq<Seq<u8>>,
    hunks: Seq<Hunk>,
    context: nat,
    n: int,
    j: int,
) -> (r: (int, int))
    requires
        0 <= n <= hunks.len(),
        0 <= j < diff::diff_rows(before, after, hunks, n, context).len(),
    ensures
        0 <= r.0 < n,
        0 <= r.1 < diff::hunk_rows(before, after, hunks, r.0, context).len(),
        diff::diff_rows(before, after, hunks, n, context)[j] == diff::hunk_rows(
            before,
            after,
            hunks,
            r.0,
            context,
        )[r.1],
    decreases n,
{
    let front = diff::diff_rows(before, after, hunks, n - 1, context);
    if j < front.len() {
        lemma_row_of(before, after, hunks, context, n - 1, j)
    } else {
        (n - 1, j - front.len())
    }
}

/// Stretches of unchanged lines come one behind the other.
proof fn lemma_gaps(hunks: Seq<Hunk>, before: nat, after: nat, j: int, k: int)
    requires
        diff::hunks_fit(hunks, before, after),
        0 <= j < k <= hunks.len(),
    ensures
        diff::gap_end(hunks, j, before) <= diff::gap_start(hunks, k).0,
        diff::gap_start(hunks, j).0 <= diff::gap_end(hunks, j, before),
        diff::gap_start(hunks, k).0 <= diff::gap_end(hunks, k, before),
    decreases k - j,
{
    assert(diff::hunk_fits(hunks, j, before, after));
    assert(diff::hunk_fits(hunks, k - 1, before, after));
    if k < hunks.len() {
        assert(diff::hunk_fits(hunks, k, before, after));
    }
    if j < k - 1 {
        lemma_gaps(hunks, before, after, j, k - 1);
    }
}

/// Whether an unchanged line in the stretch in front of change `k` is near a change:
/// within `context` lines behind the change before it, or in front of the one after.
pub open spec fn near(hunks: Seq<Hunk>, before: nat, context: nat, k: int, i: int) -> bool {
    ||| k > 0 && i < diff::gap_start(hunks, k).0 + context
    ||| k < hunks.len() && i >= diff::gap_end(hunks, k, before) - context
}

/// Law: a diff shows the unchanged lines within so many lines of a change, on either
/// side of it, and no other unchanged line.
pub proof fn law_context_is_what_is_near(
    before: Seq<Seq<u8>>,
    after: Seq<Seq<u8>>,
    hunks: Seq<Hunk>,
    context: nat,
    k: int,
    i: int,
)
    requires
        diff::hunks_fit(hunks, before.len(), after.len()),
        0 <= k <= hunks.len(),
        diff::gap_start(hunks, k).0 <= i < diff::gap_end(hunks, k, before.len()),
    ensures
        near(hunks, before.len(), context, k, i) <==> exists|j: int|
            0 <= j < diff::all_rows(before, after, hunks, context).len() && (
            #[trigger] diff::all_rows(before, after, hunks, context)[j] matches diff::Row::Context {
                old,
                ..
            } && old == i + 1),
{
    let all = diff::all_rows(before, after, hunks, context);
    let n = hunks.len() as int;
    if near(hunks, before.len(), context, k, i) {
        lemma_shown(before, after, hunks, context, k, i);
    }
    if exists|j: int|
        0 <= j < all.len() && (#[trigger] all[j] matches diff::Row::Context { old, .. } && old == i
            + 1) {
        let j = choose|j: int|
            0 <= j < all.len() && (#[trigger] all[j] matches diff::Row::Context { old, .. } && old
                == i + 1);
        let (h, r) = lemma_row_of(before, after, hunks, context, n, j);
        lemma_where(before, after, hunks, context, h, r, i);
        let ahead = diff::gap_start(hunks, h).0 <= i < hunks[h].before_start && i
            >= hunks[h].before_start - context;
        let g = if ahead {
            h
        } else {
            h + 1
        };
        assert(diff::gap_start(hunks, g).0 <= i < diff::gap_end(hunks, g, before.len()));
        if g < k {
            lemma_gaps(hunks, before.len(), after.len(), g, k);
        } else if k < g {
            lemma_gaps(hunks, before.len(), after.len(), k, g);
        }
        assert(g == k);
    }
}

/// Where an unchanged row of a change stands: right in front of it or right behind it.
proof fn lemma_where(
    before: Seq<Seq<u8>>,
    after: Seq<Seq<u8>>,
    hunks: Seq<Hunk>,
    context: nat,
    h: int,
    r: int,
    i: int,
)
    requires
        diff::hunks_fit(hunks, before.len(), after.len()),
        0 <= h < hunks.len(),
        0 <= r < diff::hunk_rows(before, after, hunks, h, context).len(),
        diff::hunk_rows(before, after, hunks, h, context)[r] matches diff::Row::Context { old, .. }
            && old == i + 1,
    ensures
        ({
            ||| diff::gap_start(hunks, h).0 <= i < hunks[h].before_start && i
                >= hunks[h].before_start - context
            ||| hunks[h].before_end <= i < diff::gap_end(hunks, h + 1, before.len()) && i
                < hunks[h].before_end + context
        }),
{
    let x = hunks[h];
    assert(diff::hunk_fits(hunks, h, before.len(), after.len()));
    if h > 0 {
        assert(diff::hunk_fits(hunks, h - 1, before.len(), after.len()));
    }
    if h + 1 < hunks.len() {
        assert(diff::hunk_fits(hunks, h + 1, before.len(), after.len()));
    }
    let lead = diff::lead_start(hunks, h, before.len(), context);
    let end = diff::tail_end(hunks, h, before.len(), context);
    let a = diff::context_rows(before, lead, x.before_start as int, x.after_start - x.before_start);
    let b = diff::removed_rows(before, x.before_start as int, x.before_end as int);
    let c = diff::added_rows(after, x.after_start as int, x.after_end as int);
    let d = diff::context_rows(before, x.before_end as int, end, x.after_end - x.before_end);
    let all = a + b + c + d;
    if r < a.len() {
        assert(all[r] == a[r]);
    } else if r < a.len() + b.len() {
        assert(all[r] == b[r - a.len()]);
    } else if r < a.len() + b.len() + c.len() {
        assert(all[r] == c[r - a.len() - b.len()]);
    } else {
        assert(all[r] == d[r - a.len() - b.len() - c.len()]);
    }
}

proof fn lemma_shown(
    before: Seq<Seq<u8>>,
    after: Seq<Seq<u8>>,
    hunks: Seq<Hunk>,
    context: nat,
    k: int,
    i: int,
)
    requires
        diff::hunks_fit(hunks, before.len(), after.len()),
        0 <= k <= hunks.len(),
        diff::gap_start(hunks, k).0 <= i < diff::gap_end(hunks, k, before.len()),
        near(hunks, before.len(), context, k, i),
    ensures
        exists|j: int|
            0 <= j < diff::all_rows(before, after, hunks, context).len() && (
            #[trigger] diff::all_rows(before, after, hunks, context)[j] matches diff::Row::Context {
                old,
                ..
            } && old == i + 1),
{
    let n = hunks.len() as int;
    let all = diff::all_rows(before, after, hunks, context);
    if k < n {
        assert(diff::hunk_fits(hunks, k, before.len(), after.len()));
    }
    let behind = k > 0 && i < diff::tail_end(hunks, k - 1, before.len(), context);
    if behind {
        let h = k - 1;
        assert(diff::hunk_fits(hunks, h, before.len(), after.len()));
        let x = hunks[h];
        let lead = diff::lead_start(hunks, h, before.len(), context);
        let end = diff::tail_end(hunks, h, before.len(), context);
        let a = diff::context_rows(
            before,
            lead,
            x.before_start as int,
            x.after_start - x.before_start,
        );
        let b = diff::removed_rows(before, x.before_start as int, x.before_end as int);
        let c = diff::added_rows(after, x.after_start as int, x.after_end as int);
        let d = diff::context_rows(before, x.before_end as int, end, x.after_end - x.before_end);
        let some = a + b + c + d;
        let at = lemma_rows_of(before, after, hunks, context, n, h);
        let j = a.len() + b.len() + c.len() + (i - x.before_end);
        assert(some[j] == d[i - x.before_end]);
        assert(all[at + j] == some[j]);
    } else {
        if k > 0 {
            assert(diff::hunk_fits(hunks, k - 1, before.len(), after.len()));
        }
        let x = hunks[k];
        let lead = diff::lead_start(hunks, k, before.len(), context);
        let end = diff::tail_end(hunks, k, before.len(), context);
        let a = diff::context_rows(
            before,
            lead,
            x.before_start as int,
            x.after_start - x.before_start,
        );
        let b = diff::removed_rows(before, x.before_start as int, x.before_end as int);
        let c = diff::added_rows(after, x.after_start as int, x.after_end as int);
        let d = diff::context_rows(before, x.before_end as int, end, x.after_end - x.before_end);
        let some = a + b + c + d;
        let at = lemma_rows_of(before, after, hunks, context, n, k);
        let j = i - lead;
        assert(some[j] == a[j]);
        assert(all[at + j] == some[j]);
    }
}

/// Law: every line that a change removes or adds is shown, whatever the context: the
/// removed ones with their number in the old file, the added ones with their number
/// in the new one.
pub proof fn law_changed_lines_are_shown(
    before: Seq<Seq<u8>>,
    after: Seq<Seq<u8>>,
    hunks: Seq<Hunk>,
    context: nat,
    k: int,
    i: int,
)
    requires
        diff::hunks_fit(hunks, before.len(), after.len()),
        0 <= k < hunks.len(),
    ensures
        hunks[k].before_start <= i < hunks[k].before_end ==> exists|j: int|
            0 <= j < diff::all_rows(before, after, hunks, context).len() && (
            #[trigger] diff::all_rows(before, after, hunks, context)[j] matches diff::Row::Removed {
                old,
                ..
            } && old == i + 1),
        hunks[k].after_start <= i < hunks[k].after_end ==> exists|j: int|
            0 <= j < diff::all_rows(before, after, hunks, context).len() && (
            #[trigger] diff::all_rows(before, after, hunks, context)[j] matches diff::Row::Added {
                new,
                ..
            } && new == i + 1),
{
    let n = hunks.len() as int;
    let all = diff::all_rows(before, after, hunks, context);
    assert(diff::hunk_fits(hunks, k, before.len(), after.len()));
    let x = hunks[k];
    let lead = diff::lead_start(hunks, k, before.len(), context);
    let end = diff::tail_end(hunks, k, before.len(), context);
    let a = diff::context_rows(before, lead, x.before_start as int, x.after_start - x.before_start);
    let b = diff::removed_rows(before, x.before_start as int, x.before_end as int);
    let c = diff::added_rows(after, x.after_start as int, x.after_end as int);
    let d = diff::context_rows(before, x.before_end as int, end, x.after_end - x.before_end);
    let some = a + b + c + d;
    let at = lemma_rows_of(before, after, hunks, context, n, k);
    if x.before_start <= i < x.before_end {
        let j = a.len() + (i - x.before_start);
        assert(some[j] == b[i - x.before_start]);
        assert(all[at + j] == some[j]);
    }
    if x.after_start <= i < x.after_end {
        let j = a.len() + b.len() + (i - x.after_start);
        assert(some[j] == c[i - x.after_start]);
        assert(all[at + j] == some[j]);
    }
}

/// Law: a diff longer than there is room for is shown from its beginning and says
/// that it was cut; a shorter one is shown whole.
pub proof fn law_long_diffs_are_cut(rows: Seq<diff::Row>, i: int)
    ensures
        diff::kept_rows(rows).len() == (if rows.len() <= 20_000 {
            rows.len() as int
        } else {
            20_000
        }),
        0 <= i < diff::kept_rows(rows).len() ==> diff::kept_rows(rows)[i] == rows[i],
{
}

} // verus!
