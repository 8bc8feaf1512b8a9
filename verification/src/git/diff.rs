//! What a commit changed: which files, and by how many lines.
use crate::geometry;
use crate::git::working::WorktreeStage;
use gix::diff::blob::platform::resource::ByteLinesWithoutTerminator;
use gix::diff::blob::{diff_with_slider_heuristics, InternedInput};
use vstd::prelude::*;

verus! {

/// How a file entered a diff.
#[derive(Debug, Clone, PartialEq, Eq)]
pub enum FileChange {
    Added,
    Modified,
    Deleted,
    /// A rewrite; `from` is the path it came from.
    Renamed { from: String },
}

/// One row of the changed-files pane.
#[derive(Debug, Clone, PartialEq, Eq)]
pub struct FileStat {
    pub path: String,
    /// Where the change sits, for one that is not committed.
    pub stage: Option<WorktreeStage>,
    pub change: FileChange,
    /// Lines added. Always 0 for a binary file.
    pub insertions: u32,
    /// Lines removed. Always 0 for a binary file.
    pub removals: u32,
    /// True when the content could not be diffed as text.
    pub binary: bool,
    /// Why this file could not be read, when it could not be.
    pub unreadable: Option<String>,
}

/// Everything the detail and file panes need for one commit.
#[derive(Debug, Clone, PartialEq, Eq)]
pub struct CommitDiff {
    pub files: Vec<FileStat>,
    /// Totals across every text file, for the "N files changed" header.
    pub insertions: u32,
    pub removals: u32,
}

impl Default for CommitDiff {
    fn default() -> (r: Self)
        ensures
            r.files@ == Seq::<FileStat>::empty(),
            r.insertions == 0,
            r.removals == 0,
    {
        CommitDiff { files: Vec::new(), insertions: 0, removals: 0 }
    }
}

/// One rendered row of a file diff. Line numbers are 1-based, and are the
/// numbers in the real files rather than hunk offsets.
#[derive(Debug, Clone, PartialEq, Eq)]
pub enum DiffLine {
    Context { old: u32, new: u32, text: String },
    Added { new: u32, text: String },
    Removed { old: u32, text: String },
}

/// One file's diff, ready to paint.
#[derive(Debug, Clone, PartialEq, Eq)]
pub struct FileDiff {
    pub path: String,
    pub lines: Vec<DiffLine>,
    /// The content could not be diffed as text; `lines` is empty.
    pub binary: bool,
    /// The diff was longer than `MAX_DIFF_LINES` and was cut short.
    pub truncated: bool,
}

/// A single file's diff is bounded so one enormous generated file cannot make
/// the pane's own state unbounded.
pub const MAX_DIFF_LINES: usize = 20_000;

impl FileDiff {
    /// A diff of a blob that cannot be read as text.
    pub fn binary(path: &str) -> (r: Self)
        ensures
            r.path@ == path@,
            r.lines@ == Seq::<DiffLine>::empty(),
            r.binary,
            !r.truncated,
    {
        FileDiff { path: path.to_owned(), lines: Vec::new(), binary: true, truncated: false }
    }
}

/// Which way of matching lines a diff uses.
#[derive(Debug, Clone, Copy, PartialEq, Eq, Structural)]
pub enum Algorithm {
    Histogram,
    Myers,
    MyersMinimal,
}

/// One change: the lines `before_start..before_end` of the old file were
/// replaced by the lines `after_start..after_end` of the new one.
#[derive(Debug, Clone, Copy, PartialEq, Eq, Structural)]
pub struct Hunk {
    pub before_start: u32,
    pub before_end: u32,
    pub after_start: u32,
    pub after_end: u32,
}

/// Where the unchanged lines in front of `hunks[k]` begin, in each file.
pub open spec fn gap_start(hunks: Seq<Hunk>, k: int) -> (int, int) {
    if k == 0 {
        (0, 0)
    } else {
        (hunks[k - 1].before_end as int, hunks[k - 1].after_end as int)
    }
}

/// Whether `hunks[k]` changes something in files of `before` and `after` lines,
/// with an unchanged line between it and the change before, and the same number
/// of unchanged lines in front of it in both files.
pub open spec fn hunk_fits(hunks: Seq<Hunk>, k: int, before: nat, after: nat) -> bool {
    let h = hunks[k];
    let (b, a) = gap_start(hunks, k);
    &&& h.before_start <= h.before_end <= before
    &&& h.after_start <= h.after_end <= after
    &&& h.before_start < h.before_end || h.after_start < h.after_end
    &&& b <= h.before_start
    &&& k > 0 ==> b < h.before_start
    &&& h.before_start - b == h.after_start - a
}

/// Whether `hunks` are the changes between files of `before` and `after` lines,
/// in order, with as many unchanged lines behind the last in both files.
pub open spec fn hunks_fit(hunks: Seq<Hunk>, before: nat, after: nat) -> bool {
    &&& forall|k: int| 0 <= k < hunks.len() ==> #[trigger] hunk_fits(hunks, k, before, after)
    &&& before - gap_start(hunks, hunks.len() as int).0 == after - gap_start(
        hunks,
        hunks.len() as int,
    ).1
}

/// Where the unchanged lines in front of `hunks[k]` end in the old file; behind
/// the last change they run to the end.
pub open spec fn gap_end(hunks: Seq<Hunk>, k: int, before: nat) -> int {
    if k < hunks.len() {
        hunks[k].before_start as int
    } else {
        before as int
    }
}

/// Whether replacing the old lines of every hunk by its new ones turns `before`
/// into `after`: the hunks fit, and between them the lines are the same.
pub open spec fn edits(hunks: Seq<Hunk>, before: Seq<Seq<u8>>, after: Seq<Seq<u8>>) -> bool {
    &&& hunks_fit(hunks, before.len(), after.len())
    &&& forall|k: int, i: int|
        0 <= k <= hunks.len() && gap_start(hunks, k).0 <= i < gap_end(hunks, k, before.len())
            ==> #[trigger] before[i] == after[i - #[trigger] gap_start(hunks, k).0 + gap_start(
            hunks,
            k,
        ).1]
}

/// The text a byte string stands for, with what is not UTF-8 replaced.
pub uninterp spec fn lossy_text(bytes: Seq<u8>) -> Seq<char>;

/// `String::from_utf8_lossy` from the standard library, named `lossy_text`;
/// UTF-8 it leaves as it is.
#[verifier::external_body]
fn lossy(bytes: &Vec<u8>) -> (r: String)
    ensures
        r@ == lossy_text(bytes@),
        vstd::utf8::valid_utf8(bytes@) ==> r@ == vstd::utf8::decode_utf8(bytes@),
{
    String::from_utf8_lossy(bytes).into_owned()
}

/// The most lines a file may have for its lines to be matched.
pub const MAX_LINES: usize = 0x7fff_fffe;

/// Whether a byte string has few enough lines for them to be matched.
pub open spec fn can_match(b: Seq<u8>) -> bool {
    byte_lines(b).len() <= MAX_LINES
}

/// The changes between the lines of two byte strings.
pub uninterp spec fn line_changes(
    algorithm: Algorithm,
    before: Seq<u8>,
    after: Seq<u8>,
) -> Seq<Hunk>;

/// `diff_with_slider_heuristics` over `InternedInput::new` on the lines of both
/// byte strings, and `Diff::hunks`. Named `line_changes`; the hunks turn the old
/// lines into the new ones. A file of 2^31 lines or more makes it panic.
#[verifier::external_body]
pub(crate) fn changed_lines(algorithm: Algorithm, before: &Vec<u8>, after: &Vec<u8>) -> (r: Vec<Hunk>)
    requires
        can_match(before@),
        can_match(after@),
    ensures
        r@ == line_changes(algorithm, before@, after@),
        edits(r@, byte_lines(before@), byte_lines(after@)),
{
    let algorithm = match algorithm {
        Algorithm::Histogram => gix::diff::blob::Algorithm::Histogram,
        Algorithm::Myers => gix::diff::blob::Algorithm::Myers,
        Algorithm::MyersMinimal => gix::diff::blob::Algorithm::MyersMinimal,
    };
    let (old, new) = (ByteLinesWithoutTerminator::new(before), ByteLinesWithoutTerminator::new(after));
    let diff = diff_with_slider_heuristics(algorithm, &InternedInput::new(old, new));
    let hunk = |h: gix::diff::blob::Hunk| Hunk {
        before_start: h.before.start,
        before_end: h.before.end,
        after_start: h.after.start,
        after_end: h.after.end,
    };
    diff.hunks().map(hunk).collect()
}

/// A line without the carriage return at its end.
pub open spec fn without_cr(line: Seq<u8>) -> Seq<u8> {
    if line.len() > 0 && line.last() == 13 {
        line.drop_last()
    } else {
        line
    }
}

/// The lines of a byte string, each without its LF or CRLF. Bytes after the
/// last LF are a line of their own.
pub open spec fn byte_lines(b: Seq<u8>) -> Seq<Seq<u8>>
    decreases b.len(),
{
    match b.index_of_first(10u8) {
        Some(e) if 0 <= e < b.len() => seq![without_cr(b.take(e))] + byte_lines(b.skip(e + 1)),
        _ => if b.len() == 0 {
            Seq::empty()
        } else {
            seq![b]
        },
    }
}

/// A string of bytes has no more lines than bytes.
pub proof fn lemma_byte_lines_len(b: Seq<u8>)
    ensures
        byte_lines(b).len() <= b.len(),
    decreases b.len(),
{
    match b.index_of_first(10u8) {
        Some(e) if 0 <= e < b.len() => {
            lemma_byte_lines_len(b.skip(e + 1));
        },
        _ => {},
    }
}

/// Every line's bytes.
pub open spec fn bytes_view(lines: Seq<Vec<u8>>) -> Seq<Seq<u8>> {
    lines.map_values(|l: Vec<u8>| l@)
}

fn copy_bytes(b: &Vec<u8>, from: usize, to: usize) -> (r: Vec<u8>)
    requires
        from <= to <= b.len(),
    ensures
        r@ == b@.subrange(from as int, to as int),
{
    let mut out: Vec<u8> = Vec::new();
    let mut i: usize = from;
    while i < to
        invariant
            from <= i <= to <= b.len(),
            out@ == b@.subrange(from as int, i as int),
        decreases to - i,
    {
        out.push(b[i]);
        i += 1;
        assert(out@ =~= b@.subrange(from as int, i as int));
    }
    out
}

/// Whether a byte string has few enough lines for them to be matched.
pub fn is_matchable(b: &Vec<u8>) -> (r: bool)
    ensures
        r == can_match(b@),
{
    proof {
        lemma_byte_lines_len(b@);
    }
    if b.len() <= MAX_LINES {
        return true;
    }
    let lines = split_lines(b);
    assert(bytes_view(lines@).len() == lines@.len());
    lines.len() <= MAX_LINES
}

/// The lines of `b`.
pub fn split_lines(b: &Vec<u8>) -> (r: Vec<Vec<u8>>)
    ensures
        bytes_view(r@) == byte_lines(b@),
{
    let mut out: Vec<Vec<u8>> = Vec::new();
    let mut start: usize = 0;
    proof {
        assert(b@.skip(0) =~= b@);
        assert(bytes_view(out@) + byte_lines(b@) =~= byte_lines(b@));
    }
    while start < b.len()
        invariant
            start <= b.len(),
            bytes_view(out@) + byte_lines(b@.skip(start as int)) == byte_lines(b@),
        decreases b.len() - start,
    {
        let ghost rest = b@.skip(start as int);
        let mut end: usize = start;
        while end < b.len() && b[end] != 10
            invariant
                start <= end <= b.len(),
                forall|k: int| start <= k < end ==> b@[k] != 10,
            decreases b.len() - end,
        {
            end += 1;
        }
        proof {
            rest.index_of_first_ensures(10u8);
            if end < b.len() {
                assert(rest[end - start] == 10);
                assert(rest.contains(10u8));
                let e = rest.index_of_first(10u8)->0;
                assert(b@[start + e] == 10);
                assert(e == end - start) by {
                    if e < end - start {
                        assert(b@[start + e] != 10);
                    }
                }
                assert(rest.take(e) =~= b@.subrange(start as int, end as int));
                assert(rest.skip(e + 1) =~= b@.skip(end + 1));
            } else {
                assert(!rest.contains(10u8));
                assert(rest =~= b@.subrange(start as int, end as int));
            }
        }
        let ghost had = out@;
        let ghost line;
        if end < b.len() && end > start && b[end - 1] == 13 {
            out.push(copy_bytes(b, start, end - 1));
            proof {
                line = b@.subrange(start as int, end - 1);
                let full = b@.subrange(start as int, end as int);
                assert(full.last() == b@[end - 1]);
                assert(full.drop_last() =~= line);
            }
        } else {
            out.push(copy_bytes(b, start, end));
            proof {
                line = b@.subrange(start as int, end as int);
                if end > start {
                    assert(line.last() == b@[end - 1]);
                }
            }
        }
        proof {
            assert(bytes_view(out@) =~= bytes_view(had).push(line));
            let tail = if end < b.len() {
                byte_lines(b@.skip(end + 1))
            } else {
                Seq::empty()
            };
            assert(byte_lines(rest) =~= seq![line] + tail);
            assert(bytes_view(out@) + tail =~= bytes_view(had) + byte_lines(rest));
            if end >= b.len() {
                assert(b@.skip(b@.len() as int) =~= Seq::empty());
                Seq::<u8>::empty().index_of_first_ensures(10u8);
                assert(byte_lines(b@.skip(b@.len() as int)) =~= tail);
            }
        }
        start = if end < b.len() {
            end + 1
        } else {
            end
        };
    }
    proof {
        assert(b@.skip(start as int) =~= Seq::empty());
        Seq::<u8>::empty().index_of_first_ensures(10u8);
        assert(byte_lines(b@.skip(start as int)) =~= Seq::<Seq<u8>>::empty());
        assert(bytes_view(out@) + Seq::<Seq<u8>>::empty() =~= bytes_view(out@));
    }
    out
}

/// One row of a diff, by the text it shows.
pub enum Row {
    Context { old: int, new: int, text: Seq<char> },
    Added { new: int, text: Seq<char> },
    Removed { old: int, text: Seq<char> },
}

/// A diff line as a row.
pub open spec fn row_of(line: DiffLine) -> Row {
    match line {
        DiffLine::Context { old, new, text } => Row::Context {
            old: old as int,
            new: new as int,
            text: text@,
        },
        DiffLine::Added { new, text } => Row::Added { new: new as int, text: text@ },
        DiffLine::Removed { old, text } => Row::Removed { old: old as int, text: text@ },
    }
}

/// Every diff line as a row.
pub open spec fn rows_of(lines: Seq<DiffLine>) -> Seq<Row> {
    lines.map_values(|l: DiffLine| row_of(l))
}

/// The old lines `from..to` as unchanged rows; the new file numbers them
/// `shift` higher.
pub open spec fn context_rows(before: Seq<Seq<u8>>, from: int, to: int, shift: int) -> Seq<Row> {
    Seq::new(
        geometry::most(to - from, 0) as nat,
        |i: int|
            Row::Context {
                old: from + i + 1,
                new: from + i + shift + 1,
                text: lossy_text(before[from + i]),
            },
    )
}

/// The old lines `from..to` as removed rows.
pub open spec fn removed_rows(before: Seq<Seq<u8>>, from: int, to: int) -> Seq<Row> {
    Seq::new(
        geometry::most(to - from, 0) as nat,
        |i: int| Row::Removed { old: from + i + 1, text: lossy_text(before[from + i]) },
    )
}

/// The new lines `from..to` as added rows.
pub open spec fn added_rows(after: Seq<Seq<u8>>, from: int, to: int) -> Seq<Row> {
    Seq::new(
        geometry::most(to - from, 0) as nat,
        |i: int| Row::Added { new: from + i + 1, text: lossy_text(after[from + i]) },
    )
}

/// Where the unchanged lines shown behind `hunks[k]` end: `context` lines on,
/// and no further than the next change or the end of the file.
pub open spec fn tail_end(hunks: Seq<Hunk>, k: int, before: nat, context: nat) -> int {
    let end = geometry::least(hunks[k].before_end + context, before as int);
    if k + 1 < hunks.len() {
        geometry::least(end, hunks[k + 1].before_start as int)
    } else {
        end
    }
}

/// Where the unchanged lines shown in front of `hunks[k]` begin: `context`
/// lines back, and no further than what the change before it showed.
pub open spec fn lead_start(hunks: Seq<Hunk>, k: int, before: nat, context: nat) -> int {
    geometry::most(
        geometry::most(hunks[k].before_start - context, 0),
        if k == 0 {
            0
        } else {
            tail_end(hunks, k - 1, before, context)
        },
    )
}

/// The rows of one change, with the unchanged lines around it.
pub open spec fn hunk_rows(
    before: Seq<Seq<u8>>,
    after: Seq<Seq<u8>>,
    hunks: Seq<Hunk>,
    k: int,
    context: nat,
) -> Seq<Row> {
    let h = hunks[k];
    context_rows(
        before,
        lead_start(hunks, k, before.len(), context),
        h.before_start as int,
        h.after_start - h.before_start,
    ) + removed_rows(before, h.before_start as int, h.before_end as int) + added_rows(
        after,
        h.after_start as int,
        h.after_end as int,
    ) + context_rows(
        before,
        h.before_end as int,
        tail_end(hunks, k, before.len(), context),
        h.after_end - h.before_end,
    )
}

/// The rows of the first `k` changes.
pub open spec fn diff_rows(
    before: Seq<Seq<u8>>,
    after: Seq<Seq<u8>>,
    hunks: Seq<Hunk>,
    k: int,
    context: nat,
) -> Seq<Row>
    decreases k,
{
    if k <= 0 {
        Seq::empty()
    } else {
        diff_rows(before, after, hunks, k - 1, context) + hunk_rows(
            before,
            after,
            hunks,
            k - 1,
            context,
        )
    }
}

/// Every row of a diff.
pub open spec fn all_rows(
    before: Seq<Seq<u8>>,
    after: Seq<Seq<u8>>,
    hunks: Seq<Hunk>,
    context: nat,
) -> Seq<Row> {
    diff_rows(before, after, hunks, hunks.len() as int, context)
}

/// The rows that are kept of a diff.
pub open spec fn kept_rows(rows: Seq<Row>) -> Seq<Row> {
    rows.take(geometry::least(rows.len() as int, MAX_DIFF_LINES as int))
}

/// Later changes only add rows, and each adds at least one.
proof fn lemma_diff_rows_grow(
    before: Seq<Seq<u8>>,
    after: Seq<Seq<u8>>,
    hunks: Seq<Hunk>,
    j: int,
    k: int,
    context: nat,
)
    requires
        0 <= j <= k <= hunks.len(),
        hunks_fit(hunks, before.len(), after.len()),
    ensures
        diff_rows(before, after, hunks, j, context).len() + (k - j) <= diff_rows(
            before,
            after,
            hunks,
            k,
            context,
        ).len(),
        diff_rows(before, after, hunks, k, context).take(
            diff_rows(before, after, hunks, j, context).len() as int,
        ) == diff_rows(before, after, hunks, j, context),
    decreases k - j,
{
    let a = diff_rows(before, after, hunks, j, context);
    if j < k {
        lemma_diff_rows_grow(before, after, hunks, j, k - 1, context);
        let b = diff_rows(before, after, hunks, k - 1, context);
        let c = diff_rows(before, after, hunks, k, context);
        assert(hunk_fits(hunks, k - 1, before.len(), after.len()));
        assert(hunk_rows(before, after, hunks, k - 1, context).len() >= 1);
        assert(c.take(a.len() as int) =~= b.take(a.len() as int));
    } else {
        assert(a.take(a.len() as int) =~= a);
    }
}

/// Appends the old lines `from..to` as unchanged rows.
fn push_context(
    lines: &mut Vec<DiffLine>,
    before: &Vec<Vec<u8>>,
    from: u32,
    to: u32,
    new_from: u32,
)
    requires
        to <= before.len(),
        from <= to ==> new_from + (to - from) <= u32::MAX,
    ensures
        rows_of(final(lines)@) == rows_of(old(lines)@) + context_rows(
            bytes_view(before@),
            from as int,
            to as int,
            new_from - from,
        ),
{
    let ghost start = rows_of(lines@);
    let ghost want = context_rows(bytes_view(before@), from as int, to as int, new_from - from);
    let mut i: u32 = from;
    assert(start + want.take(0) =~= start);
    while i < to
        invariant
            from <= i,
            i <= to || i == from,
            to <= before.len(),
            from <= to ==> new_from + (to - from) <= u32::MAX,
            want == context_rows(bytes_view(before@), from as int, to as int, new_from - from),
            rows_of(lines@) == start + want.take(i - from),
        decreases to - i,
    {
        let ghost had = lines@;
        lines.push(
            DiffLine::Context {
                old: i + 1,
                new: new_from + (i - from) + 1,
                text: lossy(&before[i as usize]),
            },
        );
        proof {
            assert(bytes_view(before@)[i as int] == before@[i as int]@);
            assert(rows_of(lines@) =~= rows_of(had).push(row_of(lines@.last())));
            assert(want.take(i + 1 - from) =~= want.take(i - from).push(want[i - from]));
            assert(rows_of(lines@) =~= start + want.take(i + 1 - from));
        }
        i += 1;
    }
    assert(want.take(i - from) =~= want);
}

/// Appends the old lines `from..to` as removed rows.
fn push_removed(lines: &mut Vec<DiffLine>, before: &Vec<Vec<u8>>, from: u32, to: u32)
    requires
        to <= before.len(),
    ensures
        rows_of(final(lines)@) == rows_of(old(lines)@) + removed_rows(
            bytes_view(before@),
            from as int,
            to as int,
        ),
{
    let ghost start = rows_of(lines@);
    let ghost want = removed_rows(bytes_view(before@), from as int, to as int);
    let mut i: u32 = from;
    assert(start + want.take(0) =~= start);
    while i < to
        invariant
            from <= i,
            i <= to || i == from,
            to <= before.len(),
            want == removed_rows(bytes_view(before@), from as int, to as int),
            rows_of(lines@) == start + want.take(i - from),
        decreases to - i,
    {
        let ghost had = lines@;
        lines.push(DiffLine::Removed { old: i + 1, text: lossy(&before[i as usize]) });
        proof {
            assert(bytes_view(before@)[i as int] == before@[i as int]@);
            assert(rows_of(lines@) =~= rows_of(had).push(row_of(lines@.last())));
            assert(want.take(i + 1 - from) =~= want.take(i - from).push(want[i - from]));
            assert(rows_of(lines@) =~= start + want.take(i + 1 - from));
        }
        i += 1;
    }
    assert(want.take(i - from) =~= want);
}

/// Appends the new lines `from..to` as added rows.
fn push_added(lines: &mut Vec<DiffLine>, after: &Vec<Vec<u8>>, from: u32, to: u32)
    requires
        to <= after.len(),
    ensures
        rows_of(final(lines)@) == rows_of(old(lines)@) + added_rows(
            bytes_view(after@),
            from as int,
            to as int,
        ),
{
    let ghost start = rows_of(lines@);
    let ghost want = added_rows(bytes_view(after@), from as int, to as int);
    let mut i: u32 = from;
    assert(start + want.take(0) =~= start);
    while i < to
        invariant
            from <= i,
            i <= to || i == from,
            to <= after.len(),
            want == added_rows(bytes_view(after@), from as int, to as int),
            rows_of(lines@) == start + want.take(i - from),
        decreases to - i,
    {
        let ghost had = lines@;
        lines.push(DiffLine::Added { new: i + 1, text: lossy(&after[i as usize]) });
        proof {
            assert(bytes_view(after@)[i as int] == after@[i as int]@);
            assert(rows_of(lines@) =~= rows_of(had).push(row_of(lines@.last())));
            assert(want.take(i + 1 - from) =~= want.take(i - from).push(want[i - from]));
            assert(rows_of(lines@) =~= start + want.take(i + 1 - from));
        }
        i += 1;
    }
    assert(want.take(i - from) =~= want);
}

proof fn lemma_join(s: Seq<Row>, a: Seq<Row>, b: Seq<Row>, c: Seq<Row>, d: Seq<Row>)
    ensures
        s + a + b + c + d == s + (a + b + c + d),
{
    assert(s + a + b + c + d =~= s + (a + b + c + d));
}

/// Appends the rows of `hunks[k]`. `shown` is where the unchanged lines behind
/// the change before it ended; returns where its own end.
fn push_hunk(
    lines: &mut Vec<DiffLine>,
    before: &Vec<Vec<u8>>,
    after: &Vec<Vec<u8>>,
    hunks: &Vec<Hunk>,
    k: usize,
    context: u32,
    shown: u32,
) -> (r: u32)
    requires
        k < hunks.len(),
        hunks_fit(hunks@, before@.len(), after@.len()),
        before@.len() <= u32::MAX,
        after@.len() <= u32::MAX,
        shown == (if k == 0 {
            0
        } else {
            tail_end(hunks@, k - 1, before@.len(), context as nat)
        }),
    ensures
        rows_of(final(lines)@) == rows_of(old(lines)@) + hunk_rows(
            bytes_view(before@),
            bytes_view(after@),
            hunks@,
            k as int,
            context as nat,
        ),
        r == tail_end(hunks@, k as int, before@.len(), context as nat),
{
    let h = hunks[k];
    let total: u32 = before.len() as u32;
    proof {
        assert(hunk_fits(hunks@, k as int, before@.len(), after@.len()));
        lemma_tail(hunks@, k as int, before@.len(), after@.len(), context as nat);
        if k > 0 {
            lemma_tail(hunks@, k - 1, before@.len(), after@.len(), context as nat);
        }
    }
    let back: u32 = h.before_start.saturating_sub(context);
    let lead: u32 = if back > shown {
        back
    } else {
        shown
    };
    let ghost start = rows_of(lines@);
    assert(lead <= h.before_start);
    let new_lead: u32 = h.after_start - (h.before_start - lead);
    let ghost b = bytes_view(before@);
    let ghost a = bytes_view(after@);
    let ghost shift = h.after_start - h.before_start;
    assert(new_lead - lead == shift);
    push_context(lines, before, lead, h.before_start, new_lead);
    push_removed(lines, before, h.before_start, h.before_end);
    push_added(lines, after, h.after_start, h.after_end);
    let mut end: u32 = h.before_end.saturating_add(context);
    if end > total {
        end = total;
    }
    if k + 1 < hunks.len() && hunks[k + 1].before_start < end {
        end = hunks[k + 1].before_start;
    }
    push_context(lines, before, h.before_end, end, h.after_end);
    proof {
        assert(b.len() == before@.len());
        lemma_join(
            start,
            context_rows(b, lead as int, h.before_start as int, shift),
            removed_rows(b, h.before_start as int, h.before_end as int),
            added_rows(a, h.after_start as int, h.after_end as int),
            context_rows(b, h.before_end as int, end as int, h.after_end - h.before_end),
        );
    }
    end
}

/// Turns hunks and the lines of both files into numbered rows with `context`
/// unchanged lines around each change, at most `MAX_DIFF_LINES` of them.
pub fn assemble(
    path: &str,
    before: &Vec<Vec<u8>>,
    after: &Vec<Vec<u8>>,
    hunks: &Vec<Hunk>,
    context: u32,
) -> (r: FileDiff)
    requires
        hunks_fit(hunks@, before@.len(), after@.len()),
        before@.len() <= u32::MAX,
        after@.len() <= u32::MAX,
    ensures
        r.path@ == path@,
        !r.binary,
        ({
            let rows = all_rows(bytes_view(before@), bytes_view(after@), hunks@, context as nat);
            &&& rows_of(r.lines@) == kept_rows(rows)
            &&& r.truncated == (rows.len() > MAX_DIFF_LINES)
        }),
{
    let mut lines: Vec<DiffLine> = Vec::new();
    let mut truncated = false;
    let ghost b = bytes_view(before@);
    let ghost a = bytes_view(after@);
    let ghost full = all_rows(b, a, hunks@, context as nat);
    let mut shown: u32 = 0;
    let mut k: usize = 0;
    assert(rows_of(lines@) =~= diff_rows(b, a, hunks@, 0, context as nat));
    while k < hunks.len() && !truncated
        invariant
            k <= hunks.len(),
            hunks_fit(hunks@, before@.len(), after@.len()),
            before@.len() <= u32::MAX,
            after@.len() <= u32::MAX,
            b == bytes_view(before@),
            a == bytes_view(after@),
            full == all_rows(b, a, hunks@, context as nat),
            rows_of(lines@) == diff_rows(b, a, hunks@, k as int, context as nat),
            shown == (if k == 0 {
                0
            } else {
                tail_end(hunks@, k - 1, before@.len(), context as nat)
            }),
            truncated ==> k < hunks.len() && lines@.len() >= MAX_DIFF_LINES,
        decreases
            hunks.len() - k,
            if truncated {
                0int
            } else {
                1int
            },
    {
        if lines.len() >= MAX_DIFF_LINES {
            truncated = true;
        } else {
            shown = push_hunk(&mut lines, before, after, hunks, k, context, shown);
            k += 1;
        }
    }
    proof {
        lemma_diff_rows_grow(b, a, hunks@, k as int, hunks@.len() as int, context as nat);
    }
    let ghost whole = lines@;
    if lines.len() > MAX_DIFF_LINES {
        lines.truncate(MAX_DIFF_LINES);
        truncated = true;
    }
    proof {
        assert(rows_of(lines@) =~= rows_of(whole).take(lines@.len() as int));
        assert(rows_of(whole) == full.take(whole.len() as int));
        assert(rows_of(lines@) =~= kept_rows(full));
    }
    FileDiff { path: path.to_owned(), lines, binary: false, truncated }
}

/// The unchanged lines behind a change are unchanged in both files, so the new
/// file has as many left.
proof fn lemma_tail(hunks: Seq<Hunk>, k: int, before: nat, after: nat, context: nat)
    requires
        0 <= k < hunks.len(),
        hunks_fit(hunks, before, after),
    ensures
        hunks[k].before_end <= tail_end(hunks, k, before, context) <= before,
        hunks[k].after_end + (tail_end(hunks, k, before, context) - hunks[k].before_end) <= after,
{
    assert(hunk_fits(hunks, k, before, after));
    if k + 1 < hunks.len() {
        assert(hunk_fits(hunks, k + 1, before, after));
    }
}

/// Law: a file's lines are the bytes between its line feeds, each without a carriage
/// return at its end; the bytes behind the last line feed are a line if there are any.
pub proof fn law_lines_of_a_file(line: Seq<u8>, rest: Seq<u8>)
    requires
        !line.contains(10u8),
        line.len() > 0 ==> line.last() != 13,
    ensures
        byte_lines(line + seq![10u8] + rest) == seq![line] + byte_lines(rest),
        byte_lines(line + seq![13u8, 10u8] + rest) == seq![line] + byte_lines(rest),
        line.len() > 0 ==> byte_lines(line) == seq![line],
        byte_lines(Seq::empty()).len() == 0,
{
    let one = line + seq![10u8] + rest;
    let two = line + seq![13u8, 10u8] + rest;
    let n = line.len() as int;
    one.index_of_first_ensures(10u8);
    two.index_of_first_ensures(10u8);
    line.index_of_first_ensures(10u8);
    Seq::<u8>::empty().index_of_first_ensures(10u8);
    assert(one[n] == 10u8);
    assert(two[n + 1] == 10u8);
    assert(one.contains(10u8));
    assert(two.contains(10u8));
    assert forall|i: int| 0 <= i < n implies #[trigger] one[i] != 10u8 && two[i] != 10u8 by {
        assert(line[i] == one[i]);
        assert(line.contains(line[i]));
    }
    assert(two[n] == 13u8);
    let a = one.index_of_first(10u8)->0;
    let b = two.index_of_first(10u8)->0;
    assert(a == n);
    assert(b == n + 1);
    assert(one.take(a) =~= line);
    assert(one.skip(a + 1) =~= rest);
    assert(two.take(b) =~= line.push(13u8));
    assert(line.push(13u8).drop_last() =~= line);
    assert(two.skip(b + 1) =~= rest);
}

} // verus!
