//! What is made of a repository's answers: how opening one ends, which refs and
//! changed files are listed, and what one file's diff shows.
use crate::git::commit::{ObjectId, ReadError};
use crate::git::diff;
use crate::git::diff::{assemble, Algorithm, CommitDiff, FileChange, FileDiff, FileStat};
use crate::git::numbering;
use crate::git::order;
use crate::git::refs::{RefInfo, RefKind};
use crate::git::working;
use crate::git::working::StatusEntry;
use crate::text;
use vstd::prelude::*;

verus! {

/// Why a path could not be shown as a graph. Each variant is a different thing
/// to tell the user.
#[derive(Debug)]
pub enum OpenError {
    NotARepository { path: String },
    /// A repository was found but has no working tree (a bare repo, or one
    /// whose worktree is gone).
    NoWorkTree { path: String },
    Io { path: String, source: String },
}

impl OpenError {
    /// What the user is told.
    pub fn message(&self) -> (r: String)
        ensures
            r@ == match *self {
                OpenError::NotARepository { path } => path@ + " is not a git repository"@,
                OpenError::NoWorkTree { path } => path@ + " has no working tree"@,
                OpenError::Io { path, source } => "opening "@ + path@ + (": "@ + source@),
            },
    {
        match self {
            OpenError::NotARepository { path } => text::join2(
                path.as_str(),
                " is not a git repository",
            ),
            OpenError::NoWorkTree { path } => text::join2(path.as_str(), " has no working tree"),
            OpenError::Io { path, source } => {
                let tail = text::join2(": ", source.as_str());
                text::join3("opening ", path.as_str(), tail.as_str())
            },
        }
    }
}

/// What a search for the repository around a path found.
#[derive(Debug)]
pub enum Discovery {
    /// No repository.
    Nothing,
    /// The search itself failed.
    Failed(String),
    /// A repository without a working tree.
    Bare,
    /// A repository with this working tree.
    WorkTree(String),
}

/// An open repository.
#[derive(Debug)]
pub struct Repo {
    workdir: String,
}

/// How the content of the file a diff was asked for could be had.
#[derive(Debug)]
pub enum FileContent {
    /// Its blobs could not be read.
    ReadFailed(String),
    /// The diff could not be prepared.
    PrepareFailed(String),
    /// One side is binary.
    Binary,
    /// An external diff driver is configured.
    External,
    /// Both sides as text, and the repository's own way of matching lines.
    Text { algorithm: Algorithm, before: Vec<u8>, after: Vec<u8> },
}

/// What a file's changed lines are counted from.
#[derive(Debug)]
pub enum Counted {
    /// Both sides as text, and the repository's own way of matching lines.
    Text { algorithm: Algorithm, before: Vec<u8>, after: Vec<u8> },
    /// One side is binary.
    Binary,
    /// The diff could not be prepared.
    CountFailed(String),
    /// Its blobs could not be read.
    ReadFailed(String),
}

/// One entry of a commit's tree diff.
#[derive(Debug)]
pub struct TreeChange {
    /// Whether the entry is a file rather than a directory.
    pub is_blob: bool,
    pub path: String,
    pub change: FileChange,
    pub counted: Counted,
}

/// The listing of one kind of ref; `None` stands for a ref that could not be
/// read or does not lead to a commit.
pub type RefListing = Vec<Option<(String, ObjectId)>>;

/// Every kind's listing.
#[derive(Debug)]
pub struct RefListings {
    pub local: RefListing,
    pub remote: RefListing,
    pub tags: RefListing,
}

/// The refs of a listing that lead to a commit.
pub open spec fn kept_refs(items: Seq<Option<(String, ObjectId)>>, kind: RefKind) -> Seq<RefInfo>
    decreases items.len(),
{
    if items.len() == 0 {
        Seq::empty()
    } else {
        let rest = kept_refs(items.drop_last(), kind);
        match items.last() {
            Some((name, target)) => rest.push(RefInfo { name, target, kind }),
            None => rest,
        }
    }
}

/// How many of the entries could be read.
pub open spec fn readable(entries: Seq<bool>) -> nat
    decreases entries.len(),
{
    if entries.len() == 0 {
        0
    } else {
        readable(entries.drop_last()) + (if entries.last() {
            1nat
        } else {
            0
        })
    }
}

/// How many lines the change from `before` to `after` adds.
pub open spec fn added_between(algorithm: Algorithm, before: Seq<u8>, after: Seq<u8>) -> int {
    let hunks = diff::line_changes(algorithm, before, after);
    numbering::lines_added(hunks, hunks.len() as int)
}

/// How many lines the change from `before` to `after` removes.
pub open spec fn removed_between(algorithm: Algorithm, before: Seq<u8>, after: Seq<u8>) -> int {
    let hunks = diff::line_changes(algorithm, before, after);
    numbering::lines_removed(hunks, hunks.len() as int)
}

/// The row of a changed file in the changed-files list.
pub open spec fn change_stat(c: TreeChange) -> order::StatView {
    order::StatView {
        path: c.path@,
        stage: None,
        change: order::change_view(c.change),
        insertions: match c.counted {
            Counted::Text { algorithm, before, after } => added_between(
                algorithm,
                before@,
                after@,
            ),
            _ => 0,
        },
        removals: match c.counted {
            Counted::Text { algorithm, before, after } => removed_between(
                algorithm,
                before@,
                after@,
            ),
            _ => 0,
        },
        binary: c.counted is Binary,
        unreadable: match c.counted {
            Counted::CountFailed(e) => Some("counting a file's changed lines"@ + ": "@ + e@),
            Counted::ReadFailed(e) => Some("reading a file's blobs"@ + ": "@ + e@),
            _ => None,
        },
    }
}

/// Where a row of the changed-files list comes from.
pub enum Origin {
    /// An entry of a commit's tree diff.
    Tree(TreeChange),
    /// An entry of the working tree's status.
    Status(StatusEntry),
}

impl Origin {
    /// The row that is listed. Directories are not files.
    pub open spec fn row(self) -> Option<order::StatView> {
        match self {
            Origin::Tree(c) => if c.is_blob {
                Some(change_stat(c))
            } else {
                None
            },
            Origin::Status(e) => Some(working::entry_stat(e)),
        }
    }
}

/// One changed entry with its lines counted: a row of the changed-files list, or
/// none for a directory.
pub struct ChangeRow {
    stat: Option<FileStat>,
    origin: Ghost<Origin>,
}

impl ChangeRow {
    /// The entry that was counted.
    pub closed spec fn origin(&self) -> Origin {
        self.origin@
    }

    /// The row, as it was counted.
    pub closed spec fn row(&self) -> Option<order::StatView> {
        match self.stat {
            Some(s) => Some(order::stat_view(s)),
            None => None,
        }
    }

    /// The row is that of the entry.
    #[verifier::type_invariant]
    closed spec fn true_to_origin(&self) -> bool {
        self.row() == self.origin().row()
    }

    /// Counts an entry of a commit's tree diff.
    pub fn of_tree(change: TreeChange) -> (r: Self)
        requires
            change.counted matches Counted::Text { before, after, .. } ==> diff::can_match(
                before@,
            ) && diff::can_match(after@),
        ensures
            r.origin() == Origin::Tree(change),
            r.row() == r.origin().row(),
            r.row() matches Some(s) ==> s.insertions <= diff::MAX_LINES && s.removals
                <= diff::MAX_LINES,
    {
        let ghost from = Origin::Tree(change);
        if !change.is_blob {
            return ChangeRow { stat: None, origin: Ghost(from) };
        }
        let mut stat = FileStat {
            path: change.path,
            stage: None,
            change: change.change,
            insertions: 0,
            removals: 0,
            binary: false,
            unreadable: None,
        };
        match change.counted {
            Counted::Text { algorithm, before, after } => {
                let counts = count_changes(algorithm, &before, &after);
                stat.insertions = counts.0;
                stat.removals = counts.1;
            },
            Counted::Binary => stat.binary = true,
            Counted::CountFailed(e) => {
                let error = ReadError::from_err("counting a file's changed lines", e.as_str());
                stat.unreadable = Some(error.0);
            },
            Counted::ReadFailed(e) => {
                let error = ReadError::from_err("reading a file's blobs", e.as_str());
                stat.unreadable = Some(error.0);
            },
        }
        assert(from.row() == Some(order::stat_view(stat)));
        ChangeRow { stat: Some(stat), origin: Ghost(from) }
    }

    /// Counts an entry of the working tree's status.
    pub fn of_status(entry: StatusEntry) -> (r: Self)
        requires
            working::entry_fits(entry),
        ensures
            r.origin() == Origin::Status(entry),
            r.row() == r.origin().row(),
            r.row() matches Some(s) && s.insertions <= diff::MAX_DIFF_LINES && s.removals
                <= diff::MAX_DIFF_LINES,
    {
        let ghost from = Origin::Status(entry);
        let stat = working::stat_of(entry);
        ChangeRow { stat: Some(stat), origin: Ghost(from) }
    }
}

/// Rows without those of directories.
pub open spec fn kept(rows: Seq<Option<order::StatView>>) -> Seq<order::StatView>
    decreases rows.len(),
{
    if rows.len() == 0 {
        Seq::empty()
    } else {
        match rows.last() {
            Some(s) => kept(rows.drop_last()).push(s),
            None => kept(rows.drop_last()),
        }
    }
}

/// The rows as they were counted.
pub open spec fn counted_rows(rows: Seq<ChangeRow>) -> Seq<order::StatView> {
    kept(rows.map_values(|r: ChangeRow| r.row()))
}

/// The rows of the entries that were counted.
pub open spec fn entry_rows(rows: Seq<ChangeRow>) -> Seq<order::StatView> {
    kept(rows.map_values(|r: ChangeRow| r.origin().row()))
}

/// Whether 32 bits hold the totals of rows.
pub open spec fn totals_fit(s: Seq<order::StatView>) -> bool {
    sum_insertions(s) <= u32::MAX && sum_removals(s) <= u32::MAX
}

/// Whether `d` lists these files, with their totals.
pub open spec fn lists(d: CommitDiff, s: Seq<order::StatView>) -> bool {
    &&& order::stats_view(d.files@) == order::listed(s)
    &&& d.insertions == sum_insertions(s)
    &&& d.removals == sum_removals(s)
}

/// The lines that files add together.
pub open spec fn sum_insertions(s: Seq<order::StatView>) -> int
    decreases s.len(),
{
    if s.len() == 0 {
        0
    } else {
        sum_insertions(s.drop_last()) + s.last().insertions
    }
}

/// The lines that files remove together.
pub open spec fn sum_removals(s: Seq<order::StatView>) -> int
    decreases s.len(),
{
    if s.len() == 0 {
        0
    } else {
        sum_removals(s.drop_last()) + s.last().removals
    }
}

/// Whether the diff `d` shows the change from `before` to `after`, by hunks that
/// turn the one into the other.
pub open spec fn shows_text(
    d: FileDiff,
    path: Seq<char>,
    algorithm: Algorithm,
    before: Seq<u8>,
    after: Seq<u8>,
    context: nat,
) -> bool {
    let rows = diff::all_rows(
        diff::byte_lines(before),
        diff::byte_lines(after),
        diff::line_changes(algorithm, before, after),
        context,
    );
    &&& diff::edits(
        diff::line_changes(algorithm, before, after),
        diff::byte_lines(before),
        diff::byte_lines(after),
    )
    &&& d.path@ == path
    &&& !d.binary
    &&& diff::rows_of(d.lines@) == diff::kept_rows(rows)
    &&& d.truncated == (rows.len() > diff::MAX_DIFF_LINES)
}

/// Whether the diff `d` only says that the file is binary.
pub open spec fn shows_binary(d: FileDiff, path: Seq<char>) -> bool {
    &&& d.path@ == path
    &&& d.binary
    &&& !d.truncated
    &&& d.lines@.len() == 0
}

/// The diff from `before` to `after`, its lines matched by `algorithm`.
pub fn diff_text(
    path: &str,
    algorithm: Algorithm,
    before: &Vec<u8>,
    after: &Vec<u8>,
    context: u32,
) -> (r: FileDiff)
    requires
        diff::can_match(before@),
        diff::can_match(after@),
    ensures
        shows_text(r, path@, algorithm, before@, after@, context as nat),
{
    let hunks = diff::changed_lines(algorithm, before, after);
    let old = diff::split_lines(before);
    let new = diff::split_lines(after);
    assert(diff::bytes_view(old@).len() == old@.len());
    assert(diff::bytes_view(new@).len() == new@.len());
    assemble(path, &old, &new, &hunks, context)
}

/// How many lines the change from `before` to `after` adds, and how many it
/// removes.
pub fn count_changes(algorithm: Algorithm, before: &Vec<u8>, after: &Vec<u8>) -> (r: (u32, u32))
    requires
        diff::can_match(before@),
        diff::can_match(after@),
    ensures
        r.0 == added_between(algorithm, before@, after@),
        r.1 == removed_between(algorithm, before@, after@),
        r.0 <= diff::byte_lines(after@).len(),
        r.1 <= diff::byte_lines(before@).len(),
{
    let ghost old = diff::byte_lines(before@).len();
    let ghost new = diff::byte_lines(after@).len();
    let hunks = diff::changed_lines(algorithm, before, after);
    let mut added: u32 = 0;
    let mut removed: u32 = 0;
    let mut k: usize = 0;
    while k < hunks.len()
        invariant
            k <= hunks.len(),
            diff::hunks_fit(hunks@, old, new),
            old <= diff::MAX_LINES,
            new <= diff::MAX_LINES,
            added == numbering::lines_added(hunks@, k as int),
            removed == numbering::lines_removed(hunks@, k as int),
        decreases hunks.len() - k,
    {
        proof {
            numbering::lemma_changed_within(hunks@, old, new, k as int);
            numbering::lemma_changed_within(hunks@, old, new, k + 1);
            assert(diff::hunk_fits(hunks@, k as int, old, new));
        }
        let h = hunks[k];
        added = added + (h.after_end - h.after_start);
        removed = removed + (h.before_end - h.before_start);
        k += 1;
    }
    proof {
        numbering::lemma_changed_within(hunks@, old, new, k as int);
    }
    (added, removed)
}

/// Whether `path` names a file of the commit that a file diff was asked for:
/// the first file, not a directory, at that path.
pub fn is_wanted(found: bool, is_blob: bool, location: &str, path: &str) -> (r: bool)
    ensures
        r == (!found && is_blob && location@ == path@),
{
    !found && is_blob && text::same(location, path)
}

impl Repo {
    /// The working tree's root.
    pub closed spec fn root(&self) -> Seq<char> {
        self.workdir@
    }

    /// Opens the repository that was found around `path`.
    pub fn open(path: &str, found: Discovery) -> (r: Result<Self, OpenError>)
        ensures
            match found {
                Discovery::Nothing => r matches Err(OpenError::NotARepository { path: p }) && p@
                    == path@,
                Discovery::Failed(e) => r matches Err(OpenError::Io { path: p, source }) && p@
                    == path@ && source == e,
                Discovery::Bare => r matches Err(OpenError::NoWorkTree { path: p }) && p@ == path@,
                Discovery::WorkTree(root) => r matches Ok(repo) && repo.root() == root@,
            },
    {
        match found {
            Discovery::Nothing => Err(OpenError::NotARepository { path: path.to_owned() }),
            Discovery::Failed(e) => Err(OpenError::Io { path: path.to_owned(), source: e }),
            Discovery::Bare => Err(OpenError::NoWorkTree { path: path.to_owned() }),
            Discovery::WorkTree(root) => Ok(Repo { workdir: root }),
        }
    }

    /// The repository's working tree root.
    pub fn workdir(&self) -> (r: &str)
        ensures
            r@ == self.root(),
    {
        self.workdir.as_str()
    }

    /// Appends the refs of `items` that lead to a commit to `out`.
    fn collect_refs(items: RefListing, kind: RefKind, out: &mut Vec<RefInfo>)
        ensures
            final(out)@ == old(out)@ + kept_refs(items@, kind),
    {
        let ghost all = items@;
        let ghost start = out@;
        assert(kept_refs(all.take(0), kind) =~= Seq::empty());
        for item in it: items
            invariant
                it.seq() == all,
                out@ == start + kept_refs(all.take(it.index() as int), kind),
        {
            proof {
                let upto = all.take(it.index() + 1);
                assert(upto.drop_last() =~= all.take(it.index() as int));
                assert(upto.last() == item);
            }
            match item {
                Some((name, target)) => {
                    out.push(RefInfo { name, target, kind });
                },
                None => {},
            }
            assert(out@ =~= start + kept_refs(all.take(it.index() + 1), kind));
        }
        assert(all.take(all.len() as int) =~= all);
    }

    /// Every local branch, remote branch, and tag, each resolved to a commit.
    ///
    /// References that cannot be resolved are skipped rather than failing the
    /// whole read.
    pub fn refs(&self, listings: Result<RefListings, ReadError>) -> (r: Result<
        Vec<RefInfo>,
        ReadError,
    >)
        ensures
            match listings {
                Ok(l) => r matches Ok(refs) && refs@ == kept_refs(l.local@, RefKind::LocalBranch)
                    + kept_refs(l.remote@, RefKind::RemoteBranch) + kept_refs(
                    l.tags@,
                    RefKind::Tag,
                ),
                Err(e) => r == Err::<Vec<RefInfo>, ReadError>(e),
            },
    {
        match listings {
            Ok(l) => {
                let mut out: Vec<RefInfo> = Vec::new();
                Self::collect_refs(l.local, RefKind::LocalBranch, &mut out);
                Self::collect_refs(l.remote, RefKind::RemoteBranch, &mut out);
                Self::collect_refs(l.tags, RefKind::Tag, &mut out);
                assert(out@ =~= kept_refs(l.local@, RefKind::LocalBranch) + kept_refs(
                    l.remote@,
                    RefKind::RemoteBranch,
                ) + kept_refs(l.tags@, RefKind::Tag));
                Ok(out)
            },
            Err(e) => Err(e),
        }
    }

    /// Modified and untracked entries in the working tree. One that could not be
    /// read does not blank the count.
    pub fn working_changes(&self, entries: Result<Vec<bool>, ReadError>) -> (r: Result<
        usize,
        ReadError,
    >)
        ensures
            match entries {
                Ok(v) => r matches Ok(n) && n == readable(v@),
                Err(e) => r == Err::<usize, ReadError>(e),
            },
    {
        match entries {
            Ok(v) => {
                let mut n: usize = 0;
                let mut i: usize = 0;
                while i < v.len()
                    invariant
                        i <= v.len(),
                        n <= i,
                        n == readable(v@.take(i as int)),
                    decreases v.len() - i,
                {
                    assert(v@.take(i + 1).drop_last() =~= v@.take(i as int));
                    if v[i] {
                        n += 1;
                    }
                    i += 1;
                }
                assert(v@.take(i as int) =~= v@);
                Ok(n)
            },
            Err(e) => Err(e),
        }
    }

    /// A commit's changed files, from the walk of its tree diff.
    ///
    /// A file whose blobs cannot be read is marked rather than failing the call:
    /// the other files in the commit are still worth showing.
    pub fn commit_diff(&self, walk: Result<Vec<ChangeRow>, ReadError>) -> (r: Result<
        CommitDiff,
        ReadError,
    >)
        requires
            walk matches Ok(rows) ==> totals_fit(counted_rows(rows@)),
        ensures
            match walk {
                Ok(rows) => r matches Ok(d) && lists(d, entry_rows(rows@)),
                Err(e) => r == Err::<CommitDiff, ReadError>(e),
            },
    {
        match walk {
            Ok(rows) => Ok(list_rows(rows)),
            Err(e) => Err(e),
        }
    }

    /// The diff of the file at `path`, from what the walk of the commit's tree
    /// diff gave for it: `content` is `None` where the walk met no such file.
    ///
    /// A failure to read the file is reported ahead of one of the walk itself,
    /// which then was only cut short by it.
    pub fn file_diff(
        &self,
        path: &str,
        context: u32,
        content: Option<FileContent>,
        walk: Result<(), ReadError>,
    ) -> (r: Result<FileDiff, ReadError>)
        requires
            content matches Some(FileContent::Text { before, after, .. }) ==> diff::can_match(
                before@,
            ) && diff::can_match(after@),
        ensures
            match content {
                Some(FileContent::ReadFailed(e)) => r matches Err(f) && f.0@
                    == "reading a file's blobs"@ + ": "@ + e@,
                Some(FileContent::PrepareFailed(e)) => r matches Err(f) && f.0@
                    == "preparing a file diff"@ + ": "@ + e@,
                Some(FileContent::External) => r matches Err(f) && f.0@
                    == "an external diff driver cannot be rendered with line numbers"@,
                Some(FileContent::Binary) => match walk {
                    Ok(_) => r matches Ok(d) && shows_binary(d, path@),
                    Err(e) => r == Err::<FileDiff, ReadError>(e),
                },
                Some(FileContent::Text { algorithm, before, after }) => match walk {
                    Ok(_) => r matches Ok(d) && shows_text(
                        d,
                        path@,
                        algorithm,
                        before@,
                        after@,
                        context as nat,
                    ),
                    Err(e) => r == Err::<FileDiff, ReadError>(e),
                },
                None => match walk {
                    Ok(_) => r matches Err(f) && f.0@ == path@ + " was not changed by this commit"@,
                    Err(e) => r == Err::<FileDiff, ReadError>(e),
                },
            },
    {
        let found = match content {
            Some(FileContent::ReadFailed(e)) => {
                return Err(ReadError::from_err("reading a file's blobs", e.as_str()));
            },
            Some(FileContent::PrepareFailed(e)) => {
                return Err(ReadError::from_err("preparing a file diff", e.as_str()));
            },
            Some(FileContent::External) => {
                return Err(
                    ReadError(
                        "an external diff driver cannot be rendered with line numbers".to_owned(),
                    ),
                );
            },
            Some(FileContent::Binary) => Some(FileDiff::binary(path)),
            Some(FileContent::Text { algorithm, before, after }) => Some(
                diff_text(path, algorithm, &before, &after, context),
            ),
            None => None,
        };
        match walk {
            Err(e) => Err(e),
            Ok(_) => match found {
                Some(d) => Ok(d),
                None => Err(ReadError(text::join2(path, " was not changed by this commit"))),
            },
        }
    }
}

/// The totals of a part of the rows are within those of the whole.
proof fn lemma_sums_grow(all: Seq<ChangeRow>, k: int)
    requires
        0 <= k <= all.len(),
        forall|i: int|
            0 <= i < all.len() ==> ((#[trigger] all[i]).row() matches Some(s) ==> s.insertions >= 0
                && s.removals >= 0),
    ensures
        sum_insertions(counted_rows(all.take(k))) <= sum_insertions(counted_rows(all)),
        sum_removals(counted_rows(all.take(k))) <= sum_removals(counted_rows(all)),
    decreases all.len() - k,
{
    if k == all.len() {
        assert(all.take(k) =~= all);
    } else {
        lemma_sums_grow(all, k + 1);
        lemma_rows_push(all, k);
        if all[k].row() is Some {
            assert(counted_rows(all.take(k + 1)).drop_last() =~= counted_rows(all.take(k)));
        }
    }
}

/// One more row counted.
proof fn lemma_rows_push(all: Seq<ChangeRow>, k: int)
    requires
        0 <= k < all.len(),
    ensures
        counted_rows(all.take(k + 1)) == match all[k].row() {
            Some(s) => counted_rows(all.take(k)).push(s),
            None => counted_rows(all.take(k)),
        },
        entry_rows(all.take(k + 1)) == match all[k].origin().row() {
            Some(s) => entry_rows(all.take(k)).push(s),
            None => entry_rows(all.take(k)),
        },
{
    let f = |r: ChangeRow| r.row();
    let g = |r: ChangeRow| r.origin().row();
    assert(all.take(k + 1).map_values(f).drop_last() =~= all.take(k).map_values(f));
    assert(all.take(k + 1).map_values(g).drop_last() =~= all.take(k).map_values(g));
}

/// Whether 32 bits hold the totals of rows.
pub fn can_total(rows: &Vec<ChangeRow>) -> (r: bool)
    ensures
        r == totals_fit(counted_rows(rows@)),
{
    let mut insertions: u32 = 0;
    let mut removals: u32 = 0;
    let mut i: usize = 0;
    let ghost all = rows@;
    assert(all.take(0).map_values(|r: ChangeRow| r.row()) =~= Seq::empty());
    assert forall|i: int| 0 <= i < all.len() implies ((#[trigger] all[i]).row() matches Some(s)
        ==> s.insertions >= 0 && s.removals >= 0) by {}
    while i < rows.len()
        invariant
            i <= rows.len(),
            all == rows@,
            forall|i: int|
                0 <= i < all.len() ==> ((#[trigger] all[i]).row() matches Some(s) ==> s.insertions
                    >= 0 && s.removals >= 0),
            insertions == sum_insertions(counted_rows(all.take(i as int))),
            removals == sum_removals(counted_rows(all.take(i as int))),
        decreases rows.len() - i,
    {
        proof {
            lemma_rows_push(all, i as int);
            lemma_sums_grow(all, i + 1);
            if all[i as int].row() is Some {
                assert(counted_rows(all.take(i + 1)).drop_last() =~= counted_rows(
                    all.take(i as int),
                ));
            }
        }
        if let Some(stat) = &rows[i].stat {
            if stat.insertions > u32::MAX - insertions || stat.removals > u32::MAX - removals {
                return false;
            }
            insertions = insertions + stat.insertions;
            removals = removals + stat.removals;
        }
        i += 1;
    }
    assert(all.take(i as int) =~= all);
    true
}

/// The changed-files list of rows, with their totals.
pub(crate) fn list_rows(rows: Vec<ChangeRow>) -> (r: CommitDiff)
    requires
        totals_fit(counted_rows(rows@)),
    ensures
        lists(r, entry_rows(rows@)),
{
    let ghost all = rows@;
    let mut files: Vec<FileStat> = Vec::new();
    let mut insertions: u32 = 0;
    let mut removals: u32 = 0;
    proof {
        assert(all.take(0).map_values(|r: ChangeRow| r.row()) =~= Seq::empty());
        assert(all.take(0).map_values(|r: ChangeRow| r.origin().row()) =~= Seq::empty());
        assert(order::stats_view(files@) =~= counted_rows(all.take(0)));
        assert forall|i: int| 0 <= i < all.len() implies ((#[trigger] all[i]).row() matches Some(s)
            ==> s.insertions >= 0 && s.removals >= 0) by {}
    }
    for row in it: rows
        invariant
            it.seq() == all,
            totals_fit(counted_rows(all)),
            forall|i: int|
                0 <= i < all.len() ==> ((#[trigger] all[i]).row() matches Some(s) ==> s.insertions
                    >= 0 && s.removals >= 0),
            order::stats_view(files@) == counted_rows(all.take(it.index() as int)),
            order::stats_view(files@) == entry_rows(all.take(it.index() as int)),
            insertions == sum_insertions(order::stats_view(files@)),
            removals == sum_removals(order::stats_view(files@)),
    {
        let ghost done = it.index() as int;
        proof {
            assert(all[done] == row);
            use_type_invariant(&row);
            lemma_rows_push(all, done);
            lemma_sums_grow(all, done + 1);
        }
        if let Some(stat) = row.stat {
            let ghost had = files@;
            let ghost want = order::stat_view(stat);
            proof {
                assert(counted_rows(all.take(done + 1)).drop_last() =~= counted_rows(
                    all.take(done),
                ));
            }
            insertions = insertions + stat.insertions;
            removals = removals + stat.removals;
            files.push(stat);
            proof {
                assert(order::stats_view(files@) =~= order::stats_view(had).push(want));
                assert(order::stats_view(files@).drop_last() =~= order::stats_view(had));
            }
        }
    }
    proof {
        assert(all.take(all.len() as int) =~= all);
    }
    CommitDiff { files: order::sort_files(files), insertions, removals }
}

/// Whether `d` is the diff of an entry's content.
pub open spec fn opens(d: FileDiff, origin: Origin, context: nat) -> bool {
    match origin {
        Origin::Tree(c) => match c.counted {
            Counted::Text { algorithm, before, after } => shows_text(
                d,
                c.path@,
                algorithm,
                before@,
                after@,
                context,
            ),
            Counted::Binary => shows_binary(d, c.path@),
            _ => false,
        },
        Origin::Status(e) => vstd::utf8::valid_utf8(e.location@) && (e.sides matches Ok(
            (before, after),
        ) && working::compares(
            d,
            vstd::utf8::decode_utf8(e.location@),
            working::side_bytes(before),
            working::side_bytes(after),
            context,
        )),
    }
}

/// Whether a row of the changed-files list and an opened diff tell the same: as
/// many lines added and removed, as far as the diff is whole.
pub open spec fn agrees(s: order::StatView, d: FileDiff) -> bool {
    &&& s.path == d.path@
    &&& s.binary == d.binary
    &&& d.binary ==> d.lines@.len() == 0
    &&& !d.truncated ==> s.unreadable is None
    &&& !d.truncated ==> s.insertions == numbering::count_added(diff::rows_of(d.lines@))
    &&& !d.truncated ==> s.removals == numbering::count_removed(diff::rows_of(d.lines@))
}

/// Law: a file's row in the changed-files list and its opened diff agree, however
/// much context the diff shows.
pub proof fn law_pane_and_diff_agree(origin: Origin, d: FileDiff, context: nat)
    requires
        opens(d, origin, context),
        origin.row() is Some,
    ensures
        agrees(origin.row()->0, d),
{
    let (algorithm, before, after) = match origin {
        Origin::Tree(c) => match c.counted {
            Counted::Text { algorithm, before, after } => (algorithm, before@, after@),
            _ => (Algorithm::Myers, Seq::empty(), Seq::empty()),
        },
        Origin::Status(e) => match e.sides {
            Ok((before, after)) => (
                Algorithm::Histogram,
                working::side_bytes(before),
                working::side_bytes(after),
            ),
            Err(_) => (Algorithm::Histogram, Seq::empty(), Seq::empty()),
        },
    };
    if d.binary {
        assert(diff::rows_of(d.lines@) =~= Seq::empty());
    } else {
        let old = diff::byte_lines(before);
        let new = diff::byte_lines(after);
        let hunks = diff::line_changes(algorithm, before, after);
        let rows = diff::all_rows(old, new, hunks, context);
        let bare = diff::all_rows(old, new, hunks, 0);
        numbering::law_counts_agree(old, new, hunks, context);
        numbering::law_counts_agree(old, new, hunks, 0);
        numbering::law_no_context_no_unchanged_rows(old, new, hunks);
        numbering::lemma_changed_rows(rows);
        numbering::lemma_changed_rows(bare);
        if !d.truncated {
            assert(diff::kept_rows(rows) =~= rows);
            assert(diff::kept_rows(bare) =~= bare);
        }
    }
}

proof fn lemma_kept_from(rows: Seq<Option<order::StatView>>, s: order::StatView)
    requires
        kept(rows).contains(s),
    ensures
        rows.contains(Some(s)),
    decreases rows.len(),
{
    if rows.len() > 0 {
        let front = rows.drop_last();
        if rows.last() == Some(s) {
            assert(rows[rows.len() - 1] == Some(s));
        } else {
            let i = choose|i: int| 0 <= i < kept(rows).len() && kept(rows)[i] == s;
            if rows.last() is Some {
                assert(kept(front)[i] == s);
            }
            assert(kept(front).contains(s));
            lemma_kept_from(front, s);
            let k = choose|k: int| 0 <= k < front.len() && front[k] == Some(s);
            assert(rows[k] == Some(s));
        }
    }
}

/// Law: every file that is listed is the row of an entry, and agrees with every
/// diff that is opened of that entry.
pub proof fn law_listed_files_agree(rows: Seq<ChangeRow>, listing: CommitDiff, i: int)
    requires
        lists(listing, entry_rows(rows)),
        0 <= i < listing.files@.len(),
    ensures
        exists|k: int|
            0 <= k < rows.len() && (#[trigger] rows[k]).origin().row() == Some(
                order::stat_view(listing.files@[i]),
            ) && forall|d: FileDiff, context: nat| #[trigger]
                opens(d, rows[k].origin(), context) ==> agrees(
                    order::stat_view(listing.files@[i]),
                    d,
                ),
{
    let s = order::stat_view(listing.files@[i]);
    let all = entry_rows(rows);
    let origins = rows.map_values(|r: ChangeRow| r.origin().row());
    order::law_listed(all);
    assert(order::stats_view(listing.files@)[i] == s);
    all.to_multiset_ensures();
    order::listed(all).to_multiset_ensures();
    assert(order::listed(all).contains(s));
    assert(order::listed(all).to_multiset().count(s) > 0);
    assert(all.to_multiset().count(s) > 0);
    lemma_kept_from(origins, s);
    let k = choose|k: int| 0 <= k < origins.len() && origins[k] == Some(s);
    assert(rows[k].origin().row() == Some(s));
    assert forall|d: FileDiff, context: nat| #[trigger]
        opens(d, rows[k].origin(), context) implies agrees(s, d) by {
        law_pane_and_diff_agree(rows[k].origin(), d, context);
    }
}

/// Law: the refs of a listing are listed in its order, each under its name and with
/// the commit it leads to; one that leads to none is left out.
pub proof fn law_refs_are_listed(
    items: Seq<Option<(String, ObjectId)>>,
    name: String,
    target: ObjectId,
    kind: RefKind,
)
    ensures
        kept_refs(items.push(Some((name, target))), kind) == kept_refs(items, kind).push(
            RefInfo { name, target, kind },
        ),
        kept_refs(items.push(None), kind) == kept_refs(items, kind),
        kept_refs(Seq::empty(), kind).len() == 0,
{
    assert(items.push(Some((name, target))).drop_last() =~= items);
    assert(items.push(None).drop_last() =~= items);
}

/// Law: every entry of the status that could be read counts once, and no other.
pub proof fn law_readable_entries_count(entries: Seq<bool>, one: bool)
    ensures
        readable(entries.push(one)) == readable(entries) + (if one {
            1int
        } else {
            0
        }),
        readable(Seq::empty()) == 0,
{
    assert(entries.push(one).drop_last() =~= entries);
}

/// Law: a file's row in the list says what it is called, how it changed, and either
/// how many lines it adds and removes, that it is binary, or why it cannot be told.
pub proof fn law_change_row(c: TreeChange)
    ensures
        ({
            let s = change_stat(c);
            &&& s.path == c.path@ && s.stage is None
            &&& c.change is Added ==> s.change is Added
            &&& c.change is Deleted ==> s.change is Deleted
            &&& c.change is Modified ==> s.change is Modified
            &&& c.change matches FileChange::Renamed { from } ==> (s.change
                matches order::ChangeView::Renamed { from: was } && was == from@)
            &&& s.binary <==> c.counted is Binary
            &&& c.counted is Text ==> s.unreadable is None
            &&& (c.counted is CountFailed || c.counted is ReadFailed) ==> s.unreadable is Some
            &&& !(c.counted is Text) ==> s.insertions == 0 && s.removals == 0
        }),
{
}

/// Law: totals add up: those of a list are those of its parts.
pub proof fn law_totals_add_up(a: Seq<order::StatView>, b: Seq<order::StatView>)
    ensures
        sum_insertions(a + b) == sum_insertions(a) + sum_insertions(b),
        sum_removals(a + b) == sum_removals(a) + sum_removals(b),
        a.len() == 1 ==> sum_insertions(a) == a[0].insertions && sum_removals(a) == a[0].removals,
    decreases b.len(),
{
    if a.len() == 1 {
        assert(a.drop_last() =~= Seq::<order::StatView>::empty());
        assert(sum_insertions(a.drop_last()) == 0);
        assert(sum_removals(a.drop_last()) == 0);
    }
    if b.len() == 0 {
        assert(a + b =~= a);
    } else {
        law_totals_add_up(a, b.drop_last());
        assert((a + b).drop_last() =~= a + b.drop_last());
    }
}

/// Law: what a diff calls removed stands in the file before the change, what it calls
/// added in the file after it, and what it calls unchanged in both, each under the
/// number it is given.
pub proof fn law_diff_shows_both_sides(
    d: FileDiff,
    path: Seq<char>,
    algorithm: Algorithm,
    before: Seq<u8>,
    after: Seq<u8>,
    context: nat,
    i: int,
)
    requires
        shows_text(d, path, algorithm, before, after, context),
        0 <= i < d.lines@.len(),
    ensures
        d.path@ == path,
        ({
            let was = diff::byte_lines(before);
            let is = diff::byte_lines(after);
            match d.lines@[i] {
                diff::DiffLine::Removed { old, text } => 1 <= old <= was.len() && text@
                    == diff::lossy_text(was[old - 1]),
                diff::DiffLine::Added { new, text } => 1 <= new <= is.len() && text@
                    == diff::lossy_text(is[new - 1]),
                diff::DiffLine::Context { old, new, text } => 1 <= old <= was.len() && 1 <= new
                    <= is.len() && text@ == diff::lossy_text(was[old - 1]) && text@
                    == diff::lossy_text(is[new - 1]),
            }
        }),
{
    let was = diff::byte_lines(before);
    let is = diff::byte_lines(after);
    let hunks = diff::line_changes(algorithm, before, after);
    let rows = diff::all_rows(was, is, hunks, context);
    numbering::law_rows_show_their_lines(was, is, hunks, context);
    assert(diff::rows_of(d.lines@).len() == d.lines@.len());
    assert(diff::rows_of(d.lines@)[i] == diff::row_of(d.lines@[i]));
    assert(diff::kept_rows(rows).len() <= rows.len());
    assert(diff::kept_rows(rows)[i] == rows[i]);
    assert(numbering::shows_its_line(rows[i], was, is));
}

} // verus!
