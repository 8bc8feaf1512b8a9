//! Comparisons of HEAD, index, and raw working-tree content.
use crate::git::commit::ReadError;
use crate::git::diff;
use crate::git::diff::{Algorithm, CommitDiff, DiffLine, FileChange, FileDiff, FileStat};
use crate::git::numbering;
use crate::git::order;
use crate::git::repo;
use crate::git::repo::{diff_text, list_rows, ChangeRow, Repo};
use crate::text;
use vstd::prelude::*;

verus! {

/// The largest file that is compared.
pub const MAX_FILE_BYTES: usize = 8_388_608;

#[derive(Debug, Clone, Copy, PartialEq, Eq, PartialOrd, Ord, Structural)]
pub enum WorktreeStage {
    Staged,
    Unstaged,
    Untracked,
}

impl WorktreeStage {
    pub fn label(self) -> (r: &'static str)
        ensures
            r@ == match self {
                WorktreeStage::Staged => "staged"@,
                WorktreeStage::Unstaged => "unstaged"@,
                WorktreeStage::Untracked => "untracked"@,
            },
    {
        match self {
            WorktreeStage::Staged => "staged",
            WorktreeStage::Unstaged => "unstaged",
            WorktreeStage::Untracked => "untracked",
        }
    }
}

/// Before and after bytes; `None` denotes an absent path.
pub type FileSides = (Option<Vec<u8>>, Option<Vec<u8>>);

/// Where one side of a comparison comes from.
#[derive(Debug, Clone, Copy, PartialEq, Eq, Structural)]
pub enum Source {
    /// Nowhere: the side is absent.
    Nothing,
    Head,
    Index,
    WorkTree,
}

/// What a change at `stage` is a change from, and what it is a change to.
pub fn sides_of(stage: WorktreeStage) -> (r: (Source, Source))
    ensures
        r == match stage {
            WorktreeStage::Staged => (Source::Head, Source::Index),
            WorktreeStage::Unstaged => (Source::Index, Source::WorkTree),
            WorktreeStage::Untracked => (Source::Nothing, Source::WorkTree),
        },
{
    match stage {
        WorktreeStage::Staged => (Source::Head, Source::Index),
        WorktreeStage::Unstaged => (Source::Index, Source::WorkTree),
        WorktreeStage::Untracked => (Source::Nothing, Source::WorkTree),
    }
}

/// Refuses content of `size` bytes that is too large to compare.
pub fn within_limit(size: u64) -> (r: Result<(), ReadError>)
    ensures
        size <= MAX_FILE_BYTES ==> r is Ok,
        size > MAX_FILE_BYTES ==> (r matches Err(e) && e.0@ == "file exceeds 8 MiB review limit"@),
{
    if size > MAX_FILE_BYTES as u64 {
        Err(ReadError("file exceeds 8 MiB review limit".to_owned()))
    } else {
        Ok(())
    }
}

/// Whether `path[from..]` is a `..` between slashes or ends.
pub open spec fn parent_at(path: Seq<char>, from: int) -> bool {
    &&& 0 <= from
    &&& from + 2 <= path.len()
    &&& path[from] == '.' && path[from + 1] == '.'
    &&& from == 0 || path[from - 1] == '/'
    &&& from + 2 == path.len() || path[from + 2] == '/'
}

/// Whether `path` names a place below where it starts: it is not absolute, does
/// not begin with a `.` component, and no component of it is `..`.
pub open spec fn repository_relative(path: Seq<char>) -> bool {
    &&& path.len() > 0 ==> path[0] != '/'
    &&& !(path.len() > 0 && path[0] == '.' && (path.len() == 1 || path[1] == '/'))
    &&& forall|i: int| !#[trigger] parent_at(path, i)
}

/// Whether `path` names a place below where it starts.
pub fn is_repository_relative(path: &str) -> (r: bool)
    ensures
        r == repository_relative(path@),
{
    let v = text::chars_of(path);
    let n: usize = v.len();
    if n > 0 && v[0] == '/' {
        return false;
    }
    if n > 0 && v[0] == '.' && (n == 1 || v[1] == '/') {
        return false;
    }
    let mut i: usize = 0;
    while i < n
        invariant
            n == v.len(),
            v@ == path@,
            i <= n,
            forall|k: int| k < i ==> !#[trigger] parent_at(path@, k),
        decreases n - i,
    {
        if n - i >= 2 && v[i] == '.' && v[i + 1] == '.' && (i == 0 || v[i - 1] == '/') && (i + 2
            == n || v[i + 2] == '/') {
            assert(parent_at(path@, i as int));
            return false;
        }
        i += 1;
    }
    true
}

/// What the working tree has at a path.
#[derive(Debug)]
pub enum WorktreeEntry {
    Missing,
    /// Looking the entry up failed.
    Unreadable(String),
    /// The entry's directory could not be resolved.
    DirectoryFailed(String),
    /// The repository's own directory could not be resolved.
    RepositoryFailed(String),
    /// The entry lies outside the repository.
    Outside,
    /// A symbolic link, with what it points at.
    Link(Vec<u8>),
    LinkFailed(String),
    /// Neither a file nor a link.
    NotAFile,
    /// A file, with its bytes up to one past the limit.
    File(Vec<u8>),
    FileFailed(String),
}

/// The text of an error from reading the working tree, `None` where the entry
/// can be compared.
pub open spec fn entry_error(entry: WorktreeEntry) -> Option<Seq<char>> {
    match entry {
        WorktreeEntry::Missing => None,
        WorktreeEntry::Unreadable(e) => Some("reading working file"@ + ": "@ + e@),
        WorktreeEntry::DirectoryFailed(e) => Some("resolving working directory"@ + ": "@ + e@),
        WorktreeEntry::RepositoryFailed(e) => Some("resolving repository"@ + ": "@ + e@),
        WorktreeEntry::Outside => Some("working path leaves repository"@),
        WorktreeEntry::Link(_) => None,
        WorktreeEntry::LinkFailed(e) => Some("reading symbolic link"@ + ": "@ + e@),
        WorktreeEntry::NotAFile => Some("non-file entries cannot be diffed"@),
        WorktreeEntry::File(bytes) => if bytes@.len() > MAX_FILE_BYTES {
            Some("file exceeds 8 MiB review limit"@)
        } else {
            None
        },
        WorktreeEntry::FileFailed(e) => Some("reading working file"@ + ": "@ + e@),
    }
}

/// The path of an entry as `BStr`'s `Debug` writes it.
pub uninterp spec fn quoted_bytes(path: Seq<u8>) -> Seq<char>;

/// `BStr`'s `Debug` implementation, named `quoted_bytes`.
#[verifier::external_body]
fn quote_bytes(path: &Vec<u8>) -> (r: String)
    ensures
        r@ == quoted_bytes(path@),
{
    format!("{:?}", gix::bstr::BStr::new(path))
}

/// `String::from_utf8` from the standard library: the text of valid UTF-8, and
/// nothing for other bytes.
#[verifier::external_body]
fn utf8_text(bytes: &Vec<u8>) -> (r: Option<String>)
    ensures
        r is Some <==> vstd::utf8::valid_utf8(bytes@),
        r matches Some(s) ==> s@ == vstd::utf8::decode_utf8(bytes@),
{
    String::from_utf8(bytes.clone()).ok()
}

/// One entry of the working tree's status.
#[derive(Debug)]
pub struct StatusEntry {
    pub location: Vec<u8>,
    pub stage: WorktreeStage,
    /// Both sides' bytes, or why they could not be read.
    pub sides: Result<FileSides, ReadError>,
}

/// A side's bytes; none where the path is absent.
pub open spec fn side_bytes(side: Option<Vec<u8>>) -> Seq<u8> {
    match side {
        Some(b) => b@,
        None => Seq::empty(),
    }
}

/// Whether either side holds a NUL byte.
pub open spec fn is_binary(before: Seq<u8>, after: Seq<u8>) -> bool {
    before.contains(0u8) || after.contains(0u8)
}

/// Whether two sides can be compared: one is binary, or neither has too many lines.
pub open spec fn can_compare(before: Seq<u8>, after: Seq<u8>) -> bool {
    is_binary(before, after) || (diff::can_match(before) && diff::can_match(after))
}

/// The rows that are shown of the change from `before` to `after`.
pub open spec fn shown_rows(before: Seq<u8>, after: Seq<u8>, context: nat) -> Seq<diff::Row> {
    diff::all_rows(
        diff::byte_lines(before),
        diff::byte_lines(after),
        diff::line_changes(Algorithm::Histogram, before, after),
        context,
    )
}

fn has_nul(b: &Vec<u8>) -> (r: bool)
    ensures
        r == b@.contains(0u8),
{
    let mut i: usize = 0;
    while i < b.len()
        invariant
            i <= b.len(),
            forall|k: int| 0 <= k < i ==> b@[k] != 0,
        decreases b.len() - i,
    {
        if b[i] == 0 {
            assert(b@[i as int] == 0u8);
            return true;
        }
        i += 1;
    }
    false
}

/// Whether `d` shows the change between two sides: as text, or as the remark that
/// one is binary.
pub open spec fn compares(
    d: FileDiff,
    path: Seq<char>,
    before: Seq<u8>,
    after: Seq<u8>,
    context: nat,
) -> bool {
    if is_binary(before, after) {
        repo::shows_binary(d, path)
    } else {
        repo::shows_text(d, path, Algorithm::Histogram, before, after, context)
    }
}

/// The diff between two sides: of text, or the remark that one is binary.
pub fn compare(path: &str, before: &Vec<u8>, after: &Vec<u8>, context: u32) -> (r: FileDiff)
    requires
        can_compare(before@, after@),
    ensures
        compares(r, path@, before@, after@, context as nat),
{
    if has_nul(before) || has_nul(after) {
        return FileDiff::binary(path);
    }
    diff_text(path, Algorithm::Histogram, before, after, context)
}

/// The row of an entry in the changed-files list.
pub open spec fn entry_stat(e: StatusEntry) -> order::StatView {
    if !vstd::utf8::valid_utf8(e.location@) {
        order::StatView {
            path: quoted_bytes(e.location@),
            stage: None,
            change: order::ChangeView::Modified,
            insertions: 0,
            removals: 0,
            binary: false,
            unreadable: Some("filename is not UTF-8; cannot safely open this path"@),
        }
    } else {
        let path = vstd::utf8::decode_utf8(e.location@);
        match e.sides {
            Err(error) => order::StatView {
                path,
                stage: Some(e.stage),
                change: order::ChangeView::Modified,
                insertions: 0,
                removals: 0,
                binary: false,
                unreadable: Some(error.0@),
            },
            Ok((before, after)) => {
                let binary = is_binary(side_bytes(before), side_bytes(after));
                let rows = shown_rows(side_bytes(before), side_bytes(after), 0);
                order::StatView {
                    path,
                    stage: Some(e.stage),
                    change: if before is None {
                        order::ChangeView::Added
                    } else if after is None {
                        order::ChangeView::Deleted
                    } else {
                        order::ChangeView::Modified
                    },
                    insertions: if binary {
                        0
                    } else {
                        numbering::count_added(diff::kept_rows(rows)) as int
                    },
                    removals: if binary {
                        0
                    } else {
                        numbering::count_removed(diff::kept_rows(rows)) as int
                    },
                    binary,
                    unreadable: if !binary && rows.len() > diff::MAX_DIFF_LINES {
                        Some("line totals exceed display limit"@)
                    } else {
                        None
                    },
                }
            },
        }
    }
}

/// How many lines a diff adds, and how many it removes.
fn count_lines(d: &FileDiff) -> (r: (u32, u32))
    requires
        d.lines@.len() <= diff::MAX_DIFF_LINES,
    ensures
        r.0 == numbering::count_added(diff::rows_of(d.lines@)),
        r.1 == numbering::count_removed(diff::rows_of(d.lines@)),
        r.0 <= diff::MAX_DIFF_LINES,
        r.1 <= diff::MAX_DIFF_LINES,
{
    let mut added: u32 = 0;
    let mut removed: u32 = 0;
    let mut i: usize = 0;
    let ghost rows = diff::rows_of(d.lines@);
    assert(rows.take(0) =~= Seq::empty());
    while i < d.lines.len()
        invariant
            i <= d.lines.len(),
            d.lines@.len() <= diff::MAX_DIFF_LINES,
            rows == diff::rows_of(d.lines@),
            added == numbering::count_added(rows.take(i as int)),
            removed == numbering::count_removed(rows.take(i as int)),
            added <= i,
            removed <= i,
        decreases d.lines.len() - i,
    {
        proof {
            assert(rows.take(i + 1).drop_last() =~= rows.take(i as int));
            assert(rows.take(i + 1).last() == diff::row_of(d.lines@[i as int]));
        }
        match &d.lines[i] {
            DiffLine::Added { .. } => added = added + 1,
            DiffLine::Removed { .. } => removed = removed + 1,
            DiffLine::Context { .. } => {},
        }
        i += 1;
    }
    assert(rows.take(i as int) =~= rows);
    (added, removed)
}

/// The row of a changed path, before anything is known of its content: a path
/// that is not UTF-8 gets no stage, so that nothing tries to open it.
pub fn file_stat(location: &Vec<u8>, stage: WorktreeStage) -> (r: FileStat)
    ensures
        r.change is Modified,
        r.insertions == 0,
        r.removals == 0,
        !r.binary,
        vstd::utf8::valid_utf8(location@) ==> {
            &&& r.path@ == vstd::utf8::decode_utf8(location@)
            &&& r.stage == Some(stage)
            &&& r.unreadable is None
        },
        !vstd::utf8::valid_utf8(location@) ==> {
            &&& r.path@ == quoted_bytes(location@)
            &&& r.stage is None
            &&& r.unreadable matches Some(t) && t@
                == "filename is not UTF-8; cannot safely open this path"@
        },
{
    match utf8_text(location) {
        Some(path) => FileStat {
            path,
            stage: Some(stage),
            change: FileChange::Modified,
            insertions: 0,
            removals: 0,
            binary: false,
            unreadable: None,
        },
        None => FileStat {
            path: quote_bytes(location),
            stage: None,
            change: FileChange::Modified,
            insertions: 0,
            removals: 0,
            binary: false,
            unreadable: Some("filename is not UTF-8; cannot safely open this path".to_owned()),
        },
    }
}

/// Whether both sides of an entry are small enough to compare.
pub open spec fn entry_fits(e: StatusEntry) -> bool {
    e.sides matches Ok((before, after)) ==> can_compare(side_bytes(before), side_bytes(after))
}

fn bytes_or_none(side: Option<Vec<u8>>) -> (r: Vec<u8>)
    ensures
        r@ == side_bytes(side),
{
    match side {
        Some(b) => b,
        None => {
            let v: Vec<u8> = Vec::new();
            assert(v@ =~= Seq::empty());
            v
        },
    }
}

/// The row of one entry.
pub(crate) fn stat_of(entry: StatusEntry) -> (r: FileStat)
    requires
        entry_fits(entry),
    ensures
        order::stat_view(r) == entry_stat(entry),
        r.insertions <= diff::MAX_DIFF_LINES,
        r.removals <= diff::MAX_DIFF_LINES,
{
    let mut stat = file_stat(&entry.location, entry.stage);
    if stat.stage.is_none() {
        return stat;
    }
    match entry.sides {
        Ok((before, after)) => {
            stat.change = if before.is_none() {
                FileChange::Added
            } else if after.is_none() {
                FileChange::Deleted
            } else {
                FileChange::Modified
            };
            let old = bytes_or_none(before);
            let new = bytes_or_none(after);
            let d = compare(stat.path.as_str(), &old, &new, 0);
            proof {
                assert(diff::rows_of(d.lines@).len() == d.lines@.len());
            }
            let counts = count_lines(&d);
            stat.binary = d.binary;
            stat.insertions = counts.0;
            stat.removals = counts.1;
            if d.truncated {
                stat.unreadable = Some("line totals exceed display limit".to_owned());
            }
            proof {
                if d.binary {
                    assert(diff::rows_of(d.lines@) =~= Seq::empty());
                }
            }
        },
        Err(error) => {
            stat.unreadable = Some(error.0);
        },
    }
    stat
}

impl Repo {
    /// The changes that are not committed, from the working tree's status.
    pub fn working_diff(&self, status: Result<Vec<ChangeRow>, ReadError>) -> (r: Result<
        CommitDiff,
        ReadError,
    >)
        requires
            status matches Ok(rows) ==> repo::totals_fit(repo::counted_rows(rows@)),
        ensures
            match status {
                Ok(rows) => r matches Ok(d) && repo::lists(d, repo::entry_rows(rows@)),
                Err(e) => r == Err::<CommitDiff, ReadError>(e),
            },
    {
        match status {
            Ok(rows) => Ok(list_rows(rows)),
            Err(e) => Err(e),
        }
    }

    /// The diff of one file that is not committed.
    pub fn working_file_diff(
        &self,
        path: &str,
        sides: Result<FileSides, ReadError>,
        context: u32,
    ) -> (r: Result<FileDiff, ReadError>)
        requires
            sides matches Ok((before, after)) ==> can_compare(
                side_bytes(before),
                side_bytes(after),
            ),
        ensures
            match sides {
                Ok((before, after)) => r matches Ok(d) && compares(
                    d,
                    path@,
                    side_bytes(before),
                    side_bytes(after),
                    context as nat,
                ),
                Err(e) => r == Err::<FileDiff, ReadError>(e),
            },
    {
        match sides {
            Ok((before, after)) => {
                let old = bytes_or_none(before);
                let new = bytes_or_none(after);
                Ok(compare(path, &old, &new, context))
            },
            Err(e) => Err(e),
        }
    }

    /// What the working tree holds at `path`, from what was met there.
    pub fn read_worktree(&self, path: &str, entry: WorktreeEntry) -> (r: Result<
        Option<Vec<u8>>,
        ReadError,
    >)
        ensures
            !repository_relative(path@) ==> (r matches Err(e) && e.0@
                == "invalid repository-relative path"@),
            repository_relative(path@) ==> match entry_error(entry) {
                Some(t) => r matches Err(e) && e.0@ == t,
                None => match entry {
                    WorktreeEntry::Link(target) => r matches Ok(Some(b)) && b == target,
                    WorktreeEntry::File(bytes) => r matches Ok(Some(b)) && b == bytes,
                    _ => r matches Ok(None),
                },
            },
    {
        if !is_repository_relative(path) {
            return Err(ReadError("invalid repository-relative path".to_owned()));
        }
        match entry {
            WorktreeEntry::Missing => Ok(None),
            WorktreeEntry::Unreadable(e) => Err(
                ReadError::from_err("reading working file", e.as_str()),
            ),
            WorktreeEntry::DirectoryFailed(e) => Err(
                ReadError::from_err("resolving working directory", e.as_str()),
            ),
            WorktreeEntry::RepositoryFailed(e) => Err(
                ReadError::from_err("resolving repository", e.as_str()),
            ),
            WorktreeEntry::Outside => Err(ReadError("working path leaves repository".to_owned())),
            WorktreeEntry::Link(target) => Ok(Some(target)),
            WorktreeEntry::LinkFailed(e) => Err(
                ReadError::from_err("reading symbolic link", e.as_str()),
            ),
            WorktreeEntry::NotAFile => Err(
                ReadError("non-file entries cannot be diffed".to_owned()),
            ),
            WorktreeEntry::File(bytes) => match within_limit(bytes.len() as u64) {
                Ok(_) => Ok(Some(bytes)),
                Err(e) => Err(e),
            },
            WorktreeEntry::FileFailed(e) => Err(
                ReadError::from_err("reading working file", e.as_str()),
            ),
        }
    }
}

/// Law: an uncommitted change is listed under its path and stage: as added where
/// there was nothing before, as deleted where there is nothing after, else as
/// modified. Binary sides have no counts, and what could not be read says why.
pub proof fn law_entry_row(e: StatusEntry)
    requires
        vstd::utf8::valid_utf8(e.location@),
    ensures
        ({
            let s = entry_stat(e);
            &&& s.path == vstd::utf8::decode_utf8(e.location@)
            &&& s.stage == Some(e.stage)
            &&& e.sides matches Err(error) ==> s.unreadable == Some(error.0@) && s.insertions == 0
                && s.removals == 0
            &&& e.sides matches Ok((before, after)) ==> {
                &&& before is None ==> s.change is Added
                &&& before is Some && after is None ==> s.change is Deleted
                &&& before is Some && after is Some ==> s.change is Modified
                &&& s.binary <==> {
                    ||| (before matches Some(b) && b@.contains(0u8))
                    ||| (after matches Some(a) && a@.contains(0u8))
                }
                &&& s.binary ==> s.insertions == 0 && s.removals == 0 && s.unreadable is None
            }
        }),
{
    if let Ok((before, after)) = e.sides {
        assert(!Seq::<u8>::empty().contains(0u8));
    }
}

/// Law: a path that is not UTF-8 is listed by its quoted bytes, without a stage, so
/// that nothing tries to open it.
pub proof fn law_unreadable_name(e: StatusEntry)
    requires
        !vstd::utf8::valid_utf8(e.location@),
    ensures
        entry_stat(e).path == quoted_bytes(e.location@),
        entry_stat(e).stage is None,
        entry_stat(e).unreadable is Some,
        entry_stat(e).insertions == 0 && entry_stat(e).removals == 0,
{
}

/// Law: two sides are compared as text unless one of them holds a NUL byte; then the
/// diff says no more than that the file is binary.
pub proof fn law_binary_sides(
    d: FileDiff,
    path: Seq<char>,
    before: Seq<u8>,
    after: Seq<u8>,
    context: nat,
)
    requires
        compares(d, path, before, after, context),
    ensures
        d.path@ == path,
        d.binary <==> before.contains(0u8) || after.contains(0u8),
        d.binary ==> d.lines@.len() == 0 && !d.truncated,
{
}

/// Law: a path that goes up to a parent, that begins at the root or at `.` is not one
/// within the repository; a relative path without two dots in a row is, unless it
/// begins at `.`.
pub proof fn law_paths_stay_in_the_repository(a: Seq<char>, b: Seq<char>)
    ensures
        !repository_relative(seq!['/'] + a),
        !repository_relative(seq!['.', '/'] + a),
        !repository_relative(seq!['.', '.', '/'] + a),
        !repository_relative(a + seq!['/', '.', '.']),
        !repository_relative(a + seq!['/', '.', '.', '/'] + b),
        !repository_relative(seq!['.', '.']),
        !repository_relative(seq!['.']),
        ({
            &&& a.len() > 0 ==> a[0] != '/' && a[0] != '.'
            &&& forall|i: int| 0 <= i < a.len() - 1 ==> #[trigger] a[i] != '.' || a[i + 1] != '.'
        }) ==> repository_relative(a),
        a.len() > 1 && a[0] == '.' && a[1] != '.' && a[1] != '/' && (forall|i: int|
            0 <= i < a.len() - 1 ==> #[trigger] a[i] != '.' || a[i + 1] != '.')
            ==> repository_relative(a),
{
    assert(parent_at(seq!['.', '.', '/'] + a, 0));
    assert(parent_at(a + seq!['/', '.', '.'], a.len() as int + 1));
    assert(parent_at(a + seq!['/', '.', '.', '/'] + b, a.len() as int + 1));
    assert(parent_at(seq!['.', '.'], 0));
    assert((seq!['/'] + a)[0] == '/');
    assert((seq!['.', '/'] + a)[1] == '/');
    if forall|i: int| 0 <= i < a.len() - 1 ==> #[trigger] a[i] != '.' || a[i + 1] != '.' {
        assert forall|i: int| !#[trigger] parent_at(a, i) by {
            if 0 <= i < a.len() - 1 {
                assert(a[i] != '.' || a[i + 1] != '.');
            }
        }
    }
}

/// Law: what is met in the working tree is an error unless it is a file, a link or
/// nothing at all; a file of more than eight mebibytes is one too. The message names
/// what failed and then says how.
pub proof fn law_worktree_errors(e: Seq<char>, s: String, b: Vec<u8>)
    requires
        s@ == e,
    ensures
        entry_error(WorktreeEntry::Missing) is None,
        entry_error(WorktreeEntry::Link(b)) is None,
        entry_error(WorktreeEntry::File(b)) is Some <==> b@.len() > 8 * 1024 * 1024,
        entry_error(WorktreeEntry::NotAFile) is Some,
        entry_error(WorktreeEntry::Outside) is Some,
        entry_error(WorktreeEntry::Unreadable(s)) == Some("reading working file: "@ + e),
        entry_error(WorktreeEntry::FileFailed(s)) == Some("reading working file: "@ + e),
        entry_error(WorktreeEntry::DirectoryFailed(s)) == Some(
            "resolving working directory: "@ + e,
        ),
        entry_error(WorktreeEntry::RepositoryFailed(s)) == Some("resolving repository: "@ + e),
        entry_error(WorktreeEntry::LinkFailed(s)) == Some("reading symbolic link: "@ + e),
{
    reveal_strlit(": ");
    reveal_strlit("reading working file");
    reveal_strlit("reading working file: ");
    reveal_strlit("resolving working directory");
    reveal_strlit("resolving working directory: ");
    reveal_strlit("resolving repository");
    reveal_strlit("resolving repository: ");
    reveal_strlit("reading symbolic link");
    reveal_strlit("reading symbolic link: ");
    assert("reading working file"@ + ": "@ =~= "reading working file: "@);
    assert("resolving working directory"@ + ": "@ =~= "resolving working directory: "@);
    assert("resolving repository"@ + ": "@ =~= "resolving repository: "@);
    assert("reading symbolic link"@ + ": "@ =~= "reading symbolic link: "@);
}

} // verus!
