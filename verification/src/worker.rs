//! What the diff thread is asked for and what it answers.
//!
//! The thread itself and its channels belong to the host; the requests, the
//! replies and the highlighting that goes with a reply are here.
use crate::git::commit::ObjectId;
use crate::git::diff::{CommitDiff, DiffLine, FileDiff};
use crate::style::Style;
use crate::ui::file_diff;
use crate::ui::highlight;
use crate::ui::highlight::{Highlighter, Palette};
use vstd::prelude::*;

verus! {

/// How many unchanged lines a file diff keeps around each change.
pub const DIFF_CONTEXT: u32 = 3;

/// How many lines of one diff are highlighted; the rest is painted plain.
pub const MAX_HIGHLIGHT_LINES: usize = 2_000;

/// A file's diff with each line's text cut into styled pieces. There may be
/// fewer lists of pieces than lines.
#[derive(Debug, Clone, PartialEq, Eq)]
pub struct HighlightedDiff {
    pub diff: FileDiff,
    pub spans: Vec<Vec<(Style, String)>>,
}

impl HighlightedDiff {
    /// A diff and its styled pieces.
    pub fn new(diff: FileDiff, spans: Vec<Vec<(Style, String)>>) -> (r: Self)
        ensures
            r.diff == diff,
            r.spans == spans,
    {
        HighlightedDiff { diff, spans }
    }
}

/// Work for the diff thread.
#[derive(Debug, Clone, PartialEq, Eq)]
pub enum Request {
    /// The changed-file list and totals for one commit.
    Commit(ObjectId),
    /// One file's diff within one commit.
    File { commit: ObjectId, path: String },
}

/// A finished computation. Errors are carried as text: they are only ever shown
/// to the user.
#[derive(Debug)]
#[allow(inconsistent_fields)]
pub enum Reply {
    Commit { id: ObjectId, result: Result<CommitDiff, String> },
    File { commit: ObjectId, path: String, result: Result<HighlightedDiff, String> },
}

/// What a file is being read with after its first `n` lines.
pub open spec fn reading_after(
    palette: Palette,
    path: Seq<char>,
    lines: Seq<DiffLine>,
    n: int,
) -> highlight::Reading
    decreases n,
{
    if n <= 0 {
        None
    } else {
        highlight::line_read(
            reading_after(palette, path, lines, n - 1),
            palette.known_syntaxes(),
            palette.colors(),
            path,
            file_diff::line_text(lines[n - 1]),
        ).1
    }
}

/// The styled pieces of line `i`, once the lines above it were read.
pub open spec fn line_spans(palette: Palette, path: Seq<char>, lines: Seq<DiffLine>, i: int) -> Seq<
    (Style, Seq<char>),
> {
    highlight::line_read(
        reading_after(palette, path, lines, i),
        palette.known_syntaxes(),
        palette.colors(),
        path,
        file_diff::line_text(lines[i]),
    ).0
}

/// Highlights a diff's lines in order, from the first up to
/// `MAX_HIGHLIGHT_LINES`, starting the file over.
pub fn highlight_diff<'a>(highlighter: &mut Highlighter<'a>, diff: FileDiff) -> (r: HighlightedDiff)
    requires
        old(highlighter).wf(),
    ensures
        final(highlighter).wf(),
        final(highlighter).palette() == old(highlighter).palette(),
        r.diff == diff,
        r.spans@.len() == (if diff.lines@.len() <= MAX_HIGHLIGHT_LINES {
            diff.lines@.len()
        } else {
            MAX_HIGHLIGHT_LINES as nat
        }),
        forall|i: int|
            0 <= i < r.spans@.len() ==> highlight::spans_view((#[trigger] r.spans@[i])@)
                == line_spans(old(highlighter).palette(), diff.path@, diff.lines@, i),
        forall|i: int|
            0 <= i < r.spans@.len() ==> highlight::spans_text(
                highlight::spans_view((#[trigger] r.spans@[i])@),
            ) == file_diff::line_text(diff.lines@[i]),
{
    let ghost palette = highlighter.palette();
    highlighter.reset();
    let total: usize = if diff.lines.len() <= MAX_HIGHLIGHT_LINES {
        diff.lines.len()
    } else {
        MAX_HIGHLIGHT_LINES
    };
    let mut spans: Vec<Vec<(Style, String)>> = Vec::new();
    let mut i: usize = 0;
    while i < total
        invariant
            i <= total <= diff.lines.len(),
            highlighter.wf(),
            highlighter.palette() == palette,
            highlighter.reading() == reading_after(palette, diff.path@, diff.lines@, i as int),
            spans@.len() == i,
            forall|k: int|
                0 <= k < i ==> highlight::spans_view((#[trigger] spans@[k])@) == line_spans(
                    palette,
                    diff.path@,
                    diff.lines@,
                    k,
                ),
            forall|k: int|
                0 <= k < i ==> highlight::spans_text(
                    highlight::spans_view((#[trigger] spans@[k])@),
                ) == file_diff::line_text(diff.lines@[k]),
        decreases total - i,
    {
        let words = match &diff.lines[i] {
            DiffLine::Context { text, .. } => text.as_str(),
            DiffLine::Added { text, .. } => text.as_str(),
            DiffLine::Removed { text, .. } => text.as_str(),
        };
        let line = highlighter.line(diff.path.as_str(), words);
        spans.push(line);
        i += 1;
    }
    HighlightedDiff { diff, spans }
}

} // verus!
