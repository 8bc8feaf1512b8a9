//! The overlay's own state: what is loaded, what is selected, what is on
//! screen, and how a key changes those.
use crate::git::commit::CommitInfo;
use crate::git::diff::CommitDiff;
use crate::git::refs::RefInfo;
use crate::worker::HighlightedDiff;
use vstd::prelude::*;

pub mod frame;
pub mod graph;
pub mod keys;
pub mod laws;
pub mod model;
pub mod render;

verus! {

/// Rows laid out before the first frame: enough to fill any terminal several
/// times over.
pub const PAGE_FIRST: usize = 500;

/// Rows added each time the selection approaches the loaded tail.
pub const PAGE_MORE: usize = 2000;

/// How close the selection may get to the tail before more is loaded.
pub const PAGE_MARGIN: usize = 200;

/// Rows one wheel notch moves.
pub const WHEEL_ROWS: isize = 3;

/// What the host should do after handing over an event. A host treats an
/// outcome it does not know as handled.
#[derive(Debug, PartialEq, Eq)]
#[non_exhaustive]
pub enum Outcome {
    /// Handled. The host keeps the overlay open.
    Consumed,
    /// Handled, and something changed that the host cannot see by comparing the
    /// selection: the frame must be repainted.
    Redraw,
    /// Close the overlay.
    Dismiss,
    /// Put this on the clipboard.
    Copy(String),
    /// Look up which commit `HEAD` is at and hand it to `go_to_head`.
    FindHead,
    /// Read the repository again and hand it to `reread`.
    Reread,
}

/// What the detail pane has for the selected commit.
#[derive(Debug, Clone, PartialEq, Eq)]
pub enum DetailState {
    /// A request is outstanding.
    Loading,
    Ready(CommitDiff),
    /// The diff failed; the message is shown in the pane.
    Failed(String),
    /// The worker thread is gone. The graph still works.
    Unavailable,
}

/// Which layer of the overlay is on top. `q` and `Esc` take one layer away, and
/// only the bottom one closes the overlay.
#[derive(Debug, Clone, Copy, PartialEq, Eq, Structural)]
pub enum Mode {
    /// The three panes.
    Normal,
    /// One file's diff, filling the overlay.
    FileDiff,
    /// The search dropdown, over the top of the graph pane.
    Search,
    /// The key-table popup, over the whole overlay. Every key closes it.
    Help,
}

/// What the file diff view has.
#[derive(Debug, Clone, PartialEq, Eq)]
pub enum FileDiffState {
    /// No file has been opened yet.
    Closed,
    /// A request for this path is outstanding.
    Loading(String),
    /// The diff, with its lines already highlighted.
    Ready(HighlightedDiff),
    Failed(String),
}

/// How the thread that computes diffs is doing.
#[derive(Debug, Clone, Copy, PartialEq, Eq, Structural)]
pub enum Worker {
    /// It never started.
    Absent,
    Alive,
    Dead,
}

/// One step of the history walk.
#[derive(Debug)]
pub enum WalkItem {
    Commit(CommitInfo),
    Failed(String),
}

/// The history walk, newest commit first.
#[derive(Debug)]
pub enum Walk {
    /// It could not begin.
    Failed(String),
    Items(Vec<WalkItem>),
}

/// What was read of a repository.
#[derive(Debug)]
pub struct Reading {
    /// How many uncommitted changes there are, where that could be told.
    pub changes: Option<usize>,
    pub walk: Walk,
    /// The branches and tags, where they could be read.
    pub refs: Option<Vec<RefInfo>>,
}

} // verus!
