//! The overlay as values: what a key, the pointer or a reply makes of it.
use crate::geometry;
use crate::git::commit::{CommitInfo, ObjectId};
use crate::git::diff::FileStat;
use crate::git::graph;
use crate::git::graph::{CellType, GraphNode, Layout};
use crate::git::refs;
use crate::git::refs::{Decorated, RefInfo};
use crate::input::{KeyCode, KeyEvent, MouseEvent, MouseEventKind, CONTROL, NONE, SHIFT};
use crate::search;
use crate::state::{
    DetailState, FileDiffState, Mode, Outcome, Reading, Walk, WalkItem, Worker, PAGE_FIRST,
    PAGE_MARGIN, PAGE_MORE, WHEEL_ROWS,
};
use crate::ui::layout;
use crate::ui::layout::{LayoutMap, Pane};
use crate::worker::{HighlightedDiff, Reply, Request};
use vstd::prelude::*;

verus! {

/// A row, by view.
pub struct Row {
    pub commit: Option<CommitInfo>,
    pub lane: usize,
    pub color_index: usize,
    pub cells: Seq<CellType>,
    pub uncommitted: Option<usize>,
}

/// A row, by view.
pub open spec fn row_view(n: GraphNode) -> Row {
    Row {
        commit: n.commit,
        lane: n.lane,
        color_index: n.color_index,
        cells: n.cells@,
        uncommitted: n.uncommitted,
    }
}

/// Rows, by view.
pub open spec fn rows_view(nodes: Seq<GraphNode>) -> Seq<Row> {
    nodes.map_values(|n: GraphNode| row_view(n))
}

/// What the detail panes have.
pub enum Detail {
    Loading,
    Ready { files: Seq<FileStat>, insertions: u32, removals: u32 },
    Failed(Seq<char>),
    Unavailable,
}

/// What the detail panes have.
pub open spec fn detail_view(d: DetailState) -> Detail {
    match d {
        DetailState::Loading => Detail::Loading,
        DetailState::Ready(c) => Detail::Ready {
            files: c.files@,
            insertions: c.insertions,
            removals: c.removals,
        },
        DetailState::Failed(msg) => Detail::Failed(msg@),
        DetailState::Unavailable => Detail::Unavailable,
    }
}

/// What the file diff view has.
pub enum FileView {
    Closed,
    Loading(Seq<char>),
    Ready(HighlightedDiff),
    Failed(Seq<char>),
}

/// What the file diff view has.
pub open spec fn file_view(d: FileDiffState) -> FileView {
    match d {
        FileDiffState::Closed => FileView::Closed,
        FileDiffState::Loading(path) => FileView::Loading(path@),
        FileDiffState::Ready(h) => FileView::Ready(h),
        FileDiffState::Failed(msg) => FileView::Failed(msg@),
    }
}

/// What the worker is asked for.
pub enum Asked {
    Commit(ObjectId),
    File(ObjectId, Seq<char>),
}

/// A request, by view.
pub open spec fn asked_view(r: Request) -> Asked {
    match r {
        Request::Commit(id) => Asked::Commit(id),
        Request::File { commit, path } => Asked::File(commit, path@),
    }
}

/// Requests, by view.
pub open spec fn all_asked(v: Seq<Request>) -> Seq<Asked> {
    v.map_values(|r: Request| asked_view(r))
}

/// What the host is told.
pub enum Said {
    Consumed,
    Redraw,
    Dismiss,
    Copy(Seq<char>),
    FindHead,
    Reread,
}

/// An outcome, by view.
pub open spec fn said(o: Outcome) -> Said {
    match o {
        Outcome::Consumed => Said::Consumed,
        Outcome::Redraw => Said::Redraw,
        Outcome::Dismiss => Said::Dismiss,
        Outcome::Copy(s) => Said::Copy(s@),
        Outcome::FindHead => Said::FindHead,
        Outcome::Reread => Said::Reread,
    }
}

/// What a file diff view shows when there is no worker to ask.
pub open spec fn worker_gone() -> Seq<char> {
    "diffs are unavailable"@
}

/// The refs of every commit.
pub open spec fn labels_of(groups: Seq<Decorated>) -> Map<ObjectId, Seq<RefInfo>> {
    Map::new(|id: ObjectId| true, |id: ObjectId| refs::refs_of(groups, id))
}

/// The refs of every commit, given all refs.
pub open spec fn labels_from(all: Seq<RefInfo>) -> Map<ObjectId, Seq<RefInfo>> {
    Map::new(|id: ObjectId| true, |id: ObjectId| refs::labelling(all, id))
}

/// The overlay.
pub struct Model {
    /// The working tree's root.
    pub root: Seq<char>,
    /// The rows laid out.
    pub rows: Seq<Row>,
    pub lanes: Layout,
    /// Commits read but not yet laid out.
    pub pending: Seq<CommitInfo>,
    pub exhausted: bool,
    pub labels: Map<ObjectId, Seq<RefInfo>>,
    pub selected: nat,
    /// The first row drawn.
    pub first_row: nat,
    /// The rows the last frame had room for.
    pub viewport: nat,
    pub error: Option<Seq<char>>,
    pub worker: Worker,
    /// What the worker is to be asked for, in order.
    pub asked: Seq<Asked>,
    pub detail: Detail,
    /// The commit that the detail panes are for.
    pub detail_for: Option<ObjectId>,
    pub layout: LayoutMap,
    pub detail_scroll: nat,
    pub detail_rows: nat,
    pub focus: Pane,
    pub file_selected: nat,
    pub file_scroll: nat,
    pub mode: Mode,
    pub file_diff: FileView,
    /// The commit and path that the file diff view is for.
    pub file_diff_for: Option<(ObjectId, Seq<char>)>,
    pub file_diff_scroll: nat,
    pub file_diff_rows: nat,
    pub typed: Seq<char>,
    pub found: Seq<usize>,
    pub highlighted: nat,
    pub show_remotes: bool,
    pub show_tags: bool,
}

/// `at` moved by `delta`, held at either end of what a `usize` can hold.
pub open spec fn shifted(at: nat, delta: int) -> nat {
    geometry::least(geometry::most(at + delta, 0), usize::MAX as int) as nat
}

/// The last index of a list of `n`; zero for an empty one.
pub open spec fn last_of(n: nat) -> nat {
    geometry::most(n - 1, 0) as nat
}

/// The smaller of two.
pub open spec fn at_most(a: nat, b: nat) -> nat {
    geometry::least(a as int, b as int) as nat
}

/// The larger of two.
pub open spec fn at_least(a: nat, b: nat) -> nat {
    geometry::most(a as int, b as int) as nat
}

/// Every row's score against a query.
pub open spec fn row_scores(rows: Seq<Row>, query: Seq<char>) -> Seq<Option<i64>> {
    rows.map_values(|r: Row| search::commit_score(r.commit, query))
}

/// Whether any of a commit's refs is shown.
pub open spec fn any_shown(list: Seq<RefInfo>, remotes: bool, tags: bool) -> bool {
    exists|i: int| 0 <= i < list.len() && (#[trigger] list[i]).kind.shown(remotes, tags)
}

/// The commits of a walk up to its first failure.
pub open spec fn walked(items: Seq<WalkItem>) -> Seq<CommitInfo>
    decreases items.len(),
{
    if items.len() == 0 {
        Seq::empty()
    } else {
        match items[0] {
            WalkItem::Commit(c) => seq![c] + walked(items.drop_first()),
            WalkItem::Failed(_) => Seq::empty(),
        }
    }
}

/// A walk's first failure.
pub open spec fn walk_error(items: Seq<WalkItem>) -> Option<Seq<char>>
    decreases items.len(),
{
    if items.len() == 0 {
        None
    } else {
        match items[0] {
            WalkItem::Commit(_) => walk_error(items.drop_first()),
            WalkItem::Failed(e) => Some(e@),
        }
    }
}

impl Model {
    /// Nothing loaded, the top of everything shown.
    pub open spec fn fresh(root: Seq<char>, labels: Map<ObjectId, Seq<RefInfo>>, worker: Worker) -> Model {
        Model {
            root,
            rows: Seq::empty(),
            lanes: Layout {
                lanes: Seq::empty(),
                colors: Map::empty(),
                max_lane: 0,
                next_color: 0,
            },
            pending: Seq::empty(),
            exhausted: false,
            labels,
            selected: 0,
            first_row: 0,
            viewport: 1,
            error: None,
            worker,
            asked: Seq::empty(),
            detail: Detail::Unavailable,
            detail_for: None,
            layout: layout::empty_layout(),
            detail_scroll: 0,
            detail_rows: 0,
            focus: Pane::Graph,
            file_selected: 0,
            file_scroll: 0,
            mode: Mode::Normal,
            file_diff: FileView::Closed,
            file_diff_for: None,
            file_diff_scroll: 0,
            file_diff_rows: 0,
            typed: Seq::empty(),
            found: Seq::empty(),
            highlighted: 0,
            show_remotes: true,
            show_tags: true,
        }
    }

    /// The next pending commit laid out.
    pub open spec fn fed_one(self) -> Model {
        let c = self.pending[0];
        let lane = graph::lane_for(self.lanes.lanes, c.id);
        let color = graph::color_for(self.lanes, lane);
        Model {
            rows: self.rows.push(
                Row {
                    commit: Some(c),
                    lane: lane as usize,
                    color_index: color as usize,
                    cells: graph::row_of(self.lanes, lane, color),
                    uncommitted: None,
                },
            ),
            lanes: graph::fed(self.lanes, c.id, c.parents@),
            pending: self.pending.drop_first(),
            ..self
        }
    }

    /// Up to `n` pending commits laid out.
    pub open spec fn fed_many(self, n: nat) -> Model
        decreases n,
    {
        if n == 0 || self.pending.len() == 0 {
            self
        } else {
            self.fed_one().fed_many((n - 1) as nat)
        }
    }

    /// Up to `n` more commits laid out; running out of them is remembered.
    pub open spec fn more(self, n: nat) -> Model {
        if self.exhausted {
            self
        } else if self.pending.len() < n {
            Model { exhausted: true, ..self.fed_many(n) }
        } else {
            self.fed_many(n)
        }
    }

    /// How much loading is left.
    pub open spec fn left(self) -> nat {
        if self.exhausted {
            0
        } else {
            self.pending.len() + 1
        }
    }

    /// Enough loaded that row `index` is not near the tail.
    pub open spec fn around(self, index: nat) -> Model
        decreases self.left(),
    {
        if !self.exhausted && index + PAGE_MARGIN >= self.rows.len() {
            let next = self.more(PAGE_MORE as nat);
            if next.left() < self.left() {
                next.around(index)
            } else {
                self
            }
        } else {
            self
        }
    }

    /// Everything loaded.
    pub open spec fn all_loaded(self) -> Model
        decreases self.left(),
    {
        if !self.exhausted {
            let next = self.more(PAGE_MORE as nat);
            if next.left() < self.left() {
                next.all_loaded()
            } else {
                self
            }
        } else {
            self
        }
    }

    /// The commit on row `index`.
    pub open spec fn commit_at(self, index: nat) -> Option<CommitInfo> {
        if index < self.rows.len() {
            self.rows[index as int].commit
        } else {
            None
        }
    }

    /// The selected row's commit.
    pub open spec fn selected_id(self) -> Option<ObjectId> {
        match self.commit_at(self.selected) {
            Some(c) => Some(c.id),
            None => None,
        }
    }

    /// Whether the diff that was asked for, if one was, is the selected commit's.
    pub open spec fn asks_for_selected(self) -> bool {
        self.detail_for is None || self.detail_for == self.selected_id()
    }

    /// The diff of the selected row asked for, unless it was already. A row
    /// without a commit has an empty one.
    pub open spec fn requested(self) -> Model {
        match self.selected_id() {
            None => Model {
                detail: Detail::Ready { files: Seq::empty(), insertions: 0, removals: 0 },
                detail_for: None,
                ..self
            },
            Some(id) => if self.detail_for == Some(id) {
                self
            } else if self.worker == Worker::Alive {
                Model {
                    asked: self.asked.push(Asked::Commit(id)),
                    detail_for: Some(id),
                    detail: Detail::Loading,
                    ..self
                }
            } else {
                Model { detail: Detail::Unavailable, detail_for: None, ..self }
            },
        }
    }

    /// The first row drawn once `index` was selected: moved only as far as
    /// keeps the selection in the viewport.
    pub open spec fn first_row_for(self, index: nat) -> nat {
        if index < self.first_row {
            index
        } else if index >= self.first_row + self.viewport {
            (index + 1 - self.viewport) as nat
        } else {
            self.first_row
        }
    }

    /// Row `index` selected, or the last row where there are fewer. The lower
    /// panes start at the top for a different row.
    pub open spec fn select(self, index: nat) -> Model {
        let g = self.around(index);
        let next = at_most(index, last_of(g.rows.len()));
        let top = if next != g.selected {
            Model { detail_scroll: 0, file_selected: 0, file_scroll: 0, ..g }
        } else {
            g
        };
        Model { selected: next, first_row: g.first_row_for(next), ..top }.requested()
    }

    /// How many files are listed.
    pub open spec fn file_count(self) -> nat {
        match self.detail {
            Detail::Ready { files, .. } => files.len(),
            _ => 0,
        }
    }

    /// The first file drawn once `index` was selected.
    pub open spec fn file_scroll_for(self, index: nat) -> nat {
        let visible = geometry::most(self.layout.files.height - 2, 0) as nat;
        if index < self.file_scroll {
            index
        } else if visible > 0 && index >= self.file_scroll + visible {
            (index + 1 - visible) as nat
        } else {
            self.file_scroll
        }
    }

    /// How far the detail pane scrolls.
    pub open spec fn detail_end(self) -> nat {
        let visible = geometry::most(self.layout.detail.height - 2, 1) as nat;
        geometry::most(self.detail_rows - visible, 0) as nat
    }

    /// `pane` moved by `delta` rows.
    pub open spec fn moved(self, pane: Pane, delta: int) -> (Model, Said) {
        match pane {
            Pane::Graph => (self.select(shifted(self.selected, delta)), Said::Consumed),
            Pane::Files => {
                let next = at_most(shifted(self.file_selected, delta), last_of(self.file_count()));
                if next == self.file_selected {
                    (self, Said::Consumed)
                } else {
                    (
                        Model {
                            file_selected: next,
                            file_scroll: self.file_scroll_for(next),
                            ..self
                        },
                        Said::Redraw,
                    )
                }
            },
            Pane::Detail => {
                let next = at_most(shifted(self.detail_scroll, delta), self.detail_end());
                if next == self.detail_scroll {
                    (self, Said::Consumed)
                } else {
                    (Model { detail_scroll: next, ..self }, Said::Redraw)
                }
            },
        }
    }

    /// Whether row `index` carries a ref that is shown.
    pub open spec fn decorated(self, index: nat) -> bool {
        match self.commit_at(index) {
            Some(c) => any_shown(self.labels[c.id], self.show_remotes, self.show_tags),
            None => false,
        }
    }

    /// The next decorated row below `index`.
    pub open spec fn next_decorated(self, index: nat) -> Option<nat>
        decreases self.rows.len() - index,
    {
        if index + 1 >= self.rows.len() {
            None
        } else if self.decorated(index + 1) {
            Some(index + 1)
        } else {
            self.next_decorated(index + 1)
        }
    }

    /// The next decorated row above `index`.
    pub open spec fn previous_decorated(self, index: nat) -> Option<nat>
        decreases index,
    {
        if index == 0 {
            None
        } else if self.decorated((index - 1) as nat) {
            Some((index - 1) as nat)
        } else {
            self.previous_decorated((index - 1) as nat)
        }
    }

    /// The next decorated row selected; nothing where there is none that way.
    pub open spec fn jumped(self, forward: bool) -> Model {
        let target = if forward {
            self.next_decorated(self.selected)
        } else {
            self.previous_decorated(self.selected)
        };
        match target {
            Some(i) => self.select(i),
            None => self,
        }
    }

    /// The selected file opened in the file diff view.
    pub open spec fn opened(self, commit: ObjectId, path: Seq<char>) -> Model {
        let g = Model { mode: Mode::FileDiff, file_diff_scroll: 0, ..self };
        let want = Some((commit, path));
        if self.file_diff_for == want && (self.file_diff is Ready || self.file_diff is Loading) {
            g
        } else if self.worker == Worker::Alive {
            Model {
                asked: self.asked.push(Asked::File(commit, path)),
                file_diff: FileView::Loading(path),
                file_diff_for: want,
                ..g
            }
        } else {
            Model { file_diff: FileView::Failed(worker_gone()), file_diff_for: None, ..g }
        }
    }

    /// Enter: the selected file opened, from the files pane alone.
    pub open spec fn entered(self) -> (Model, Said) {
        match (self.selected_id(), self.detail) {
            (Some(commit), Detail::Ready { files, .. }) if self.focus == Pane::Files
                && self.file_selected < files.len() => (
                self.opened(commit, files[self.file_selected as int].path@),
                Said::Redraw,
            ),
            _ => (self, Said::Consumed),
        }
    }

    /// How far the file diff view scrolls.
    pub open spec fn diff_end(self) -> nat {
        let total = match self.file_diff {
            FileView::Ready(h) => h.diff.lines@.len(),
            _ => 0,
        };
        geometry::most(total - at_least(self.file_diff_rows, 1), 0) as nat
    }

    /// The file diff view scrolled by `delta` lines.
    pub open spec fn scrolled(self, delta: int) -> (Model, Said) {
        let next = at_most(shifted(self.file_diff_scroll, delta), self.diff_end());
        if next == self.file_diff_scroll {
            (self, Said::Consumed)
        } else {
            (Model { file_diff_scroll: next, ..self }, Said::Redraw)
        }
    }

    /// The search box with this query.
    pub open spec fn searched(self, query: Seq<char>) -> Model {
        Model {
            typed: query,
            found: search::found_by(row_scores(self.rows, query), query),
            highlighted: 0,
            ..self
        }
    }

    /// The next match highlighted.
    pub open spec fn next_match(self) -> Model {
        Model { highlighted: search::one_on(self.highlighted, self.found.len()), ..self }
    }

    /// The match before highlighted.
    pub open spec fn previous_match(self) -> Model {
        Model { highlighted: search::one_back(self.highlighted, self.found.len()), ..self }
    }

    /// A key while the search box is open.
    pub open spec fn search_pressed(self, key: KeyEvent) -> (Model, Said) {
        let m = key.modifiers;
        match key.code {
            KeyCode::Esc => (Model { mode: Mode::Normal, ..self }, Said::Redraw),
            KeyCode::Enter => if m == NONE {
                let g = Model { mode: Mode::Normal, ..self };
                if self.found.len() > 0 {
                    (g.select(self.found[self.highlighted as int] as nat), Said::Redraw)
                } else {
                    (g, Said::Redraw)
                }
            } else {
                (self, Said::Consumed)
            },
            KeyCode::Backspace => if m == NONE {
                (
                    self.searched(
                        if self.typed.len() > 0 {
                            self.typed.drop_last()
                        } else {
                            self.typed
                        },
                    ),
                    Said::Redraw,
                )
            } else {
                (self, Said::Consumed)
            },
            KeyCode::Down => if m == NONE {
                (self.next_match(), Said::Redraw)
            } else {
                (self, Said::Consumed)
            },
            KeyCode::Up => if m == NONE {
                (self.previous_match(), Said::Redraw)
            } else {
                (self, Said::Consumed)
            },
            KeyCode::Char(c) => if m == CONTROL && c == 'j' {
                (self.next_match(), Said::Redraw)
            } else if m == CONTROL && c == 'k' {
                (self.previous_match(), Said::Redraw)
            } else if m == NONE || m == SHIFT {
                (self.searched(self.typed.push(c)), Said::Redraw)
            } else {
                (self, Said::Consumed)
            },
            _ => (self, Said::Consumed),
        }
    }

    /// A key while the file diff view is open.
    pub open spec fn diff_pressed(self, key: KeyEvent) -> (Model, Said) {
        let m = key.modifiers;
        let page = at_least(self.file_diff_rows, 1);
        let half = at_least(page / 2, 1);
        let closed = (Model { mode: Mode::Normal, ..self }, Said::Redraw);
        match key.code {
            KeyCode::Esc => closed,
            KeyCode::Char(c) => if c == 'q' {
                closed
            } else if m == NONE && c == 'j' {
                self.scrolled(1)
            } else if m == NONE && c == 'k' {
                self.scrolled(-1)
            } else if m == CONTROL && c == 'd' {
                self.scrolled(half as int)
            } else if m == CONTROL && c == 'u' {
                self.scrolled(-half)
            } else if m == NONE && c == 'g' {
                self.scrolled(isize::MIN as int)
            } else if m == SHIFT && c == 'G' {
                self.scrolled(isize::MAX as int)
            } else {
                (self, Said::Consumed)
            },
            KeyCode::Down => if m == NONE {
                self.scrolled(1)
            } else {
                (self, Said::Consumed)
            },
            KeyCode::Up => if m == NONE {
                self.scrolled(-1)
            } else {
                (self, Said::Consumed)
            },
            KeyCode::PageDown => if m == NONE {
                self.scrolled(page as int)
            } else {
                (self, Said::Consumed)
            },
            KeyCode::PageUp => if m == NONE {
                self.scrolled(-page)
            } else {
                (self, Said::Consumed)
            },
            KeyCode::Home => if m == NONE {
                self.scrolled(isize::MIN as int)
            } else {
                (self, Said::Consumed)
            },
            KeyCode::End => self.scrolled(isize::MAX as int),
            _ => (self, Said::Consumed),
        }
    }

    /// A letter while the panes are on top.
    pub open spec fn letter_pressed(self, c: char, m: u8) -> (Model, Said) {
        let half = at_least(at_least(self.viewport, 1) / 2, 1);
        if c == '@' {
            (self, Said::FindHead)
        } else if c == '/' {
            (
                Model {
                    mode: Mode::Search,
                    typed: Seq::empty(),
                    found: Seq::empty(),
                    highlighted: 0,
                    ..self
                },
                Said::Redraw,
            )
        } else if c == '?' {
            (Model { mode: Mode::Help, ..self }, Said::Redraw)
        } else if c == 'q' {
            (self, Said::Dismiss)
        } else if m == CONTROL {
            if c == 'd' {
                self.moved(self.focus, half as int)
            } else if c == 'u' {
                self.moved(self.focus, -half)
            } else {
                (self, Said::Consumed)
            }
        } else if m == SHIFT {
            if c == 'G' {
                let g = self.all_loaded();
                (g.select(last_of(g.rows.len())), Said::Consumed)
            } else if c == 'R' {
                (self, Said::Reread)
            } else {
                (self, Said::Consumed)
            }
        } else if m == NONE {
            if c == 'j' {
                self.moved(self.focus, 1)
            } else if c == 'k' {
                self.moved(self.focus, -1)
            } else if c == 'g' {
                (self.select(0), Said::Consumed)
            } else if c == 'y' {
                match self.selected_id() {
                    Some(id) => (self, Said::Copy(id.text())),
                    None => (self, Said::Consumed),
                }
            } else if c == ']' {
                (self.jumped(true), Said::Consumed)
            } else if c == '[' {
                (self.jumped(false), Said::Consumed)
            } else if c == 'o' {
                (Model { show_remotes: !self.show_remotes, ..self }, Said::Consumed)
            } else if c == 't' {
                (Model { show_tags: !self.show_tags, ..self }, Said::Consumed)
            } else {
                (self, Said::Consumed)
            }
        } else {
            (self, Said::Consumed)
        }
    }

    /// A key while the panes are on top.
    pub open spec fn pane_pressed(self, key: KeyEvent) -> (Model, Said) {
        let m = key.modifiers;
        let page = at_least(self.viewport, 1);
        match key.code {
            KeyCode::Tab => if m == NONE {
                (
                    Model {
                        focus: match self.focus {
                            Pane::Graph => Pane::Detail,
                            Pane::Detail => Pane::Files,
                            Pane::Files => Pane::Graph,
                        },
                        ..self
                    },
                    Said::Redraw,
                )
            } else {
                (self, Said::Consumed)
            },
            KeyCode::BackTab => (
                Model {
                    focus: match self.focus {
                        Pane::Graph => Pane::Files,
                        Pane::Files => Pane::Detail,
                        Pane::Detail => Pane::Graph,
                    },
                    ..self
                },
                Said::Redraw,
            ),
            KeyCode::Down => if m == NONE {
                self.moved(self.focus, 1)
            } else {
                (self, Said::Consumed)
            },
            KeyCode::Up => if m == NONE {
                self.moved(self.focus, -1)
            } else {
                (self, Said::Consumed)
            },
            KeyCode::PageDown => if m == NONE {
                self.moved(self.focus, page as int)
            } else {
                (self, Said::Consumed)
            },
            KeyCode::PageUp => if m == NONE {
                self.moved(self.focus, -page)
            } else {
                (self, Said::Consumed)
            },
            KeyCode::Home => if m == NONE {
                (self.select(0), Said::Consumed)
            } else {
                (self, Said::Consumed)
            },
            KeyCode::End => {
                let g = self.all_loaded();
                (g.select(last_of(g.rows.len())), Said::Consumed)
            },
            KeyCode::Enter => if m == NONE {
                self.entered()
            } else {
                (self, Said::Consumed)
            },
            KeyCode::Esc => (self, Said::Dismiss),
            KeyCode::Char(c) => self.letter_pressed(c, m),
            _ => (self, Said::Consumed),
        }
    }

    /// A key. The layer on top has it to itself.
    pub open spec fn pressed(self, key: KeyEvent) -> (Model, Said) {
        match self.mode {
            Mode::FileDiff => self.diff_pressed(key),
            Mode::Search => self.search_pressed(key),
            Mode::Help => (Model { mode: Mode::Normal, ..self }, Said::Redraw),
            Mode::Normal => self.pane_pressed(key),
        }
    }

    /// A pointer event. A layer over the panes keeps it from them.
    pub open spec fn pointed(self, ev: MouseEvent) -> (Model, Said) {
        let same = (self, Said::Consumed);
        if self.mode == Mode::FileDiff {
            match ev.kind {
                MouseEventKind::ScrollDown => self.scrolled(WHEEL_ROWS as int),
                MouseEventKind::ScrollUp => self.scrolled(-WHEEL_ROWS),
                _ => same,
            }
        } else if self.mode == Mode::Search || self.mode == Mode::Help {
            same
        } else {
            let over = layout::pane_over(self.layout, ev.column as int, ev.row as int);
            let pane = match over {
                Some(p) => p,
                None => self.focus,
            };
            match ev.kind {
                MouseEventKind::Down => if over is Some && self.focus != pane {
                    (Model { focus: pane, ..self }, Said::Redraw)
                } else {
                    same
                },
                MouseEventKind::ScrollDown => self.moved(pane, WHEEL_ROWS as int),
                MouseEventKind::ScrollUp => self.moved(pane, -WHEEL_ROWS),
                MouseEventKind::Other => same,
            }
        }
    }

    /// Where `HEAD` is among the rows from `from` on.
    pub open spec fn row_of_commit(self, id: ObjectId, from: nat) -> Option<nat>
        decreases self.rows.len() - from,
    {
        if from >= self.rows.len() {
            None
        } else if self.rows[from as int].commit is Some && self.rows[from as int].commit->0.id
            == id {
            Some(from)
        } else {
            self.row_of_commit(id, from + 1)
        }
    }

    /// The row of `head` selected, where one is loaded.
    pub open spec fn gone_to(self, head: Option<ObjectId>) -> Model {
        match head {
            Some(id) => match self.row_of_commit(id, 0) {
                Some(i) => self.select(i),
                None => self,
            },
            None => self,
        }
    }

    /// The history as it was read, nothing of it laid out but the row of the
    /// uncommitted changes.
    pub open spec fn reloaded(self, changes: Option<usize>, walk: Walk) -> Model {
        let first = Row {
            commit: None,
            lane: 0,
            color_index: 0,
            cells: seq![CellType::Commit(0)],
            uncommitted: changes,
        };
        let g = Model {
            rows: match changes {
                Some(n) if n > 0 => seq![first],
                _ => Seq::empty(),
            },
            lanes: Layout {
                lanes: Seq::empty(),
                colors: Map::empty(),
                max_lane: 0,
                next_color: 0,
            },
            exhausted: false,
            error: None,
            ..self
        };
        match walk {
            Walk::Failed(e) => Model { error: Some(e@), exhausted: true, ..g },
            Walk::Items(items) => Model {
                pending: walked(items@),
                error: walk_error(items@),
                ..g
            },
        }
    }

    /// The refs of a reading.
    pub open spec fn labels_read(refs: Option<Vec<RefInfo>>) -> Map<ObjectId, Seq<RefInfo>> {
        labels_from(
            match refs {
                Some(v) => v@,
                None => Seq::empty(),
            },
        )
    }

    /// The overlay as it opens.
    pub open spec fn opened_on(root: Seq<char>, reading: Reading, worker: Worker) -> Model {
        Model::fresh(root, Model::labels_read(reading.refs), worker).reloaded(
            reading.changes,
            reading.walk,
        ).more(PAGE_FIRST as nat).requested()
    }

    /// The repository read again, the selection kept where it was.
    pub open spec fn reread(self, reading: Reading) -> Model {
        let g = self.reloaded(reading.changes, reading.walk).more(PAGE_FIRST as nat);
        Model { labels: Model::labels_read(reading.refs), ..g }.select(self.selected)
    }

    /// A reply taken. One for anything but what was last asked for is dropped.
    pub open spec fn answered(self, reply: Reply) -> (Model, bool) {
        match reply {
            Reply::Commit { id, result } => if self.detail_for != Some(id) {
                (self, false)
            } else {
                match result {
                    Ok(diff) => (
                        Model {
                            detail: detail_view(DetailState::Ready(diff)),
                            file_selected: 0,
                            file_scroll: 0,
                            ..self
                        },
                        true,
                    ),
                    Err(msg) => (Model { detail: Detail::Failed(msg@), ..self }, true),
                }
            },
            Reply::File { commit, path, result } => if self.file_diff_for != Some((commit, path@)) {
                (self, false)
            } else {
                match result {
                    Ok(h) => (Model { file_diff: FileView::Ready(h), ..self }, true),
                    Err(msg) => (Model { file_diff: FileView::Failed(msg@), ..self }, true),
                }
            },
        }
    }

    /// The first `n` replies taken, and whether any of them changed anything.
    pub open spec fn all_answered(self, replies: Seq<Reply>, n: int) -> (Model, bool)
        decreases n,
    {
        if n <= 0 {
            (self, false)
        } else {
            let (g, dirty) = self.all_answered(replies, n - 1);
            let (h, more) = g.answered(replies[n - 1]);
            (h, dirty || more)
        }
    }

    /// A request that could not be posted: the worker is dead from then on. What
    /// is loading is settled by the next poll, behind the replies it left.
    pub open spec fn post_failed(self) -> Model {
        Model {
            worker: if self.worker == Worker::Absent {
                Worker::Absent
            } else {
                Worker::Dead
            },
            ..self
        }
    }

    /// What the worker finished taken; behind a dead one, nothing stays loading.
    pub open spec fn polled(self, replies: Seq<Reply>, alive: bool) -> (Model, bool) {
        if self.worker == Worker::Absent {
            (self, false)
        } else {
            let (g, dirty) = self.all_answered(replies, replies.len() as int);
            let dead = !alive || self.worker == Worker::Dead;
            let lost = dead && g.detail is Loading;
            let lost_file = dead && g.file_diff is Loading;
            (
                Model {
                    worker: if dead {
                        Worker::Dead
                    } else {
                        g.worker
                    },
                    detail: if lost {
                        Detail::Unavailable
                    } else {
                        g.detail
                    },
                    file_diff: if lost_file {
                        FileView::Failed(worker_gone())
                    } else {
                        g.file_diff
                    },
                    file_diff_for: if lost_file {
                        None
                    } else {
                        g.file_diff_for
                    },
                    ..g
                },
                dirty || lost || lost_file,
            )
        }
    }
}

} // verus!
