//! The overlay's state and what changes it.
use crate::git::commit::{CommitInfo, ObjectId};
use crate::git::diff::CommitDiff;
use crate::git::graph::{GraphBuilder, GraphNode};
use crate::git::refs;
use crate::git::refs::{group_refs, refs_at, Decorated, RefInfo};
use crate::git::repo::{Discovery, OpenError, Repo};
use crate::input::{KeyCode, KeyEvent, MouseEvent, MouseEventKind, CONTROL, NONE, SHIFT};
use crate::search;
use crate::search::Search;
use crate::state::model;
use crate::state::model::{Model, Row};
use crate::state::{
    DetailState, FileDiffState, Mode, Outcome, Reading, Walk, WalkItem, Worker, PAGE_FIRST,
    PAGE_MARGIN, PAGE_MORE, WHEEL_ROWS,
};
use crate::text;
use crate::ui::layout::{pane_at, LayoutMap, Pane};
use crate::worker::{Reply, Request};
use std::collections::VecDeque;
use vstd::prelude::*;
use vstd::string::*;

verus! {

/// The overlay: a repository, the rows loaded from it, and the view state.
#[derive(Debug)]
pub struct GitGraph {
    pub repo: Repo,
    pub builder: GraphBuilder,
    /// Commits read but not yet laid out.
    pub pending: VecDeque<CommitInfo>,
    pub exhausted: bool,
    pub decorations: Vec<Decorated>,
    pub selected: usize,
    /// Index of the first row drawn; follows the selection.
    pub first_row: usize,
    /// Rows the last frame had room for, so paging keys know their step.
    pub viewport_rows: usize,
    pub error: Option<String>,
    /// How the thread that computes diffs is doing.
    pub worker: Worker,
    /// What that thread is to be asked for, in order.
    pub requests: Vec<Request>,
    pub detail: DetailState,
    /// Which commit the outstanding request, if any, is for.
    pub detail_for: Option<ObjectId>,
    /// The three panes' rectangles from the last frame.
    pub layout: LayoutMap,
    /// Lines scrolled past in the detail pane.
    pub detail_scroll: usize,
    /// Rows the detail pane had to show in the last frame.
    pub detail_rows: usize,
    /// Which pane has keyboard focus.
    pub focus: Pane,
    /// Which row is selected in the changed-files pane.
    pub file_selected: usize,
    /// Rows scrolled past in the changed-files pane.
    pub file_scroll: usize,
    /// Which layer is on top.
    pub mode: Mode,
    /// The file diff view's content, kept after the view is closed.
    pub file_diff: FileDiffState,
    /// Which commit and path the outstanding file request is for.
    pub file_diff_for: Option<(ObjectId, String)>,
    /// Lines scrolled past in the file diff view.
    pub file_diff_scroll: usize,
    /// Rows the file diff view had room for in the last frame.
    pub file_diff_rows: usize,
    /// The search dropdown's query and matches.
    pub search: Search,
    /// Whether `o` currently draws remote-branch decorations.
    pub show_remotes: bool,
    /// Whether `t` currently draws tag decorations.
    pub show_tags: bool,
}

/// A message, by view.
pub open spec fn message_view(e: Option<String>) -> Option<Seq<char>> {
    match e {
        Some(s) => Some(s@),
        None => None,
    }
}

/// A commit and a path, by view.
pub open spec fn file_key(k: Option<(ObjectId, String)>) -> Option<(ObjectId, Seq<char>)> {
    match k {
        Some((id, path)) => Some((id, path@)),
        None => None,
    }
}

proof fn lemma_fed_pending(g: Model, n: nat)
    ensures
        g.fed_many(n).pending.len() == (if g.pending.len() <= n {
            0
        } else {
            g.pending.len() - n
        }),
        g.fed_many(n).exhausted == g.exhausted,
    decreases n,
{
    if n > 0 && g.pending.len() > 0 {
        lemma_fed_pending(g.fed_one(), (n - 1) as nat);
    }
}

/// Loading more leaves less to load.
pub proof fn lemma_more_progress(g: Model)
    requires
        !g.exhausted,
    ensures
        g.more(PAGE_MORE as nat).left() < g.left(),
{
    lemma_fed_pending(g, PAGE_MORE as nat);
}

impl GitGraph {
    /// The overlay as values.
    pub open spec fn model(&self) -> Model {
        Model {
            root: self.repo.root(),
            rows: model::rows_view(self.builder.rows()),
            lanes: self.builder.layout(),
            pending: self.pending@,
            exhausted: self.exhausted,
            labels: model::labels_of(self.decorations@),
            selected: self.selected as nat,
            first_row: self.first_row as nat,
            viewport: self.viewport_rows as nat,
            error: message_view(self.error),
            worker: self.worker,
            asked: model::all_asked(self.requests@),
            detail: model::detail_view(self.detail),
            detail_for: self.detail_for,
            layout: self.layout,
            detail_scroll: self.detail_scroll as nat,
            detail_rows: self.detail_rows as nat,
            focus: self.focus,
            file_selected: self.file_selected as nat,
            file_scroll: self.file_scroll as nat,
            mode: self.mode,
            file_diff: model::file_view(self.file_diff),
            file_diff_for: file_key(self.file_diff_for),
            file_diff_scroll: self.file_diff_scroll as nat,
            file_diff_rows: self.file_diff_rows as nat,
            typed: self.search.typed(),
            found: self.search.found(),
            highlighted: self.search.highlighted(),
            show_remotes: self.show_remotes,
            show_tags: self.show_tags,
        }
    }

    /// The builder and the search box hold what they say, and a frame is no
    /// taller than the terminal can be.
    pub open spec fn sound(&self) -> bool {
        &&& self.builder.wf()
        &&& self.search.wf()
        &&& self.viewport_rows <= 65535
        &&& self.file_diff_rows <= 65535
    }

    /// As `sound`, and the selection is a row, wherever there is one.
    pub open spec fn placed(&self) -> bool {
        &&& self.sound()
        &&& self.selected <= model::last_of(self.builder.rows().len())
    }

    /// As `placed`, and what was asked of the worker is the selected commit.
    pub open spec fn wf(&self) -> bool {
        &&& self.placed()
        &&& self.model().asks_for_selected()
    }

    pub fn row_count(&self) -> (r: usize)
        ensures
            r == self.model().rows.len(),
    {
        self.builder.nodes().len()
    }

    pub fn workdir(&self) -> (r: &str)
        ensures
            r@ == self.model().root,
    {
        self.repo.workdir()
    }

    pub fn selected(&self) -> (r: usize)
        ensures
            r == self.model().selected,
    {
        self.selected
    }

    /// Which pane the keyboard is aimed at.
    pub fn focus(&self) -> (r: Pane)
        ensures
            r == self.model().focus,
    {
        self.focus
    }

    /// Which row of the changed-files pane is selected.
    pub fn file_selected(&self) -> (r: usize)
        ensures
            r == self.model().file_selected,
    {
        self.file_selected
    }

    /// Which layer of the overlay is on top.
    pub fn mode(&self) -> (r: Mode)
        ensures
            r == self.model().mode,
    {
        self.mode
    }

    /// What the file diff view has.
    pub fn file_diff(&self) -> (r: &FileDiffState)
        ensures
            *r == self.file_diff,
    {
        &self.file_diff
    }

    /// Whether `o` currently draws remote-branch decorations.
    pub fn show_remotes(&self) -> (r: bool)
        ensures
            r == self.model().show_remotes,
    {
        self.show_remotes
    }

    /// Whether `t` currently draws tag decorations.
    pub fn show_tags(&self) -> (r: bool)
        ensures
            r == self.model().show_tags,
    {
        self.show_tags
    }

    /// What the detail panes have.
    pub fn detail(&self) -> (r: &DetailState)
        ensures
            *r == self.detail,
    {
        &self.detail
    }

    /// What the worker is to be asked for, in order, since this was last called.
    pub fn take_requests(&mut self) -> (r: Vec<Request>)
        ensures
            model::all_asked(r@) == old(self).model().asked,
            final(self).model() == (Model { asked: Seq::empty(), ..old(self).model() }),
            old(self).wf() ==> final(self).wf(),
    {
        let mut taken: Vec<Request> = Vec::new();
        std::mem::swap(&mut taken, &mut self.requests);
        assert(model::all_asked(self.requests@) =~= Seq::<model::Asked>::empty());
        taken
    }

    /// The refs pointing at row `index`, if any survive the current toggles.
    pub fn decorations_at(&self, index: usize) -> (r: Option<&Vec<RefInfo>>)
        ensures
            r is Some <==> self.model().decorated(index as nat),
            r matches Some(v) ==> self.model().commit_at(index as nat) matches Some(c) && v@
                == self.model().labels[c.id],
    {
        let nodes = self.builder.nodes();
        if index >= nodes.len() {
            return None;
        }
        assert(self.model().rows[index as int] == model::row_view(nodes@[index as int]));
        let id = match &nodes[index].commit {
            Some(c) => c.id,
            None => {
                return None;
            },
        };
        let found = match refs_at(&self.decorations, id) {
            Some(v) => v,
            None => {
                assert(refs::refs_of(self.decorations@, id).len() == 0);
                return None;
            },
        };
        let mut i: usize = 0;
        while i < found.len()
            invariant
                i <= found.len(),
                found@ == self.model().labels[id],
                self.model().commit_at(index as nat) matches Some(c) && c.id == id,
                forall|k: int|
                    0 <= k < i ==> !(#[trigger] found@[k]).kind.shown(
                        self.show_remotes,
                        self.show_tags,
                    ),
            decreases found.len() - i,
        {
            if found[i].kind.visible(self.show_remotes, self.show_tags) {
                assert(found@[i as int].kind.shown(self.show_remotes, self.show_tags));
                return Some(found);
            }
            i += 1;
        }
        None
    }

    /// Lays the next pending commit out.
    fn feed_next(&mut self, commit: CommitInfo)
        requires
            old(self).sound(),
        ensures
            final(self).sound(),
            ({
                let had = Model {
                    pending: seq![commit] + old(self).model().pending,
                    ..old(self).model()
                };
                final(self).model() == had.fed_one()
            }),
    {
        let ghost g = self.model();
        let ghost nodes = self.builder.rows();
        self.builder.feed(commit);
        proof {
            let had = Model { pending: seq![commit] + g.pending, ..g };
            let want = had.fed_one();
            let now = self.builder.rows();
            assert(had.pending.drop_first() =~= g.pending);
            assert(now =~= nodes.push(now.last()));
            assert(self.model().rows =~= want.rows) by {
                assert(model::rows_view(nodes.push(now.last())) =~= model::rows_view(nodes).push(
                    model::row_view(now.last()),
                ));
            }
        }
    }

    /// Feeds up to `count` more commits into the layout.
    fn load_more(&mut self, count: usize)
        requires
            old(self).sound(),
        ensures
            final(self).sound(),
            final(self).model() == old(self).model().more(count as nat),
    {
        if self.exhausted {
            return ;
        }
        let ghost start = self.model();
        let mut i: usize = 0;
        while i < count
            invariant
                i <= count,
                self.sound(),
                start == old(self).model(),
                !start.exhausted,
                !self.exhausted,
                start.fed_many(count as nat) == self.model().fed_many((count - i) as nat),
                start.pending.len() == self.model().pending.len() + i,
            decreases count - i,
        {
            let ghost before = self.model();
            match self.pending.pop_front() {
                Some(c) => {
                    proof {
                        assert(seq![c] + self.pending@ =~= before.pending);
                    }
                    self.feed_next(c);
                    assert(self.model() == before.fed_one());
                },
                None => {
                    self.exhausted = true;
                    return ;
                },
            }
            i += 1;
        }
    }

    /// Loads more while `index` is near the tail.
    fn ensure_loaded_around(&mut self, index: usize)
        requires
            old(self).sound(),
        ensures
            final(self).sound(),
            final(self).model() == old(self).model().around(index as nat),
    {
        while !self.exhausted && index.saturating_add(PAGE_MARGIN) >= self.row_count()
            invariant
                self.sound(),
                old(self).model().around(index as nat) == self.model().around(index as nat),
            decreases self.model().left(),
        {
            proof {
                lemma_more_progress(self.model());
            }
            self.load_more(PAGE_MORE);
        }
    }

    /// Loads the whole history.
    fn load_all(&mut self)
        requires
            old(self).sound(),
        ensures
            final(self).sound(),
            final(self).model() == old(self).model().all_loaded(),
    {
        while !self.exhausted
            invariant
                self.sound(),
                old(self).model().all_loaded() == self.model().all_loaded(),
            decreases self.model().left(),
        {
            proof {
                lemma_more_progress(self.model());
            }
            self.load_more(PAGE_MORE);
        }
    }

    /// The commit on the selected row, if that row is a commit.
    pub fn selected_commit(&self) -> (r: Option<&CommitInfo>)
        ensures
            match r {
                Some(c) => self.model().commit_at(self.model().selected) == Some(*c),
                None => self.model().commit_at(self.model().selected) is None,
            },
    {
        let nodes = self.builder.nodes();
        if self.selected < nodes.len() {
            assert(self.model().rows[self.selected as int] == model::row_view(
                nodes@[self.selected as int],
            ));
            nodes[self.selected].commit.as_ref()
        } else {
            None
        }
    }

    /// The id of the selected row's commit, if that row is a commit.
    pub fn selected_id(&self) -> (r: Option<ObjectId>)
        ensures
            r == self.model().selected_id(),
    {
        match self.selected_commit() {
            Some(c) => Some(c.id),
            None => None,
        }
    }

    /// Posts work for the worker.
    fn post(&mut self, request: Request)
        ensures
            final(self).model() == (Model {
                asked: old(self).model().asked.push(model::asked_view(request)),
                ..old(self).model()
            }),
            old(self).sound() ==> final(self).sound(),
            old(self).wf() ==> final(self).wf(),
    {
        let ghost before = self.requests@;
        self.requests.push(request);
        assert(model::all_asked(self.requests@) =~= model::all_asked(before).push(
            model::asked_view(request),
        ));
    }

    /// Asks the worker for the selected commit's diff.
    fn request_detail(&mut self)
        ensures
            final(self).model() == old(self).model().requested(),
            old(self).sound() ==> final(self).sound(),
            old(self).placed() ==> final(self).wf(),
    {
        let id = match self.selected_id() {
            Some(id) => id,
            None => {
                self.detail = DetailState::Ready(CommitDiff::default());
                self.detail_for = None;
                return ;
            },
        };
        if self.detail_for == Some(id) {
            return ;
        }
        if self.worker == Worker::Alive {
            self.post(Request::Commit(id));
            self.detail_for = Some(id);
            self.detail = DetailState::Loading;
        } else {
            self.detail = DetailState::Unavailable;
            self.detail_for = None;
        }
    }

    /// Selects row `index`, or the last one.
    #[verifier::rlimit(60)]
    fn select(&mut self, index: usize)
        requires
            old(self).sound(),
        ensures
            final(self).wf(),
            final(self).model() == old(self).model().select(index as nat),
    {
        self.ensure_loaded_around(index);
        let ghost g = self.model();
        let last: usize = self.row_count().saturating_sub(1);
        let next: usize = if index <= last {
            index
        } else {
            last
        };
        if next != self.selected {
            self.detail_scroll = 0;
            self.file_selected = 0;
            self.file_scroll = 0;
        }
        self.selected = next;
        if self.selected < self.first_row {
            self.first_row = self.selected;
        } else if self.selected >= self.first_row.saturating_add(self.viewport_rows) {
            assert(self.selected < usize::MAX);
            self.first_row = self.selected + 1 - self.viewport_rows;
        }
        proof {
            let top = if next != g.selected {
                Model { detail_scroll: 0, file_selected: 0, file_scroll: 0, ..g }
            } else {
                g
            };
            assert(self.first_row == g.first_row_for(next as nat));
            assert(self.model() == (Model {
                selected: next as nat,
                first_row: g.first_row_for(next as nat),
                ..top
            }));
            assert(self.placed());
        }
        self.request_detail();
    }

    /// Selects the next decorated row that way, if there is one.
    fn jump_decorated(&mut self, forward: bool)
        requires
            old(self).wf(),
        ensures
            final(self).wf(),
            final(self).model() == old(self).model().jumped(forward),
    {
        let n: usize = self.row_count();
        let ghost g = self.model();
        let mut i: usize = self.selected;
        if forward {
            while i < n && n - i > 1
                invariant
                    forward,
                    n == g.rows.len(),
                    g == old(self).model(),
                    *self == *old(self),
                    self.wf(),
                    g.next_decorated(g.selected) == g.next_decorated(i as nat),
                decreases n - i,
            {
                if self.decorations_at(i + 1).is_some() {
                    self.select(i + 1);
                    return ;
                }
                i += 1;
            }
        } else {
            while i > 0
                invariant
                    !forward,
                    g == old(self).model(),
                    *self == *old(self),
                    self.wf(),
                    g.previous_decorated(g.selected) == g.previous_decorated(i as nat),
                decreases i,
            {
                if self.decorations_at(i - 1).is_some() {
                    self.select(i - 1);
                    return ;
                }
                i -= 1;
            }
        }
    }
}

/// `at` moved by `delta`.
fn shift(at: usize, delta: isize) -> (r: usize)
    ensures
        r == model::shifted(at as nat, delta as int),
{
    if delta < 0 {
        let back: usize = (-(delta + 1)) as usize + 1;
        at.saturating_sub(back)
    } else {
        at.saturating_add(delta as usize)
    }
}

/// The smaller of two.
fn lower(a: usize, b: usize) -> (r: usize)
    ensures
        r == model::at_most(a as nat, b as nat),
{
    if a <= b {
        a
    } else {
        b
    }
}

impl GitGraph {
    /// Moves `pane`'s selection or scroll by `delta` rows.
    ///
    /// The pane is an argument because the wheel scrolls the pane under the
    /// pointer, not the focused one.
    fn move_pane(&mut self, pane: Pane, delta: isize) -> (r: Outcome)
        requires
            old(self).wf(),
        ensures
            final(self).wf(),
            (final(self).model(), model::said(r)) == old(self).model().moved(pane, delta as int),
    {
        match pane {
            Pane::Graph => {
                let next: usize = shift(self.selected, delta);
                self.select(next);
                Outcome::Consumed
            },
            Pane::Files => {
                let count: usize = match &self.detail {
                    DetailState::Ready(d) => d.files.len(),
                    _ => 0,
                };
                let next: usize = lower(shift(self.file_selected, delta), count.saturating_sub(1));
                if next == self.file_selected {
                    return Outcome::Consumed;
                }
                assert(next < usize::MAX);
                self.file_selected = next;
                self.keep_file_visible();
                Outcome::Redraw
            },
            Pane::Detail => {
                let inside: usize = self.layout.detail.height.saturating_sub(2) as usize;
                let visible: usize = if inside >= 1 {
                    inside
                } else {
                    1
                };
                let end: usize = self.detail_rows.saturating_sub(visible);
                let next: usize = lower(shift(self.detail_scroll, delta), end);
                if next == self.detail_scroll {
                    return Outcome::Consumed;
                }
                self.detail_scroll = next;
                Outcome::Redraw
            },
        }
    }

    /// Keeps the file selection inside the changed-files pane's viewport.
    fn keep_file_visible(&mut self)
        requires
            old(self).file_selected < usize::MAX,
        ensures
            final(self).model() == (Model {
                file_scroll: old(self).model().file_scroll_for(old(self).model().file_selected),
                ..old(self).model()
            }),
            old(self).wf() ==> final(self).wf(),
    {
        if self.file_selected < self.file_scroll {
            self.file_scroll = self.file_selected;
            return ;
        }
        let visible: usize = self.layout.files.height.saturating_sub(2) as usize;
        if visible > 0 && self.file_selected >= self.file_scroll.saturating_add(visible) {
            self.file_scroll = self.file_selected + 1 - visible;
        }
    }

    /// Opens the changed-files pane's selected file in the file diff view.
    fn open_selected_file(&mut self) -> (r: Outcome)
        requires
            old(self).wf(),
        ensures
            final(self).wf(),
            (final(self).model(), model::said(r)) == old(self).model().entered(),
    {
        if self.focus != Pane::Files {
            return Outcome::Consumed;
        }
        let commit = match self.selected_id() {
            Some(id) => id,
            None => {
                return Outcome::Consumed;
            },
        };
        let path = match &self.detail {
            DetailState::Ready(d) => {
                if self.file_selected >= d.files.len() {
                    return Outcome::Consumed;
                }
                d.files[self.file_selected].path.clone()
            },
            _ => {
                return Outcome::Consumed;
            },
        };
        self.open_file(commit, path);
        Outcome::Redraw
    }

    /// Opens one file of one commit.
    fn open_file(&mut self, commit: ObjectId, path: String)
        requires
            old(self).wf(),
        ensures
            final(self).wf(),
            final(self).model() == old(self).model().opened(commit, path@),
    {
        let wanted = match &self.file_diff_for {
            Some((id, p)) => *id == commit && text::same(p.as_str(), path.as_str()),
            None => false,
        };
        let held = match &self.file_diff {
            FileDiffState::Ready(_) => true,
            FileDiffState::Loading(_) => true,
            _ => false,
        };
        self.mode = Mode::FileDiff;
        self.file_diff_scroll = 0;
        if wanted && held {
            return ;
        }
        if self.worker == Worker::Alive {
            self.post(Request::File { commit, path: path.clone() });
            self.file_diff = FileDiffState::Loading(path.clone());
            self.file_diff_for = Some((commit, path));
        } else {
            self.file_diff = FileDiffState::Failed("diffs are unavailable".to_owned());
            self.file_diff_for = None;
        }
    }

    /// Types a character into the query.
    fn search_push(&mut self, c: char)
        requires
            old(self).wf(),
        ensures
            final(self).wf(),
            final(self).model() == old(self).model().searched(old(self).model().typed.push(c)),
    {
        self.search.push(c, self.builder.nodes());
        proof {
            lemma_found(self.builder.rows(), self.search);
        }
    }

    /// Takes the last character off the query.
    fn search_backspace(&mut self)
        requires
            old(self).wf(),
        ensures
            final(self).wf(),
            final(self).model() == old(self).model().searched(
                if old(self).model().typed.len() > 0 {
                    old(self).model().typed.drop_last()
                } else {
                    old(self).model().typed
                },
            ),
    {
        self.search.backspace(self.builder.nodes());
        proof {
            lemma_found(self.builder.rows(), self.search);
        }
    }

    /// Handles one key while the search dropdown is open.
    ///
    /// Movement is the arrows and Ctrl with `j` or `k`, never those letters
    /// alone: this is a text field.
    fn search_key(&mut self, key: KeyEvent) -> (r: Outcome)
        requires
            old(self).wf(),
        ensures
            final(self).wf(),
            (final(self).model(), model::said(r)) == old(self).model().search_pressed(key),
    {
        let m: u8 = key.modifiers;
        match key.code {
            KeyCode::Esc => {
                self.mode = Mode::Normal;
                Outcome::Redraw
            },
            KeyCode::Enter => {
                if m != NONE {
                    return Outcome::Consumed;
                }
                self.mode = Mode::Normal;
                if let Some(row) = self.search.selected_row() {
                    self.select(row);
                }
                Outcome::Redraw
            },
            KeyCode::Backspace => {
                if m != NONE {
                    return Outcome::Consumed;
                }
                self.search_backspace();
                Outcome::Redraw
            },
            KeyCode::Down => {
                if m != NONE {
                    return Outcome::Consumed;
                }
                self.search.next();
                Outcome::Redraw
            },
            KeyCode::Up => {
                if m != NONE {
                    return Outcome::Consumed;
                }
                self.search.previous();
                Outcome::Redraw
            },
            KeyCode::Char(c) => {
                if m == CONTROL && c == 'j' {
                    self.search.next();
                    Outcome::Redraw
                } else if m == CONTROL && c == 'k' {
                    self.search.previous();
                    Outcome::Redraw
                } else if m == NONE || m == SHIFT {
                    self.search_push(c);
                    Outcome::Redraw
                } else {
                    Outcome::Consumed
                }
            },
            _ => Outcome::Consumed,
        }
    }

    /// Scrolls the file diff view by `delta` lines, clamped to the diff.
    fn scroll_file_diff(&mut self, delta: isize) -> (r: Outcome)
        requires
            old(self).wf(),
        ensures
            final(self).wf(),
            (final(self).model(), model::said(r)) == old(self).model().scrolled(delta as int),
    {
        let total: usize = match &self.file_diff {
            FileDiffState::Ready(h) => h.diff.lines.len(),
            _ => 0,
        };
        let visible: usize = if self.file_diff_rows >= 1 {
            self.file_diff_rows
        } else {
            1
        };
        let end: usize = total.saturating_sub(visible);
        let next: usize = lower(shift(self.file_diff_scroll, delta), end);
        if next == self.file_diff_scroll {
            return Outcome::Consumed;
        }
        self.file_diff_scroll = next;
        Outcome::Redraw
    }

    /// Handles one key while the file diff view is open.
    fn file_diff_key(&mut self, key: KeyEvent) -> (r: Outcome)
        requires
            old(self).wf(),
        ensures
            final(self).wf(),
            (final(self).model(), model::said(r)) == old(self).model().diff_pressed(key),
    {
        let m: u8 = key.modifiers;
        let page: isize = if self.file_diff_rows >= 1 {
            self.file_diff_rows as isize
        } else {
            1
        };
        let half: isize = if page >= 2 {
            page / 2
        } else {
            1
        };
        match key.code {
            KeyCode::Esc => {
                self.mode = Mode::Normal;
                Outcome::Redraw
            },
            KeyCode::Char(c) => {
                if c == 'q' {
                    self.mode = Mode::Normal;
                    Outcome::Redraw
                } else if m == NONE && c == 'j' {
                    self.scroll_file_diff(1)
                } else if m == NONE && c == 'k' {
                    self.scroll_file_diff(-1)
                } else if m == CONTROL && c == 'd' {
                    self.scroll_file_diff(half)
                } else if m == CONTROL && c == 'u' {
                    self.scroll_file_diff(-half)
                } else if m == NONE && c == 'g' {
                    self.scroll_file_diff(isize::MIN)
                } else if m == SHIFT && c == 'G' {
                    self.scroll_file_diff(isize::MAX)
                } else {
                    Outcome::Consumed
                }
            },
            KeyCode::Down if m == NONE => self.scroll_file_diff(1),
            KeyCode::Up if m == NONE => self.scroll_file_diff(-1),
            KeyCode::PageDown if m == NONE => self.scroll_file_diff(page),
            KeyCode::PageUp if m == NONE => self.scroll_file_diff(-page),
            KeyCode::Home if m == NONE => self.scroll_file_diff(isize::MIN),
            KeyCode::End => self.scroll_file_diff(isize::MAX),
            _ => Outcome::Consumed,
        }
    }

    /// Selects the oldest row of the whole history.
    fn select_oldest(&mut self)
        requires
            old(self).wf(),
        ensures
            final(self).wf(),
            final(self).model() == ({
                let g = old(self).model().all_loaded();
                g.select(model::last_of(g.rows.len()))
            }),
    {
        self.load_all();
        let last: usize = self.row_count().saturating_sub(1);
        self.select(last);
    }

    /// Handles one letter while the panes are on top.
    fn letter_key(&mut self, c: char, m: u8) -> (r: Outcome)
        requires
            old(self).wf(),
        ensures
            final(self).wf(),
            (final(self).model(), model::said(r)) == old(self).model().letter_pressed(c, m),
    {
        let page: isize = if self.viewport_rows >= 1 {
            self.viewport_rows as isize
        } else {
            1
        };
        let half: isize = if page >= 2 {
            page / 2
        } else {
            1
        };
        let focus = self.focus;
        if c == '@' {
            Outcome::FindHead
        } else if c == '/' {
            self.mode = Mode::Search;
            self.search = Search::default();
            proof {
                assert(self.search.typed() =~= Seq::<char>::empty());
                assert(self.search.found() =~= Seq::<usize>::empty());
            }
            Outcome::Redraw
        } else if c == '?' {
            self.mode = Mode::Help;
            Outcome::Redraw
        } else if c == 'q' {
            Outcome::Dismiss
        } else if m == CONTROL {
            if c == 'd' {
                self.move_pane(focus, half)
            } else if c == 'u' {
                self.move_pane(focus, -half)
            } else {
                Outcome::Consumed
            }
        } else if m == SHIFT {
            if c == 'G' {
                self.select_oldest();
                Outcome::Consumed
            } else if c == 'R' {
                Outcome::Reread
            } else {
                Outcome::Consumed
            }
        } else if m == NONE {
            if c == 'j' {
                self.move_pane(focus, 1)
            } else if c == 'k' {
                self.move_pane(focus, -1)
            } else if c == 'g' {
                self.select(0);
                Outcome::Consumed
            } else if c == 'y' {
                match self.selected_commit() {
                    Some(commit) => Outcome::Copy(commit.id.to_hex()),
                    None => Outcome::Consumed,
                }
            } else if c == ']' {
                self.jump_decorated(true);
                Outcome::Consumed
            } else if c == '[' {
                self.jump_decorated(false);
                Outcome::Consumed
            } else if c == 'o' {
                self.show_remotes = !self.show_remotes;
                Outcome::Consumed
            } else if c == 't' {
                self.show_tags = !self.show_tags;
                Outcome::Consumed
            } else {
                Outcome::Consumed
            }
        } else {
            Outcome::Consumed
        }
    }

    /// Handles one key while the panes are on top.
    fn pane_key(&mut self, key: KeyEvent) -> (r: Outcome)
        requires
            old(self).wf(),
        ensures
            final(self).wf(),
            (final(self).model(), model::said(r)) == old(self).model().pane_pressed(key),
    {
        let m: u8 = key.modifiers;
        let page: isize = if self.viewport_rows >= 1 {
            self.viewport_rows as isize
        } else {
            1
        };
        let focus = self.focus;
        match key.code {
            KeyCode::Tab if m == NONE => {
                self.focus = match self.focus {
                    Pane::Graph => Pane::Detail,
                    Pane::Detail => Pane::Files,
                    Pane::Files => Pane::Graph,
                };
                Outcome::Redraw
            },
            KeyCode::BackTab => {
                self.focus = match self.focus {
                    Pane::Graph => Pane::Files,
                    Pane::Files => Pane::Detail,
                    Pane::Detail => Pane::Graph,
                };
                Outcome::Redraw
            },
            KeyCode::Down if m == NONE => self.move_pane(focus, 1),
            KeyCode::Up if m == NONE => self.move_pane(focus, -1),
            KeyCode::PageDown if m == NONE => self.move_pane(focus, page),
            KeyCode::PageUp if m == NONE => self.move_pane(focus, -page),
            KeyCode::Home if m == NONE => {
                self.select(0);
                Outcome::Consumed
            },
            KeyCode::End => {
                self.select_oldest();
                Outcome::Consumed
            },
            KeyCode::Enter if m == NONE => self.open_selected_file(),
            KeyCode::Esc => Outcome::Dismiss,
            KeyCode::Char(c) => self.letter_key(c, m),
            _ => Outcome::Consumed,
        }
    }

    /// Handles one key.
    ///
    /// The movement keys act on the focused pane. The keys that are about a
    /// commit rather than about a list stay on the graph whatever has focus. A
    /// layer over the panes has every key to itself, and any key closes the help
    /// popup.
    pub fn on_key(&mut self, key: KeyEvent) -> (r: Outcome)
        requires
            old(self).wf(),
        ensures
            final(self).wf(),
            (final(self).model(), model::said(r)) == old(self).model().pressed(key),
    {
        match self.mode {
            Mode::FileDiff => self.file_diff_key(key),
            Mode::Search => self.search_key(key),
            Mode::Help => {
                self.mode = Mode::Normal;
                Outcome::Redraw
            },
            Mode::Normal => self.pane_key(key),
        }
    }

    /// Handles one mouse event, routed by the pane it landed in. The wheel
    /// scrolls that pane and leaves the focus alone; where there is no pane
    /// under the pointer it moves the focused one.
    pub fn on_mouse(&mut self, ev: MouseEvent) -> (r: Outcome)
        requires
            old(self).wf(),
        ensures
            final(self).wf(),
            (final(self).model(), model::said(r)) == old(self).model().pointed(ev),
    {
        if self.mode == Mode::FileDiff {
            return match ev.kind {
                MouseEventKind::ScrollDown => self.scroll_file_diff(WHEEL_ROWS),
                MouseEventKind::ScrollUp => self.scroll_file_diff(-WHEEL_ROWS),
                _ => Outcome::Consumed,
            };
        }
        if self.mode == Mode::Search || self.mode == Mode::Help {
            return Outcome::Consumed;
        }
        let over = pane_at(&self.layout, ev.column, ev.row);
        let pane = match over {
            Some(p) => p,
            None => self.focus,
        };
        match ev.kind {
            MouseEventKind::Down => {
                if over.is_some() && self.focus != pane {
                    self.focus = pane;
                    Outcome::Redraw
                } else {
                    Outcome::Consumed
                }
            },
            MouseEventKind::ScrollDown => self.move_pane(pane, WHEEL_ROWS),
            MouseEventKind::ScrollUp => self.move_pane(pane, -WHEEL_ROWS),
            MouseEventKind::Other => Outcome::Consumed,
        }
    }

    /// Selects the row of the commit that `HEAD` is at, where it is loaded.
    pub fn go_to_head(&mut self, head: Option<ObjectId>) -> (r: Outcome)
        requires
            old(self).wf(),
        ensures
            final(self).wf(),
            final(self).model() == old(self).model().gone_to(head),
            model::said(r) == model::Said::Consumed,
    {
        let id = match head {
            Some(id) => id,
            None => {
                return Outcome::Consumed;
            },
        };
        let n: usize = self.row_count();
        let ghost g = self.model();
        let mut i: usize = 0;
        while i < n
            invariant
                i <= n,
                n == g.rows.len(),
                g == old(self).model(),
                *self == *old(self),
                self.wf(),
                head == Some(id),
                g.row_of_commit(id, 0) == g.row_of_commit(id, i as nat),
            decreases n - i,
        {
            let nodes = self.builder.nodes();
            assert(g.rows[i as int] == model::row_view(nodes@[i as int]));
            let here = match &nodes[i].commit {
                Some(c) => c.id == id,
                None => false,
            };
            if here {
                self.select(i);
                return Outcome::Consumed;
            }
            i += 1;
        }
        Outcome::Consumed
    }

    /// Takes the history as it was read, nothing of it laid out yet but the row
    /// of the uncommitted changes. What was read before a failure is kept.
    fn reload(&mut self, changes: Option<usize>, walk: Walk)
        requires
            old(self).sound(),
        ensures
            final(self).sound(),
            final(self).model() == old(self).model().reloaded(changes, walk),
    {
        self.builder = GraphBuilder::new();
        proof {
            assert(model::rows_view(self.builder.rows()) =~= Seq::<Row>::empty());
        }
        if let Some(count) = changes {
            if count > 0 {
                self.builder.feed_uncommitted(count);
                proof {
                    let nodes = self.builder.rows();
                    assert(nodes =~= seq![nodes.last()]);
                    assert(model::rows_view(nodes) =~= seq![model::row_view(nodes.last())]);
                }
            }
        }
        self.exhausted = false;
        self.error = None;
        match walk {
            Walk::Failed(e) => {
                self.error = Some(e);
                self.exhausted = true;
            },
            Walk::Items(items) => {
                let (commits, error) = take_commits(items);
                self.pending = commits;
                self.error = error;
            },
        }
    }

    /// Takes the repository as it was read again, keeping the selected row.
    pub fn reread(&mut self, reading: Reading) -> (r: Outcome)
        requires
            old(self).wf(),
        ensures
            final(self).wf(),
            final(self).model() == old(self).model().reread(reading),
            model::said(r) == model::Said::Consumed,
    {
        let keep: usize = self.selected;
        self.reload(reading.changes, reading.walk);
        self.load_more(PAGE_FIRST);
        self.decorations = read_refs(reading.refs);
        self.select(keep);
        Outcome::Consumed
    }

    /// Opens the overlay on the repository found around `path`. `worker` is
    /// whether the thread that computes diffs could be started: without it the
    /// graph is still useful.
    pub fn open(path: &str, found: Discovery, reading: Reading, worker: bool) -> (r: Result<
        Self,
        OpenError,
    >)
        ensures
            match found {
                Discovery::Nothing => r matches Err(OpenError::NotARepository { path: p }) && p@
                    == path@,
                Discovery::Failed(e) => r matches Err(OpenError::Io { path: p, source }) && p@
                    == path@ && source == e,
                Discovery::Bare => r matches Err(OpenError::NoWorkTree { path: p }) && p@ == path@,
                Discovery::WorkTree(root) => r matches Ok(g) && g.wf() && g.model()
                    == Model::opened_on(
                    root@,
                    reading,
                    if worker {
                        Worker::Alive
                    } else {
                        Worker::Absent
                    },
                ),
            },
    {
        let repo = match Repo::open(path, found) {
            Ok(repo) => repo,
            Err(e) => {
                return Err(e);
            },
        };
        let mut me = GitGraph {
            repo,
            builder: GraphBuilder::new(),
            pending: VecDeque::new(),
            exhausted: false,
            decorations: read_refs(reading.refs),
            selected: 0,
            first_row: 0,
            viewport_rows: 1,
            error: None,
            worker: if worker {
                Worker::Alive
            } else {
                Worker::Absent
            },
            requests: Vec::new(),
            detail: DetailState::Unavailable,
            detail_for: None,
            layout: LayoutMap::default(),
            detail_scroll: 0,
            detail_rows: 0,
            focus: Pane::Graph,
            file_selected: 0,
            file_scroll: 0,
            mode: Mode::Normal,
            file_diff: FileDiffState::Closed,
            file_diff_for: None,
            file_diff_scroll: 0,
            file_diff_rows: 0,
            search: Search::default(),
            show_remotes: true,
            show_tags: true,
        };
        proof {
            let want = Model::fresh(
                me.repo.root(),
                Model::labels_read(reading.refs),
                me.worker,
            );
            assert(me.model().rows =~= want.rows);
            assert(me.model().asked =~= want.asked);
            assert(me.model().typed =~= want.typed);
            assert(me.model().found =~= want.found);
            assert(me.model() == want);
        }
        let ghost start = me.model();
        me.reload(reading.changes, reading.walk);
        me.load_more(PAGE_FIRST);
        proof {
            lemma_more_keeps(start.reloaded(reading.changes, reading.walk), PAGE_FIRST as nat);
            assert(me.selected == 0);
        }
        me.request_detail();
        Ok(me)
    }

    /// Applies one reply. One for a commit that is no longer selected, or for a
    /// file that is not what was last asked for, is dropped: a late answer must not overwrite the current one.
    pub fn accept_reply(&mut self, reply: Reply) -> (r: bool)
        requires
            old(self).wf(),
        ensures
            final(self).wf(),
            (final(self).model(), r) == old(self).model().answered(reply),
            reply matches Reply::Commit { id, .. } ==> old(self).model().selected_id() != Some(id)
                ==> !r && final(self).model() == old(self).model(),
    {
        match reply {
            Reply::Commit { id, result } => {
                if self.detail_for != Some(id) {
                    return false;
                }
                match result {
                    Ok(diff) => {
                        self.detail = DetailState::Ready(diff);
                        self.file_selected = 0;
                        self.file_scroll = 0;
                    },
                    Err(msg) => {
                        self.detail = DetailState::Failed(msg);
                    },
                }
                true
            },
            Reply::File { commit, path, result } => {
                let wanted = match &self.file_diff_for {
                    Some((id, p)) => *id == commit && text::same(p.as_str(), path.as_str()),
                    None => false,
                };
                if !wanted {
                    return false;
                }
                match result {
                    Ok(h) => {
                        self.file_diff = FileDiffState::Ready(h);
                    },
                    Err(msg) => {
                        self.file_diff = FileDiffState::Failed(msg);
                    },
                }
                true
            },
        }
    }

    /// Takes note that a request could not be posted: the worker is dead, so
    /// nothing more is asked of it, and the next commit selected or file opened
    /// shows that diffs are unavailable.
    pub fn post_failed(&mut self)
        requires
            old(self).wf(),
        ensures
            final(self).wf(),
            final(self).model() == old(self).model().post_failed(),
    {
        if self.worker != Worker::Absent {
            self.worker = Worker::Dead;
        }
    }

    /// Takes everything the worker finished; `alive` is whether it still runs.
    /// Returns true when the frame needs repainting.
    ///
    /// Replies are applied before the worker's death is acted on: a reply that
    /// was sent just before it is still shown. Death only settles the request
    /// that it left without an answer.
    pub fn poll(&mut self, replies: Vec<Reply>, alive: bool) -> (r: bool)
        requires
            old(self).wf(),
        ensures
            final(self).wf(),
            (final(self).model(), r) == old(self).model().polled(replies@, alive),
    {
        if self.worker == Worker::Absent {
            return false;
        }
        let ghost g = self.model();
        let ghost all = replies@;
        let mut dirty = false;
        for reply in it: replies
            invariant
                it.seq() == all,
                self.wf(),
                (self.model(), dirty) == g.all_answered(all, it.index() as int),
        {
            let changed = self.accept_reply(reply);
            dirty = dirty || changed;
        }
        proof {
            lemma_answered_keeps(g, all, all.len() as int);
        }
        if !alive || self.worker == Worker::Dead {
            self.worker = Worker::Dead;
            let lost = match &self.detail {
                DetailState::Loading => true,
                _ => false,
            };
            if lost {
                self.detail = DetailState::Unavailable;
                dirty = true;
            }
            let lost_file = match &self.file_diff {
                FileDiffState::Loading(_) => true,
                _ => false,
            };
            if lost_file {
                self.file_diff = FileDiffState::Failed("diffs are unavailable".to_owned());
                self.file_diff_for = None;
                dirty = true;
            }
        }
        dirty
    }
}

/// Replies change what is shown, not the worker.
proof fn lemma_answered_keeps(g: Model, replies: Seq<Reply>, n: int)
    ensures
        g.all_answered(replies, n).0.worker == g.worker,
    decreases n,
{
    if n > 0 {
        lemma_answered_keeps(g, replies, n - 1);
    }
}

proof fn lemma_fed_keeps(g: Model, n: nat)
    ensures
        g.fed_many(n).selected == g.selected,
    decreases n,
{
    if n > 0 && g.pending.len() > 0 {
        lemma_fed_keeps(g.fed_one(), (n - 1) as nat);
    }
}

proof fn lemma_more_keeps(g: Model, n: nat)
    ensures
        g.more(n).selected == g.selected,
{
    lemma_fed_keeps(g, n);
}

/// What a search found is the one ranking there is.
proof fn lemma_found(nodes: Seq<GraphNode>, s: Search)
    requires
        s.fresh(nodes),
    ensures
        s.found() == search::found_by(
            model::row_scores(model::rows_view(nodes), s.typed()),
            s.typed(),
        ),
{
    let scores = model::row_scores(model::rows_view(nodes), s.typed());
    assert(scores =~= search::node_scores(nodes, s.typed()));
    if s.typed().len() == 0 {
        assert(s.found() =~= Seq::<usize>::empty());
    } else {
        search::law_one_ranking(scores, s.found(), search::ranking(scores));
    }
}

/// The commits of a walk up to its first failure, and that failure.
fn take_commits(items: Vec<WalkItem>) -> (r: (VecDeque<CommitInfo>, Option<String>))
    ensures
        r.0@ == model::walked(items@),
        message_view(r.1) == model::walk_error(items@),
{
    let ghost all = items@;
    let mut commits: VecDeque<CommitInfo> = VecDeque::new();
    let mut error: Option<String> = None;
    proof {
        assert(all.skip(0) =~= all);
        assert(commits@ + model::walked(all) =~= model::walked(all));
    }
    for item in it: items
        invariant
            it.seq() == all,
            error is None ==> model::walked(all) == commits@ + model::walked(
                all.skip(it.index() as int),
            ) && model::walk_error(all) == model::walk_error(all.skip(it.index() as int)),
            error matches Some(e) ==> model::walked(all) == commits@ && model::walk_error(all)
                == Some(e@),
    {
        let ghost rest = all.skip(it.index() as int);
        let ghost before = commits@;
        proof {
            assert(rest[0] == item);
            assert(rest.drop_first() =~= all.skip(it.index() + 1 as int));
        }
        if error.is_none() {
            match item {
                WalkItem::Commit(c) => {
                    commits.push_back(c);
                    proof {
                        assert(before + (seq![c] + model::walked(rest.drop_first()))
                            =~= before.push(c) + model::walked(rest.drop_first()));
                    }
                },
                WalkItem::Failed(e) => {
                    error = Some(e);
                    proof {
                        assert(before + Seq::<CommitInfo>::empty() =~= before);
                    }
                },
            }
        }
    }
    proof {
        assert(all.skip(all.len() as int) =~= Seq::<WalkItem>::empty());
        assert(commits@ + Seq::<CommitInfo>::empty() =~= commits@);
    }
    (commits, error)
}

/// The refs of a reading, by commit.
fn read_refs(all: Option<Vec<RefInfo>>) -> (r: Vec<Decorated>)
    ensures
        model::labels_of(r@) == Model::labels_read(all),
{
    let list = match all {
        Some(v) => v,
        None => Vec::new(),
    };
    let ghost seen = list@;
    let out = group_refs(list);
    proof {
        assert(all is None ==> seen =~= Seq::<RefInfo>::empty());
        assert(model::labels_of(out@) =~= Model::labels_read(all));
    }
    out
}

} // verus!
