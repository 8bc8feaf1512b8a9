//! The overlay: keys, clicks, replies and frames.
use asd::geometry::Rect;
use asd::git::commit::{CommitInfo, ObjectId, ReadError};
use asd::git::diff::{Algorithm, CommitDiff, DiffLine, FileChange, FileDiff};
use asd::git::refs::{RefInfo, RefKind};
use asd::git::repo::{ChangeRow, Counted, Discovery, FileContent, Repo, TreeChange};
use asd::input::{KeyCode, KeyEvent, MouseEvent, MouseEventKind, CONTROL, NONE, SHIFT};
use asd::screen::TITLE_MAX;
use asd::state::graph::GitGraph;
use asd::state::{
    DetailState, FileDiffState, Mode, Outcome, Reading, Walk, WalkItem, PAGE_FIRST,
};
use asd::ui::highlight::{Highlighter, Palette};
use asd::ui::layout::Pane;
use asd::worker::{highlight_diff, HighlightedDiff, Reply, Request, DIFF_CONTEXT};
use ratatui::buffer::Buffer;
use std::collections::{BTreeMap, VecDeque};

/// The same rectangle for the buffer.
fn screen(area: Rect) -> ratatui::layout::Rect {
    ratatui::layout::Rect::new(area.x, area.y, area.width, area.height)
}

/// An empty buffer that covers an area.
fn empty(area: Rect) -> Buffer {
    Buffer::empty(screen(area))
}

/// A key without modifiers.
fn key(code: KeyCode) -> KeyEvent {
    KeyEvent::new(code, NONE)
}

/// The name of the n-th object.
fn id(n: u64) -> ObjectId {
    ObjectId {
        high: 0xe69d_e29b,
        middle: n,
        low: 0,
    }
}

/// A diff of no files.
fn no_files() -> CommitDiff {
    CommitDiff {
        files: Vec::new(),
        insertions: 0,
        removals: 0,
    }
}

/// A history in memory, with the working tree it was made from.
struct History {
    /// The commits, oldest first, each with the files it left behind.
    commits: Vec<(CommitInfo, BTreeMap<String, String>)>,
    tree: BTreeMap<String, String>,
    refs: Vec<RefInfo>,
    palette: Palette,
}

impl History {
    fn new() -> Self {
        History {
            commits: Vec::new(),
            tree: BTreeMap::new(),
            refs: Vec::new(),
            palette: Palette::load(),
        }
    }

    /// Put a file into the working tree.
    fn write(&mut self, name: impl Into<String>, body: impl Into<String>) {
        self.tree.insert(name.into(), body.into());
    }

    /// Commit the working tree.
    fn commit(&mut self, summary: &str) -> ObjectId {
        let n = self.commits.len() as u64 + 1;
        let parents = if n > 1 { vec![id(n - 1)] } else { Vec::new() };
        let info = CommitInfo {
            id: id(n),
            parents,
            summary: summary.to_string(),
            body: String::new(),
            author: "asd test".to_string(),
            time: 1_700_000_000 + n as i64,
        };
        self.commits.push((info, self.tree.clone()));
        id(n)
    }

    /// The newest commit.
    fn head(&self) -> Option<ObjectId> {
        self.commits.last().map(|c| c.0.id)
    }

    /// Tag the newest commit.
    fn tag(&mut self, name: &str) {
        let head = self.head().unwrap();
        self.tag_at(name, head);
    }

    /// Tag a commit.
    fn tag_at(&mut self, name: &str, target: ObjectId) {
        self.label(name, target, RefKind::Tag);
    }

    /// Point a remote branch at the newest commit.
    fn remote(&mut self, name: &str) {
        let head = self.head().unwrap();
        self.label(name, head, RefKind::RemoteBranch);
    }

    fn label(&mut self, name: &str, target: ObjectId, kind: RefKind) {
        self.refs.push(RefInfo {
            name: name.to_string(),
            target,
            kind,
        });
    }

    /// The files before and after the n-th commit.
    fn sides(&self, n: usize) -> (BTreeMap<String, String>, BTreeMap<String, String>) {
        let before = if n > 0 {
            self.commits[n - 1].1.clone()
        } else {
            BTreeMap::new()
        };
        (before, self.commits[n].1.clone())
    }

    /// What was read of the repository.
    fn reading(&self) -> Reading {
        let committed = self.commits.last().map(|c| c.1.clone()).unwrap_or_default();
        let changed = self
            .tree
            .iter()
            .filter(|(name, body)| committed.get(*name) != Some(*body))
            .count();
        let mut refs = self.refs.clone();
        if let Some(head) = self.head() {
            refs.push(RefInfo {
                name: "main".to_string(),
                target: head,
                kind: RefKind::LocalBranch,
            });
        }
        Reading {
            changes: Some(changed),
            walk: Walk::Items(
                self.commits
                    .iter()
                    .rev()
                    .map(|c| WalkItem::Commit(c.0.clone()))
                    .collect(),
            ),
            refs: Some(refs),
        }
    }

    /// The overlay on this history, with a worker at hand.
    fn open(&self) -> GitGraph {
        GitGraph::open(
            "/r",
            Discovery::WorkTree("/r".to_string()),
            self.reading(),
            true,
        )
        .expect("the history opens")
    }

    /// The repository itself.
    fn repo(&self) -> Repo {
        Repo::open("/r", Discovery::WorkTree("/r".to_string())).unwrap()
    }

    /// What the worker answers.
    fn answer(&self, requests: Vec<Request>) -> Vec<Reply> {
        requests
            .into_iter()
            .map(|request| match request {
                Request::Commit(commit) => Reply::Commit {
                    id: commit,
                    result: self.commit_diff(commit).map_err(|e| e.0),
                },
                Request::File { commit, path } => {
                    let result = self.file_diff(commit, &path).map_err(|e| e.0);
                    let mut highlighter = Highlighter::new(&self.palette);
                    Reply::File {
                        commit,
                        path,
                        result: result.map(|d| highlight_diff(&mut highlighter, d)),
                    }
                }
            })
            .collect()
    }

    fn commit_diff(&self, commit: ObjectId) -> Result<CommitDiff, ReadError> {
        let (before, after) = self.sides(commit.middle as usize - 1);
        let changes = after
            .iter()
            .filter(|(name, body)| before.get(*name) != Some(*body))
            .map(|(name, body)| TreeChange {
                is_blob: true,
                path: name.clone(),
                change: if before.contains_key(name) {
                    FileChange::Modified
                } else {
                    FileChange::Added
                },
                counted: Counted::Text {
                    algorithm: Algorithm::Myers,
                    before: before.get(name).cloned().unwrap_or_default().into_bytes(),
                    after: body.clone().into_bytes(),
                },
            })
            .map(ChangeRow::of_tree)
            .collect();
        self.repo().commit_diff(Ok(changes))
    }

    fn file_diff(&self, commit: ObjectId, path: &str) -> Result<FileDiff, ReadError> {
        let (before, after) = self.sides(commit.middle as usize - 1);
        let side = |files: &BTreeMap<String, String>| {
            files.get(path).cloned().unwrap_or_default().into_bytes()
        };
        self.repo().file_diff(
            path,
            DIFF_CONTEXT,
            Some(FileContent::Text {
                algorithm: Algorithm::Myers,
                before: side(&before),
                after: side(&after),
            }),
            Ok(()),
        )
    }
}

/// Let the worker answer everything the overlay has asked for.
fn settle(fx: &History, g: &mut GitGraph) {
    loop {
        let requests = g.take_requests();
        if requests.is_empty() {
            break;
        }
        g.poll(fx.answer(requests), true);
    }
}

/// A successful commit reply.
fn commit_reply(id: ObjectId) -> Reply {
    Reply::Commit {
        id,
        result: Ok(no_files()),
    }
}

/// A successful file reply.
fn file_reply(commit: ObjectId, path: &str) -> Reply {
    Reply::File {
        commit,
        path: path.to_string(),
        result: Ok(HighlightedDiff::new(
            FileDiff {
                path: path.to_string(),
                lines: Vec::new(),
                binary: false,
                truncated: false,
            },
            Vec::new(),
        )),
    }
}

/// Every symbol in `area`, row by row, as one string.
fn buffer_text(buf: &Buffer, area: Rect) -> String {
    (0..area.height)
        .flat_map(|y| (0..area.width).map(move |x| (x, y)))
        .map(|(x, y)| buf[(x, y)].symbol().to_string())
        .collect()
}

/// A history of `n` commits, opened.
fn graph_with(n: usize) -> (History, GitGraph) {
    let mut fx = History::new();
    for i in 0..n {
        fx.commit(&format!("commit {i}"));
    }
    let g = fx.open();
    (fx, g)
}

/// A history whose single commit touches `files` files, opened and settled.
fn ready_graph(files: usize) -> (History, GitGraph) {
    let mut fx = History::new();
    for i in 0..files {
        fx.write(format!("f{i}.txt"), "one\n");
    }
    fx.commit("first");
    let mut g = fx.open();
    settle(&fx, &mut g);
    (fx, g)
}

/// A history whose second commit changes `a.txt`, opened and settled, with focus
/// already on the changed-files pane.
fn graph_on_a_file(first: &str, second: &str) -> (History, GitGraph) {
    let mut fx = History::new();
    fx.write("a.txt", first);
    fx.commit("first");
    fx.write("a.txt", second);
    fx.commit("second");

    let mut g = fx.open();
    settle(&fx, &mut g);
    g.on_key(key(KeyCode::Tab));
    g.on_key(key(KeyCode::Tab));
    assert_eq!(g.focus(), Pane::Files);
    (fx, g)
}

/// Three commits with summaries no fuzzy query can confuse for each other. Rows
/// are newest first, so row 0 is `gamma` and row 2 `alpha`.
fn searchable() -> (History, GitGraph) {
    let mut fx = History::new();
    fx.commit("alpha the first");
    fx.commit("beta the second");
    fx.commit("gamma the third");
    let g = fx.open();
    (fx, g)
}

/// Type `query` into an already-open dropdown.
fn type_query(g: &mut GitGraph, query: &str) {
    for c in query.chars() {
        assert_eq!(
            g.on_key(key(KeyCode::Char(c))),
            Outcome::Redraw,
            "typing must ask for a repaint"
        );
    }
}

#[test]
fn opens_with_the_newest_commit_selected() {
    let (_fx, g) = graph_with(3);
    assert_eq!(g.selected(), 0);
    assert_eq!(g.row_count(), 3);
}

#[test]
fn opening_a_dirty_repository_shows_the_uncommitted_row_above_the_newest_commit() {
    let mut fx = History::new();
    fx.commit("first");
    fx.commit("second");
    fx.write("dirty.txt", "x\n");

    let mut g = fx.open();
    assert_eq!(g.row_count(), 3, "two commits plus the synthetic row");
    assert_eq!(g.selected(), 0, "the synthetic row is selected first");
    assert_eq!(
        g.selected_id(),
        None,
        "the synthetic row has no commit, so no diff request is made"
    );

    let area = Rect::new(0, 0, 60, 10);
    let mut buf = empty(area);
    g.render(area, &mut buf);
    let text = buffer_text(&buf, area);
    assert!(
        text.contains("1 uncommitted changes"),
        "the row's count is rendered: {text:?}"
    );
}

#[test]
fn selecting_a_row_with_no_commit_clears_the_detail() {
    let mut fx = History::new();
    fx.write("a.txt", "1\n");
    fx.commit("first");
    fx.write("dirty.txt", "x\n");

    let mut g = fx.open();
    assert_eq!(g.row_count(), 2, "one commit plus the synthetic row");

    // Down onto the commit, and answer its request, so there is a real
    // diff on screen for the move back to clear.
    g.on_key(key(KeyCode::Char('j')));
    let id = g.selected_id().expect("row 1 is the commit");
    assert!(g.accept_reply(commit_reply(id)));
    assert!(matches!(g.detail(), DetailState::Ready(_)));

    // `g` goes back to row 0, which stands for no commit at all.
    g.on_key(key(KeyCode::Char('g')));
    assert_eq!(g.selected(), 0);
    assert_eq!(g.selected_id(), None);
    assert_eq!(
        g.detail(),
        &DetailState::Ready(no_files()),
        "an empty detail, not the commit's"
    );
    assert!(
        !g.accept_reply(commit_reply(id)),
        "a reply for the commit left behind must not land on this row"
    );

    // And the panes say so rather than describing the commit below.
    let area = Rect::new(0, 0, 70, 24);
    let mut buf = empty(area);
    g.render(area, &mut buf);
    let text = buffer_text(&buf, area);
    assert!(
        text.contains("no files changed"),
        "the files pane is empty for a non-commit row: {text:?}"
    );
}

#[test]
fn a_clean_repository_shows_no_uncommitted_row() {
    let (_fx, g) = graph_with(2);
    assert_eq!(g.row_count(), 2, "no synthetic row when the tree is clean");
}

#[test]
fn refreshing_a_dirty_repository_keeps_the_uncommitted_row() {
    let mut fx = History::new();
    fx.commit("first");
    fx.commit("second");
    fx.write("dirty.txt", "x\n");

    let mut g = fx.open();
    assert_eq!(g.row_count(), 3, "two commits plus the synthetic row");

    assert_eq!(
        g.on_key(KeyEvent::new(KeyCode::Char('R'), SHIFT)),
        Outcome::Reread
    );
    g.reread(fx.reading());

    assert_eq!(
        g.row_count(),
        3,
        "the refresh must not drop the synthetic row while the tree is still dirty"
    );
    let area = Rect::new(0, 0, 60, 10);
    let mut buf = empty(area);
    g.render(area, &mut buf);
    let text = buffer_text(&buf, area);
    assert!(
        text.contains("1 uncommitted changes"),
        "the row's count is still rendered after the refresh: {text:?}"
    );
}

#[test]
fn j_and_k_move_the_selection_and_stop_at_the_ends() {
    let (_fx, mut g) = graph_with(3);
    assert!(matches!(
        g.on_key(key(KeyCode::Char('k'))),
        Outcome::Consumed
    ));
    assert_eq!(g.selected(), 0, "k at the top stays at the top");

    g.on_key(key(KeyCode::Char('j')));
    assert_eq!(g.selected(), 1);
    g.on_key(key(KeyCode::Char('j')));
    g.on_key(key(KeyCode::Char('j')));
    g.on_key(key(KeyCode::Char('j')));
    assert_eq!(g.selected(), 2, "j at the bottom stays at the bottom");
}

#[test]
fn g_and_shift_g_jump_to_the_ends() {
    let (_fx, mut g) = graph_with(5);
    g.on_key(KeyEvent::new(KeyCode::Char('G'), SHIFT));
    assert_eq!(g.selected(), g.row_count() - 1);
    g.on_key(key(KeyCode::Char('g')));
    assert_eq!(g.selected(), 0);
}

#[test]
fn q_and_esc_dismiss() {
    let (_fx, mut g) = graph_with(2);
    assert!(matches!(
        g.on_key(key(KeyCode::Char('q'))),
        Outcome::Dismiss
    ));
    assert!(matches!(g.on_key(key(KeyCode::Esc)), Outcome::Dismiss));
}

#[test]
fn y_hands_the_hash_back_to_the_host() {
    let (_fx, mut g) = graph_with(2);
    let Outcome::Copy(text) = g.on_key(key(KeyCode::Char('y'))) else {
        panic!("y must yield Outcome::Copy");
    };
    assert_eq!(
        text.len(),
        40,
        "a full sha1, not the abbreviation: {text:?}"
    );
}

#[test]
fn an_empty_repository_opens_with_no_rows() {
    let fx = History::new();
    let g = fx.open();
    assert_eq!(g.row_count(), 0);
    // Moving around an empty graph must not panic.
    let mut g = g;
    g.on_key(key(KeyCode::Char('j')));
    g.on_key(key(KeyCode::Char('G')));
    // Crossterm reports an uppercase letter with SHIFT set, so the line
    // above lands on the fallback arm rather than the jump-to-bottom one.
    // Send the shape a real terminal sends, so an empty graph actually
    // walks the `G` handler and its load-everything loop.
    g.on_key(KeyEvent::new(KeyCode::Char('G'), SHIFT));
    assert_eq!(g.selected(), 0);
}

#[test]
fn poll_settles_to_false_once_the_initial_detail_has_arrived() {
    // Opening posts a request for the newly selected commit, so the
    // very first poll may deliver it. Once that reply has landed and
    // nothing else is outstanding, poll must go back to reporting no
    // change.
    let (fx, mut g) = graph_with(1);
    settle(&fx, &mut g);
    assert!(
        !g.poll(Vec::new(), true),
        "no background work is outstanding once the detail has settled"
    );
}

#[test]
fn selecting_a_commit_asks_the_worker_and_poll_delivers_it() {
    let mut fx = History::new();
    fx.write("a.txt", "one\ntwo\n");
    fx.commit("first");

    let mut g = fx.open();
    // Opening selects the newest commit, which posts a request.
    assert!(matches!(g.detail(), DetailState::Loading));

    settle(&fx, &mut g);

    match g.detail() {
        DetailState::Ready(d) => {
            assert_eq!(d.files.len(), 1);
            assert_eq!(d.files[0].path, "a.txt");
        }
        other => panic!("expected a ready detail, got {other:?}"),
    }
}

#[test]
fn poll_reports_false_when_nothing_arrived() {
    let mut fx = History::new();
    fx.write("a.txt", "one\n");
    fx.commit("first");

    let mut g = fx.open();
    // Drain whatever the initial selection produced.
    settle(&fx, &mut g);
    assert!(
        !g.poll(Vec::new(), true),
        "a second poll with no outstanding work reports no change"
    );
}

#[test]
fn a_reply_for_a_commit_no_longer_selected_is_discarded() {
    // Selection moves faster than the worker on a large repository; a late
    // reply must not overwrite the detail of the row the user is now on.
    let mut fx = History::new();
    for i in 0..3 {
        fx.write("a.txt", format!("{i}\n"));
        fx.commit(&format!("commit {i}"));
    }
    let mut g = fx.open();
    let newest = g.selected_id().expect("a commit is selected");

    g.on_key(KeyEvent::new(KeyCode::Char('j'), NONE));
    let now_selected = g.selected_id().expect("still on a commit");
    assert_ne!(newest, now_selected);

    // Feed a reply for the OLD selection and confirm it is ignored.
    g.accept_reply(commit_reply(newest));
    assert!(
        matches!(g.detail(), DetailState::Loading),
        "a stale reply must not become the current detail"
    );
}

#[test]
fn a_reply_that_arrives_as_the_worker_dies_is_still_applied() {
    let mut fx = History::new();
    fx.write("a.txt", "one\ntwo\n");
    fx.commit("first");

    let mut g = fx.open();
    // Opening already posted a request for the newest commit.
    assert!(matches!(g.detail(), DetailState::Loading));
    let replies = fx.answer(g.take_requests());

    // The thread is gone, but its last reply is still to be read.
    assert!(g.poll(replies, false), "applying the final reply must repaint");
    match g.detail() {
        DetailState::Ready(d) => {
            assert_eq!(d.files.len(), 1);
            assert_eq!(d.files[0].path, "a.txt");
        }
        other => {
            panic!("the reply that beat the death notice must still be applied, got {other:?}")
        }
    }

    // Nothing is left outstanding, and the worker's death was already noticed:
    // a second poll must settle rather than keep reporting change forever.
    assert!(
        !g.poll(Vec::new(), false),
        "no outstanding work once the worker's death has been noticed"
    );
}

#[test]
fn state_rendering_at_any_size_does_not_panic() {
    let (_fx, mut with_rows) = graph_with(3);
    let empty_fx = History::new();
    let mut no_rows = empty_fx.open();
    let (_err_fx, mut errored) = graph_with(1);
    errored.error = Some("simulated read failure with a long message".to_string());
    // The search dropdown is drawn over the graph pane, and also over the
    // "no commits yet" message, so both branches of `render` are swept.
    let (_search_fx, mut searching) = graph_with(3);
    searching.on_key(key(KeyCode::Char('/')));
    for c in "commit".chars() {
        searching.on_key(key(KeyCode::Char(c)));
    }
    let empty_search_fx = History::new();
    let mut searching_empty = empty_search_fx.open();
    searching_empty.on_key(key(KeyCode::Char('/')));
    // The help popup is drawn over both branches of `render` too: the
    // three panes, and the "no commits yet" message.
    let (_help_fx, mut helping) = graph_with(3);
    helping.on_key(key(KeyCode::Char('?')));
    let empty_help_fx = History::new();
    let mut helping_empty = empty_help_fx.open();
    helping_empty.on_key(key(KeyCode::Char('?')));

    for graph in [
        &mut with_rows,
        &mut no_rows,
        &mut errored,
        &mut searching,
        &mut searching_empty,
        &mut helping,
        &mut helping_empty,
    ] {
        for &ox in &[0u16, 2] {
            for &oy in &[0u16, 1] {
                for width in 0..=10u16 {
                    for height in 0..=6u16 {
                        let area = Rect::new(ox, oy, width, height);
                        // Sized to the minimum that still contains `area`,
                        // which is ratatui's own indexing precondition.
                        let mut buf = empty(Rect::new(
                            0,
                            0,
                            ox.saturating_add(width),
                            oy.saturating_add(height),
                        ));
                        graph.render(area, &mut buf);
                    }
                }
            }
        }

        // An area running past the buffer's edge, and one starting outside it
        // entirely.
        for &(bx, by, bw, bh) in &[
            (0u16, 0u16, 0u16, 0u16),
            (0, 0, 1, 1),
            (0, 0, 5, 3),
            (0, 0, 20, 8),
            // A buffer that does not start at the origin: a clamp written
            // as `min(width)` rather than a real intersection passes every
            // case above and fails this one.
            (4, 2, 12, 6),
        ] {
            let mut buf = empty(Rect::new(bx, by, bw, bh));
            for &area in &[
                Rect::new(0, 0, 200, 60),
                Rect::new(bx, by, 200, 60),
                Rect::new(bx.saturating_add(bw), by.saturating_add(bh), 40, 20),
                Rect::new(180, 50, 40, 20),
                Rect::new(u16::MAX - 2, u16::MAX - 2, 8, 8),
            ] {
                graph.render(area, &mut buf);
            }
        }
    }
}

#[test]
fn a_half_page_key_moves_even_when_the_viewport_is_one_row() {
    // `viewport_rows` is 1 until the first frame, and stays 1 in a
    // three-row-tall overlay. A raw `page / 2` is 0 there, which makes
    // Ctrl-D and Ctrl-U permanently dead rather than merely small-stepped.
    let (_fx, mut g) = graph_with(3);
    assert_eq!(g.viewport_rows, 1, "no frame has been rendered yet");

    g.on_key(KeyEvent::new(KeyCode::Char('d'), CONTROL));
    assert_eq!(g.selected(), 1, "Ctrl-D must move at least one row");
    g.on_key(KeyEvent::new(KeyCode::Char('u'), CONTROL));
    assert_eq!(g.selected(), 0, "Ctrl-U must move at least one row");
}

#[test]
fn a_partial_read_error_does_not_hide_the_rows_it_did_read() {
    // A mid-walk failure keeps the commits already drained. Showing the
    // error *instead of* them would blank an otherwise fine history over
    // one unreadable commit, so it belongs in the title, not the body.
    let (_fx, mut g) = graph_with(3);
    g.error = Some("reading a commit: object not found".to_string());

    let area = Rect::new(0, 0, 60, 6);
    let mut buf = empty(area);
    g.render(area, &mut buf);
    let text = buffer_text(&buf, area);

    assert!(
        text.contains("commit 2"),
        "the rows survive the error: {text:?}"
    );
    assert!(
        text.contains("partial read"),
        "the error is still surfaced: {text:?}"
    );
    assert!(
        !text.contains("cannot read this repository"),
        "the whole-body failure message is for an empty graph only: {text:?}"
    );
}

#[test]
fn a_read_error_with_no_rows_is_the_whole_message() {
    let fx = History::new();
    let mut g = fx.open();
    g.error = Some("opening references: broken".to_string());

    let area = Rect::new(0, 0, 60, 6);
    let mut buf = empty(area);
    g.render(area, &mut buf);
    let text = buffer_text(&buf, area);
    assert!(text.contains("cannot read this repository"), "{text:?}");
}

#[test]
fn an_empty_repository_renders_its_own_message() {
    let fx = History::new();
    let mut g = fx.open();
    let area = Rect::new(0, 0, 40, 5);
    let mut buf = empty(area);
    g.render(area, &mut buf);

    let text = buffer_text(&buf, area);
    assert!(text.contains("no commits yet"), "{text:?}");
}

#[test]
fn tab_cycles_focus_through_the_three_panes() {
    let (_fx, mut g) = ready_graph(2);
    assert_eq!(g.focus(), Pane::Graph);
    g.on_key(KeyEvent::new(KeyCode::Tab, NONE));
    assert_eq!(g.focus(), Pane::Detail);
    g.on_key(KeyEvent::new(KeyCode::Tab, NONE));
    assert_eq!(g.focus(), Pane::Files);
    g.on_key(KeyEvent::new(KeyCode::Tab, NONE));
    assert_eq!(g.focus(), Pane::Graph, "Tab wraps");
}

#[test]
fn back_tab_cycles_the_other_way() {
    let (_fx, mut g) = ready_graph(2);
    g.on_key(KeyEvent::new(KeyCode::BackTab, SHIFT));
    assert_eq!(g.focus(), Pane::Files);
    g.on_key(KeyEvent::new(KeyCode::BackTab, SHIFT));
    assert_eq!(g.focus(), Pane::Detail);
    g.on_key(KeyEvent::new(KeyCode::BackTab, SHIFT));
    assert_eq!(g.focus(), Pane::Graph);
}

#[test]
fn j_moves_the_file_selection_when_the_files_pane_has_focus() {
    let (_fx, mut g) = ready_graph(3);
    let commit_row = g.selected();
    g.on_key(KeyEvent::new(KeyCode::Tab, NONE));
    g.on_key(KeyEvent::new(KeyCode::Tab, NONE));
    assert_eq!(g.focus(), Pane::Files);

    assert_eq!(g.file_selected(), 0);
    g.on_key(KeyEvent::new(KeyCode::Char('j'), NONE));
    assert_eq!(g.file_selected(), 1, "j moves within the file list");
    assert_eq!(
        g.selected(),
        commit_row,
        "and leaves the commit selection alone"
    );
}

#[test]
fn the_file_selection_cannot_run_past_the_list() {
    let (_fx, mut g) = ready_graph(2);
    g.on_key(KeyEvent::new(KeyCode::Tab, NONE));
    g.on_key(KeyEvent::new(KeyCode::Tab, NONE));
    for _ in 0..20 {
        g.on_key(KeyEvent::new(KeyCode::Char('j'), NONE));
    }
    assert_eq!(g.file_selected(), 1, "two files means the last index is 1");
}

#[test]
fn a_click_moves_focus_to_the_pane_that_was_clicked() {
    let (_fx, mut g) = ready_graph(2);
    // Render once so the layout map is populated.
    let area = Rect::new(0, 0, 100, 40);
    let mut buf = empty(area);
    g.render(area, &mut buf);
    let map = g.layout;
    assert!(
        map.files.height > 0,
        "the fixture area is tall enough to split"
    );

    g.on_mouse(MouseEvent {
        kind: MouseEventKind::Down,
        column: map.files.x + 1,
        row: map.files.y + 1,
    });
    assert_eq!(g.focus(), Pane::Files);
}

#[test]
fn switching_commits_resets_the_file_selection() {
    let mut fx = History::new();
    fx.write("a.txt", "1\n");
    fx.commit("first");
    fx.write("b.txt", "2\n");
    fx.write("c.txt", "3\n");
    fx.commit("second");

    let mut g = fx.open();
    settle(&fx, &mut g);
    g.on_key(KeyEvent::new(KeyCode::Tab, NONE));
    g.on_key(KeyEvent::new(KeyCode::Tab, NONE));
    g.on_key(KeyEvent::new(KeyCode::Char('j'), NONE));
    assert_eq!(g.file_selected(), 1);

    // Move to the older commit; its file list is different.
    g.on_key(KeyEvent::new(KeyCode::Char('j'), NONE));
    // Focus is on Files, so move the commit selection via the graph pane.
    g.on_key(KeyEvent::new(KeyCode::Tab, NONE));
    assert_eq!(g.focus(), Pane::Graph);
    g.on_key(KeyEvent::new(KeyCode::Char('j'), NONE));
    settle(&fx, &mut g);
    assert_eq!(
        g.file_selected(),
        0,
        "a new commit starts at its first file"
    );
}

#[test]
fn the_wheel_scrolls_the_pane_under_the_pointer_and_leaves_focus_alone() {
    // Four files so the list has somewhere to move to, and a rendered
    // frame so the layout map can route by coordinate.
    let (_fx, mut g) = ready_graph(4);
    let area = Rect::new(0, 0, 100, 40);
    let mut buf = empty(area);
    g.render(area, &mut buf);
    let map = g.layout;

    let wheel = |kind, x, y| MouseEvent {
        kind,
        column: x,
        row: y,
    };

    // Focus stays on the graph throughout: the wheel is not a click.
    assert_eq!(g.focus(), Pane::Graph);
    g.on_mouse(wheel(
        MouseEventKind::ScrollDown,
        map.files.x + 1,
        map.files.y + 1,
    ));
    assert_eq!(g.file_selected(), 3, "the files pane scrolled");
    assert_eq!(g.focus(), Pane::Graph, "the wheel did not move focus");

    // And again where the movement is clamped away, which is the path
    // that returns early: the focus must still be where it was.
    g.on_mouse(wheel(
        MouseEventKind::ScrollDown,
        map.files.x + 1,
        map.files.y + 1,
    ));
    assert_eq!(g.file_selected(), 3);
    assert_eq!(g.focus(), Pane::Graph);

    // The wheel over the graph still moves the commit selection.
    g.on_mouse(wheel(
        MouseEventKind::ScrollDown,
        map.graph.x + 1,
        map.graph.y,
    ));
    assert_eq!(g.focus(), Pane::Graph);
    assert_eq!(
        g.file_selected(),
        3,
        "which is not the files pane's business"
    );
}

#[test]
fn the_detail_pane_scrolls_but_not_past_its_own_content() {
    let (_fx, mut g) = ready_graph(1);
    let area = Rect::new(0, 0, 100, 40);
    let mut buf = empty(area);
    g.render(area, &mut buf);

    g.on_key(KeyEvent::new(KeyCode::Tab, NONE));
    assert_eq!(g.focus(), Pane::Detail);
    // The detail pane here is 19 rows tall and its content is 6 rows, so
    // there is nothing to scroll to and the offset must stay put rather
    // than run off into blank space.
    for _ in 0..40 {
        g.on_key(KeyEvent::new(KeyCode::Char('j'), NONE));
    }
    assert_eq!(
        g.detail_scroll, 0,
        "content shorter than the pane never scrolls"
    );
    assert_eq!(g.selected(), 0, "and the commit selection did not move");
}

#[test]
fn a_repeat_key_still_moves_the_selection() {
    // A key that is held down is handed over again and again.
    let (_fx, mut g) = graph_with(3);
    let k = KeyEvent::new(KeyCode::Char('j'), NONE);
    g.on_key(k);
    assert_eq!(g.selected(), 1);
    g.on_key(k);
    assert_eq!(g.selected(), 2);
}

#[test]
fn scrolling_past_the_loaded_tail_loads_more() {
    // The first page is PAGE_FIRST rows; walking past it must extend
    // rather than stop.
    let (_fx, mut g) = graph_with(PAGE_FIRST + 40);
    assert_eq!(g.row_count(), PAGE_FIRST, "first page is bounded");
    g.on_key(KeyEvent::new(KeyCode::Char('G'), SHIFT));
    assert!(
        g.row_count() > PAGE_FIRST,
        "G loads the rest: {} rows",
        g.row_count()
    );
    assert_eq!(g.selected(), g.row_count() - 1);
}

#[test]
fn enter_on_a_file_opens_its_diff_and_esc_returns() {
    let (_fx, mut g) = graph_on_a_file("1\n2\n3\n", "1\nTWO\n3\n");
    assert_eq!(g.mode(), Mode::Normal);

    assert!(matches!(g.on_key(key(KeyCode::Enter)), Outcome::Redraw));
    assert_eq!(g.mode(), Mode::FileDiff, "Enter opens the selected file");

    // Esc unwinds one layer, back to the list.
    assert!(matches!(g.on_key(key(KeyCode::Esc)), Outcome::Redraw));
    assert_eq!(g.mode(), Mode::Normal);

    // And `q` unwinds the same one layer rather than closing the overlay.
    g.on_key(key(KeyCode::Enter));
    assert_eq!(g.mode(), Mode::FileDiff);
    assert!(matches!(g.on_key(key(KeyCode::Char('q'))), Outcome::Redraw));
    assert_eq!(g.mode(), Mode::Normal);
}

#[test]
fn esc_in_normal_mode_still_dismisses_the_overlay() {
    let (_fx, mut g) = ready_graph(1);
    assert_eq!(g.mode(), Mode::Normal);
    assert!(matches!(g.on_key(key(KeyCode::Esc)), Outcome::Dismiss));
}

#[test]
fn enter_outside_the_files_pane_opens_nothing() {
    let (_fx, mut g) = ready_graph(1);
    assert_eq!(g.focus(), Pane::Graph);
    assert!(matches!(g.on_key(key(KeyCode::Enter)), Outcome::Consumed));
    assert_eq!(g.mode(), Mode::Normal);
}

#[test]
fn the_file_diff_arrives_through_poll() {
    let (fx, mut g) = graph_on_a_file("1\n2\n3\n", "1\nTWO\n3\n");
    g.on_key(key(KeyCode::Enter));
    settle(&fx, &mut g);
    match g.file_diff() {
        FileDiffState::Ready(h) => {
            assert_eq!(h.diff.path, "a.txt");
            assert!(
                h.diff
                    .lines
                    .iter()
                    .any(|l| matches!(l, DiffLine::Added { .. }))
            );
            assert_eq!(
                h.spans.len(),
                h.diff.lines.len(),
                "the worker highlighted every line before the view saw it"
            );
        }
        other => panic!("expected a ready file diff, got {other:?}"),
    }
}

#[test]
fn a_file_reply_for_another_request_is_discarded() {
    // No cancellation: a reply for a file the user has navigated away from
    // still arrives, and must not become the open file's diff.
    let (_fx, mut g) = graph_on_a_file("1\n2\n3\n", "1\nTWO\n3\n");
    g.on_key(key(KeyCode::Enter));
    let commit = g.selected_id().expect("a commit is selected");

    assert!(
        !g.accept_reply(file_reply(commit, "other.txt")),
        "another path is not this request"
    );
    assert!(matches!(g.file_diff(), FileDiffState::Loading(_)));

    let other_commit = id(0);
    assert!(
        !g.accept_reply(file_reply(other_commit, "a.txt")),
        "the same path in another commit is not this request either"
    );
    assert!(matches!(g.file_diff(), FileDiffState::Loading(_)));

    assert!(g.accept_reply(file_reply(commit, "a.txt")));
    assert!(matches!(g.file_diff(), FileDiffState::Ready(_)));
}

#[test]
fn keys_in_the_file_diff_view_do_not_reach_the_panes_underneath() {
    // `j` here scrolls the diff. Letting it through would move the
    // changed-files selection out of sight, so closing the view would land
    // the reader on a file they never chose.
    let mut fx = History::new();
    for name in ["a.txt", "b.txt", "c.txt"] {
        fx.write(name, "1\n");
    }
    fx.commit("first");

    let mut g = fx.open();
    settle(&fx, &mut g);
    g.on_key(key(KeyCode::Tab));
    g.on_key(key(KeyCode::Tab));
    g.on_key(key(KeyCode::Enter));
    assert_eq!(g.mode(), Mode::FileDiff);

    let before = g.file_selected();
    let commit_row = g.selected();
    for _ in 0..5 {
        g.on_key(key(KeyCode::Char('j')));
    }
    assert_eq!(g.file_selected(), before, "the file list did not move");
    assert_eq!(g.selected(), commit_row, "nor did the commit selection");

    // And the same for the wheel, which routes by the last frame's pane
    // rectangles — none of which are on screen now.
    g.on_mouse(MouseEvent {
        kind: MouseEventKind::ScrollDown,
        column: 1,
        row: 1,
    });
    assert_eq!(g.file_selected(), before);
}

#[test]
fn the_file_diff_view_scrolls_within_its_own_diff() {
    let body: String = (1..=100).map(|i| format!("line {i}\n")).collect();
    let (fx, mut g) = graph_on_a_file("line 1\n", &body);
    g.on_key(key(KeyCode::Enter));
    settle(&fx, &mut g);
    let total = match g.file_diff() {
        FileDiffState::Ready(h) => h.diff.lines.len(),
        other => panic!("expected a ready file diff, got {other:?}"),
    };
    assert!(total > 20, "the fixture is longer than one screen: {total}");

    // A frame first: the step and the end both come from the last one.
    let area = Rect::new(0, 0, 60, 12);
    let mut buf = empty(area);
    g.render(area, &mut buf);
    let visible = g.file_diff_rows;
    assert!(visible > 0, "the view had room");

    assert!(matches!(g.on_key(key(KeyCode::Char('j'))), Outcome::Redraw));
    assert_eq!(g.file_diff_scroll, 1);
    g.on_key(key(KeyCode::Char('k')));
    assert_eq!(g.file_diff_scroll, 0);
    assert!(
        matches!(g.on_key(key(KeyCode::Char('k'))), Outcome::Consumed),
        "clamped away at the top"
    );

    g.on_key(KeyEvent::new(KeyCode::Char('G'), SHIFT));
    assert_eq!(
        g.file_diff_scroll,
        total - visible,
        "the last screenful is the end"
    );
    g.on_key(key(KeyCode::Char('g')));
    assert_eq!(g.file_diff_scroll, 0);
}

#[test]
fn reopening_the_same_file_reuses_the_diff_already_fetched() {
    // There is no cancellation, so every duplicate request is a whole file
    // diff computed and then thrown away.
    let (fx, mut g) = graph_on_a_file("1\n2\n3\n", "1\nTWO\n3\n");
    g.on_key(key(KeyCode::Enter));
    settle(&fx, &mut g);
    assert!(matches!(g.file_diff(), FileDiffState::Ready(_)));

    g.on_key(key(KeyCode::Esc));
    g.on_key(key(KeyCode::Enter));
    assert_eq!(g.mode(), Mode::FileDiff);
    assert!(
        matches!(g.file_diff(), FileDiffState::Ready(_)),
        "the diff already in hand is shown rather than fetched again"
    );
}

#[test]
fn the_file_diff_view_replaces_the_three_panes() {
    let (fx, mut g) = graph_on_a_file("1\nold\n3\n", "1\nnew\n3\n");
    g.on_key(key(KeyCode::Enter));
    settle(&fx, &mut g);

    let area = Rect::new(0, 0, 60, 20);
    let mut buf = empty(area);
    g.render(area, &mut buf);
    let text = buffer_text(&buf, area);
    assert!(
        text.contains("a.txt"),
        "the file's name is the title: {text:?}"
    );
    assert!(
        text.contains("new"),
        "and its added line is drawn: {text:?}"
    );
    assert!(
        !text.contains("Changed Files"),
        "the panes underneath are not drawn: {text:?}"
    );

    // Back to Normal, the panes return.
    g.on_key(key(KeyCode::Esc));
    let mut buf = empty(area);
    g.render(area, &mut buf);
    assert!(buffer_text(&buf, area).contains("Changed Files"));
}

#[test]
fn rendering_the_file_diff_view_at_any_size_does_not_panic() {
    // `render` clamps its area and `draw_file_diff` clamps every write,
    // but the mode is a second path through the same thread that paints
    // every open session, so it gets the same sweep.
    let (fx, mut g) = graph_on_a_file("1\n2\n3\n", "1\nTWO\n3\n");
    g.on_key(key(KeyCode::Enter));
    settle(&fx, &mut g);
    for &ox in &[0u16, 2] {
        for &oy in &[0u16, 1] {
            for width in 0..=12u16 {
                for height in 0..=6u16 {
                    let area = Rect::new(ox, oy, width, height);
                    let mut buf = empty(Rect::new(
                        0,
                        0,
                        ox.saturating_add(width),
                        oy.saturating_add(height),
                    ));
                    g.render(area, &mut buf);
                }
            }
        }
    }
}

#[test]
fn slash_opens_the_dropdown_and_esc_cancels_without_moving_the_selection() {
    let (_fx, mut g) = searchable();
    assert_eq!(g.on_key(key(KeyCode::Char('j'))), Outcome::Consumed);
    assert_eq!(g.selected(), 1, "start somewhere other than the top");

    assert_eq!(g.on_key(key(KeyCode::Char('/'))), Outcome::Redraw);
    assert_eq!(g.mode(), Mode::Search);
    type_query(&mut g, "alpha");

    assert_eq!(g.on_key(key(KeyCode::Esc)), Outcome::Redraw);
    assert_eq!(
        g.mode(),
        Mode::Normal,
        "Esc unwinds one layer, not the overlay"
    );
    assert_eq!(g.selected(), 1, "Esc must not move the selection");
}

#[test]
fn typing_narrows_the_matches_and_enter_jumps_to_the_match() {
    let (_fx, mut g) = searchable();
    assert_eq!(g.selected(), 0, "gamma, the newest, starts selected");

    g.on_key(key(KeyCode::Char('/')));
    type_query(&mut g, "alpha");
    assert_eq!(
        g.search.matches(),
        &[2],
        "only the oldest commit matches `alpha`"
    );

    assert_eq!(g.on_key(key(KeyCode::Enter)), Outcome::Redraw);
    assert_eq!(g.mode(), Mode::Normal, "Enter closes the dropdown");
    assert_eq!(g.selected(), 2, "and lands on the match");
}

#[test]
fn a_query_can_name_the_author() {
    let (_fx, mut g) = searchable();
    g.on_key(key(KeyCode::Char('/')));
    type_query(&mut g, "asd test");
    assert_eq!(g.search.matches().len(), 3, "every commit has that author");
}

#[test]
fn q_is_typed_into_the_query_rather_than_dismissing_the_overlay() {
    let (_fx, mut g) = searchable();
    g.on_key(key(KeyCode::Char('/')));
    assert_eq!(g.on_key(key(KeyCode::Char('q'))), Outcome::Redraw);
    assert_eq!(g.mode(), Mode::Search, "still searching");
    assert_eq!(g.search.query(), "q");
    // And `j` is a letter here too, not a movement key.
    g.on_key(key(KeyCode::Char('j')));
    assert_eq!(g.search.query(), "qj");
    assert_eq!(g.selected(), 0, "nothing moved the graph");
}

#[test]
fn backspace_and_the_movement_keys_edit_and_walk_the_match_list() {
    let (_fx, mut g) = searchable();
    g.on_key(key(KeyCode::Char('/')));
    type_query(&mut g, "the");
    assert_eq!(g.search.matches().len(), 3, "every summary contains `the`");
    assert_eq!(g.search.selected(), Some(0));

    assert_eq!(g.on_key(key(KeyCode::Down)), Outcome::Redraw);
    assert_eq!(g.search.selected(), Some(1));
    assert_eq!(
        g.on_key(KeyEvent::new(KeyCode::Char('j'), CONTROL)),
        Outcome::Redraw
    );
    assert_eq!(g.search.selected(), Some(2));
    g.on_key(KeyEvent::new(KeyCode::Char('k'), CONTROL));
    assert_eq!(g.search.selected(), Some(1));
    g.on_key(key(KeyCode::Up));
    assert_eq!(g.search.selected(), Some(0));

    assert_eq!(g.on_key(key(KeyCode::Backspace)), Outcome::Redraw);
    assert_eq!(g.search.query(), "th");
}

#[test]
fn enter_with_nothing_matched_leaves_the_selection_where_it_was() {
    let (_fx, mut g) = searchable();
    g.on_key(key(KeyCode::Char('j')));
    assert_eq!(g.selected(), 1);
    g.on_key(key(KeyCode::Char('/')));
    type_query(&mut g, "zzzz");
    assert!(g.search.matches().is_empty());
    assert_eq!(g.on_key(key(KeyCode::Enter)), Outcome::Redraw);
    assert_eq!(g.mode(), Mode::Normal);
    assert_eq!(g.selected(), 1, "no match, no jump");
}

#[test]
fn enter_jumps_through_select_so_the_row_ends_up_in_the_viewport() {
    let mut fx = History::new();
    fx.commit("needle the target");
    for i in 0..40 {
        fx.commit(&format!("filler {i}"));
    }
    let mut g = fx.open();
    // A frame first, so `viewport_rows` is a real height rather than 1.
    let area = Rect::new(0, 0, 80, 20);
    let mut buf = empty(area);
    g.render(area, &mut buf);
    let rows = g.viewport_rows;
    assert!(
        rows > 1 && rows < 40,
        "the target must be off screen: {rows}"
    );

    g.on_key(key(KeyCode::Char('/')));
    type_query(&mut g, "needle");
    g.on_key(key(KeyCode::Enter));

    assert_eq!(g.selected(), 40, "the oldest row, which is the needle");
    assert!(
        g.first_row <= g.selected() && g.selected() < g.first_row + rows,
        "row {} is outside the viewport [{}, {})",
        g.selected(),
        g.first_row,
        g.first_row + rows
    );
    assert_eq!(
        g.detail_for,
        g.selected_id(),
        "select() asked the worker for the commit it landed on"
    );
}

#[test]
fn the_dropdown_is_drawn_over_the_graph_pane() {
    let (_fx, mut g) = searchable();
    let area = Rect::new(0, 0, 70, 24);
    let mut buf = empty(area);
    g.render(area, &mut buf);
    let before = buffer_text(&buf, area);
    assert!(!before.contains("/alp"), "nothing drawn before `/`");

    g.on_key(key(KeyCode::Char('/')));
    type_query(&mut g, "alpha");
    let mut buf = empty(area);
    g.render(area, &mut buf);
    let text = buffer_text(&buf, area);
    assert!(text.contains("/alpha"), "the query is echoed: {text:?}");
    assert!(
        text.contains("Search"),
        "the dropdown has its title: {text:?}"
    );
    assert!(
        text.contains("alpha the first"),
        "the match is listed: {text:?}"
    );
}

#[test]
fn the_wheel_does_not_move_the_graph_while_the_dropdown_is_open() {
    let (_fx, mut g) = searchable();
    let area = Rect::new(0, 0, 70, 24);
    let mut buf = empty(area);
    g.render(area, &mut buf);
    let map = g.layout;
    g.on_key(key(KeyCode::Char('/')));

    let outcome = g.on_mouse(MouseEvent {
        kind: MouseEventKind::ScrollDown,
        column: map.graph.x + 1,
        row: map.graph.y + 1,
    });
    assert_eq!(outcome, Outcome::Consumed);
    assert_eq!(
        g.selected(),
        0,
        "the graph did not scroll under the dropdown"
    );
    assert_eq!(g.mode(), Mode::Search);
}

#[test]
fn the_mouse_does_nothing_while_the_help_popup_is_open() {
    let (_fx, mut g) = searchable();
    let area = Rect::new(0, 0, 70, 24);
    let mut buf = empty(area);
    g.render(area, &mut buf);
    let map = g.layout;
    assert!(
        map.files.height > 0,
        "the fixture area is tall enough to split"
    );
    g.on_key(key(KeyCode::Char('?')));
    assert_eq!(g.mode(), Mode::Help);

    let outcome = g.on_mouse(MouseEvent {
        kind: MouseEventKind::ScrollDown,
        column: map.graph.x + 1,
        row: map.graph.y + 1,
    });
    assert_eq!(outcome, Outcome::Consumed);
    assert_eq!(g.selected(), 0, "the graph did not scroll under the popup");

    let outcome = g.on_mouse(MouseEvent {
        kind: MouseEventKind::Down,
        column: map.files.x + 1,
        row: map.files.y + 1,
    });
    assert_eq!(outcome, Outcome::Consumed);
    assert_eq!(g.focus(), Pane::Graph, "focus did not move under the popup");
    assert_eq!(g.mode(), Mode::Help, "and the popup is still up");
}

#[test]
fn the_dropdown_reports_the_graphs_real_unloaded_backlog() {
    let (_fx, mut g) = searchable();
    let area = Rect::new(0, 0, 70, 24);

    g.on_key(key(KeyCode::Char('/')));
    type_query(&mut g, "alpha");
    let mut buf = empty(area);
    g.render(area, &mut buf);
    assert!(
        !buffer_text(&buf, area).contains("not loaded"),
        "a fully loaded graph has nothing to warn about"
    );

    // Two commits the layout has not taken. `exhausted` goes with them:
    // it is the flag `load_more` sets when `pending` runs dry.
    let backlog: Vec<CommitInfo> = ["not loaded one", "not loaded two"]
        .iter()
        .map(|summary| CommitInfo {
            id: id(1_000),
            parents: Vec::new(),
            summary: (*summary).into(),
            body: String::new(),
            author: "asd test".into(),
            time: 0,
        })
        .collect();
    g.pending = VecDeque::from(backlog);
    g.exhausted = false;

    let mut buf = empty(area);
    g.render(area, &mut buf);
    let text = buffer_text(&buf, area);
    assert!(
        text.contains("2 not loaded"),
        "the backlog must be reported: {text:?}"
    );
    assert!(
        !text.contains("not loaded one"),
        "an unloaded commit is not searchable, only counted: {text:?}"
    );
}

#[test]
fn reopening_the_dropdown_starts_from_an_empty_query() {
    let (_fx, mut g) = searchable();
    g.on_key(key(KeyCode::Char('/')));
    type_query(&mut g, "alpha");
    g.on_key(key(KeyCode::Esc));
    g.on_key(key(KeyCode::Char('/')));
    assert_eq!(g.search.query(), "");
    assert!(g.search.matches().is_empty());
}

#[test]
fn bracket_keys_jump_between_decorated_rows() {
    let mut fx = History::new();
    fx.write("a.txt", "1\n");
    fx.commit("first");
    fx.tag("v1");
    fx.commit("second");
    fx.commit("third");

    let mut g = fx.open();
    settle(&fx, &mut g);
    let start = g.selected();

    g.on_key(KeyEvent::new(KeyCode::Char(']'), NONE));
    let after = g.selected();
    assert!(after > start, "] moves down to the next decorated row");
    assert!(
        g.decorations_at(after).is_some(),
        "the row it landed on carries a ref"
    );

    g.on_key(KeyEvent::new(KeyCode::Char('['), NONE));
    assert_eq!(g.selected(), start, "[ comes back");
}

#[test]
fn bracket_keys_stop_at_the_ends_rather_than_wrapping() {
    let mut fx = History::new();
    let oldest = fx.commit("oldest"); // row 2, tagged below
    fx.commit("middle"); // row 1, undecorated: what actually has to be jumped over
    fx.commit("newest"); // row 0, decorated too: `main` always points at HEAD

    // Tag the oldest commit specifically, so `middle` is the one row with
    // no decoration at all — the row a jump actually has to skip over,
    // rather than every row happening to carry one.
    fx.tag_at("v1", oldest);

    let mut g = fx.open();
    settle(&fx, &mut g);
    assert_eq!(g.row_count(), 3);
    // Row 0 (`newest`, on `main`) is already decorated, so the real
    // exercise is row 1 (`middle`), which is not: `]` has to skip past it
    // to land on row 2.
    assert!(g.decorations_at(0).is_some());
    assert!(g.decorations_at(1).is_none(), "middle carries no ref");

    assert_eq!(g.on_key(key(KeyCode::Char(']'))), Outcome::Consumed);
    assert_eq!(g.selected(), 2, "] skipped the undecorated middle row");

    // Already at the last row in the graph: another `]` must not wrap
    // back around to row 0.
    g.on_key(key(KeyCode::Char(']')));
    assert_eq!(g.selected(), 2, "] does not wrap past the last row");

    g.on_key(key(KeyCode::Char('[')));
    assert_eq!(g.selected(), 0, "[ skipped back over the middle row");
    g.on_key(key(KeyCode::Char('[')));
    assert_eq!(g.selected(), 0, "[ does not wrap past the first row");
}

#[test]
fn bracket_keys_skip_rows_that_cannot_carry_a_decoration() {
    let mut fx = History::new();
    fx.commit("first");
    fx.tag("v1");
    fx.commit("second");
    fx.write("dirty.txt", "x\n");

    let mut g = fx.open();
    settle(&fx, &mut g);
    // Row 0 is the synthetic uncommitted row, which has no commit at all
    // and so cannot be mistaken for a decorated one.
    assert_eq!(g.decorations_at(0), None);

    g.on_key(key(KeyCode::Char(']')));
    assert!(
        g.decorations_at(g.selected()).is_some(),
        "landed on the tagged commit, not the uncommitted row"
    );
}

#[test]
fn bracket_keys_skip_a_ref_that_is_currently_hidden_by_a_toggle() {
    let mut fx = History::new();
    let oldest = fx.commit("oldest"); // row 2, tagged below: its only decoration
    fx.commit("middle"); // row 1, undecorated
    fx.commit("newest"); // row 0, decorated too: `main` always points at HEAD

    fx.tag_at("v1", oldest);

    let mut g = fx.open();
    settle(&fx, &mut g);
    assert_eq!(g.row_count(), 3);
    assert_eq!(g.selected(), 0);

    // With tags shown, `]` skips the undecorated `middle` row and lands
    // on `oldest`, whose only decoration is the tag.
    assert!(g.decorations_at(2).is_some(), "oldest carries the tag");
    g.on_key(key(KeyCode::Char(']')));
    assert_eq!(
        g.selected(),
        2,
        "] lands on the tagged row while tags are shown"
    );
    g.on_key(key(KeyCode::Char('['))); // back to the top for the real test below

    // `t` hides tags. `oldest` now has nothing visible on it either, so
    // `]` must skip straight past both undecorated rows and stop at the
    // top rather than landing on a row with nothing shown on screen.
    g.on_key(key(KeyCode::Char('t')));
    assert!(
        g.decorations_at(2).is_none(),
        "the tag is hidden, so this row no longer counts as decorated"
    );
    assert_eq!(g.on_key(key(KeyCode::Char(']'))), Outcome::Consumed);
    assert_eq!(
        g.selected(),
        0,
        "] must not land on a row whose only decoration is hidden"
    );
}

#[test]
fn o_and_t_toggle_which_refs_are_drawn() {
    let (_fx, mut g) = ready_graph(1);
    assert!(g.show_remotes());
    assert!(g.show_tags());
    g.on_key(KeyEvent::new(KeyCode::Char('o'), NONE));
    assert!(!g.show_remotes());
    g.on_key(KeyEvent::new(KeyCode::Char('t'), NONE));
    assert!(!g.show_tags());
}

#[test]
fn toggling_off_a_kind_of_ref_removes_it_from_the_rendered_graph() {
    let mut fx = History::new();
    fx.commit("first");
    fx.tag("v1");
    fx.remote("origin/main");

    let mut g = fx.open();
    settle(&fx, &mut g);

    let area = Rect::new(0, 0, 60, 10);
    let mut buf = empty(area);
    g.render(area, &mut buf);
    let before = buffer_text(&buf, area);
    assert!(before.contains("(v1)"), "{before:?}");
    assert!(before.contains("[origin/main]"), "{before:?}");

    g.on_key(key(KeyCode::Char('t')));
    let mut buf = empty(area);
    g.render(area, &mut buf);
    let tags_off = buffer_text(&buf, area);
    assert!(!tags_off.contains("v1"), "{tags_off:?}");
    assert!(
        tags_off.contains("[origin/main]"),
        "o was not toggled: {tags_off:?}"
    );

    g.on_key(key(KeyCode::Char('o')));
    let mut buf = empty(area);
    g.render(area, &mut buf);
    let both_off = buffer_text(&buf, area);
    assert!(!both_off.contains("v1"), "{both_off:?}");
    assert!(!both_off.contains("origin/main"), "{both_off:?}");
}

#[test]
fn question_mark_opens_help_and_any_key_closes_it() {
    let (_fx, mut g) = ready_graph(1);
    g.on_key(KeyEvent::new(KeyCode::Char('?'), NONE));
    assert_eq!(g.mode(), Mode::Help);
    g.on_key(KeyEvent::new(KeyCode::Esc, NONE));
    assert_eq!(g.mode(), Mode::Normal, "Esc closes help without dismissing");
}

#[test]
fn a_letter_key_also_closes_help_without_acting_on_its_normal_meaning() {
    let (_fx, mut g) = ready_graph(1);
    let before = g.selected();
    g.on_key(key(KeyCode::Char('?')));
    assert_eq!(g.mode(), Mode::Help);

    // `j` would move the selection in `Normal`; here it must only close
    // the popup.
    g.on_key(key(KeyCode::Char('j')));
    assert_eq!(g.mode(), Mode::Normal);
    assert_eq!(before, g.selected(), "j did not move the selection");
}

#[test]
fn the_help_popup_is_drawn_over_the_three_panes() {
    let (_fx, mut g) = ready_graph(1);
    let area = Rect::new(0, 0, 70, 24);
    g.on_key(key(KeyCode::Char('?')));
    let mut buf = empty(area);
    g.render(area, &mut buf);
    let text = buffer_text(&buf, area);
    assert!(text.contains("Help"), "the popup has its title: {text:?}");
    // The popup is centred in the *whole* three-pane area, tall enough
    // that it may well cover the smaller detail/files panes underneath
    // entirely at this size — but the graph pane's own first row sits
    // above the popup's top edge, so the commit it lists (and the
    // decoration on it, since `ready_graph`'s fixture commit sits on the
    // default `main` branch) must still be there.
    assert!(
        text.contains("first") && text.contains("[main]"),
        "the graph pane underneath is still drawn above the popup: {text:?}"
    );
}

#[test]
fn home_is_asked_for_and_jumped_to() {
    let (fx, mut g) = graph_with(3);
    g.on_key(key(KeyCode::Char('j')));
    g.on_key(key(KeyCode::Char('j')));
    assert_eq!(g.on_key(key(KeyCode::Char('@'))), Outcome::FindHead);
    assert_eq!(g.selected(), 2, "nothing moves before the answer");
    g.go_to_head(fx.head());
    assert_eq!(g.selected(), 0);
    g.go_to_head(None);
    assert_eq!(g.selected(), 0, "no head, no jump");
}

#[test]
fn a_repository_that_cannot_be_walked_says_so() {
    let reading = Reading {
        changes: None,
        walk: Walk::Failed("reading HEAD: broken".to_string()),
        refs: None,
    };
    let mut g = GitGraph::open(
        "/r",
        Discovery::WorkTree("/r".to_string()),
        reading,
        true,
    )
    .unwrap();
    assert_eq!(g.row_count(), 0);
    let area = Rect::new(0, 0, 60, 6);
    let mut buf = empty(area);
    g.render(area, &mut buf);
    let text = buffer_text(&buf, area);
    assert!(text.contains("cannot read this repository"), "{text:?}");
}

#[test]
fn without_a_worker_the_detail_is_unavailable() {
    let mut fx = History::new();
    fx.commit("only");
    let mut g = GitGraph::open(
        "/r",
        Discovery::WorkTree("/r".to_string()),
        fx.reading(),
        false,
    )
    .unwrap();
    assert!(g.take_requests().is_empty());
    assert_eq!(g.detail(), &DetailState::Unavailable);
}

#[test]
fn a_worker_that_dies_leaves_the_detail_unavailable() {
    let (_fx, mut g) = graph_with(1);
    assert!(matches!(g.detail(), DetailState::Loading));
    assert!(g.poll(Vec::new(), false), "the death must repaint");
    assert_eq!(g.detail(), &DetailState::Unavailable);
}

#[test]
fn a_failed_reply_is_shown() {
    let (_fx, mut g) = graph_with(1);
    let selected = g.selected_id().unwrap();
    assert!(g.accept_reply(Reply::Commit {
        id: selected,
        result: Err("object missing".to_string()),
    }));
    assert_eq!(g.detail(), &DetailState::Failed("object missing".to_string()));
}

#[test]
fn one_request_is_made_for_each_commit_selected() {
    let (_fx, mut g) = graph_with(3);
    assert_eq!(g.take_requests(), vec![Request::Commit(id(3))]);
    g.on_key(key(KeyCode::Char('k')));
    assert_eq!(g.take_requests(), vec![], "the same commit is not asked for again");
    g.on_key(key(KeyCode::Char('j')));
    assert_eq!(g.take_requests(), vec![Request::Commit(id(2))]);
}

#[test]
fn a_post_that_fails_is_the_end_of_the_worker() {
    let (_fx, mut g) = graph_with(3);
    let first = g.selected_id().unwrap();
    assert_eq!(g.take_requests(), vec![Request::Commit(first)]);
    g.post_failed();
    // What was loading is settled by the poll, behind the replies that were left.
    assert_eq!(g.detail(), &DetailState::Loading);
    g.on_key(key(KeyCode::Char('j')));
    assert_eq!(g.detail(), &DetailState::Unavailable);
    assert!(g.take_requests().is_empty(), "nothing is asked of a dead worker");

    let (_fx, mut g) = graph_with(1);
    let only = g.selected_id().unwrap();
    g.post_failed();
    assert!(g.poll(vec![commit_reply(only)], true));
    assert!(matches!(g.detail(), DetailState::Ready(_)), "the last reply counts");

    let (_fx, mut g) = graph_with(1);
    g.post_failed();
    assert!(g.poll(Vec::new(), true));
    assert_eq!(g.detail(), &DetailState::Unavailable);
}

#[test]
fn what_can_be_rendered_is_told_beforehand() {
    let mut fx = History::new();
    fx.commit("only");
    let opened = |root: String| {
        GitGraph::open("/r", Discovery::WorkTree(root), fx.reading(), false).unwrap()
    };
    let area = Rect::new(0, 0, 20, 5);
    let buf = empty(area);
    assert!(opened("/r".to_string()).can_render(&buf));
    // The title is the path with 14 characters around it.
    assert!(opened("x".repeat(TITLE_MAX - 14)).can_render(&buf));
    assert!(!opened("x".repeat(TITLE_MAX - 13)).can_render(&buf));
    let g = opened("/r".to_string());
    assert!(g.can_render(&empty(Rect::new(0, 0, 0x7fff, 1))));
    assert!(!g.can_render(&empty(Rect::new(0, 0, 0x8000, 1))));
    assert!(!g.can_render(&empty(Rect::new(65_530, 0, 5, 1))));
}

#[test]
fn focus_goes_on_and_back() {
    let (_fx, mut g) = ready_graph(1);
    for modifiers in [NONE, SHIFT, CONTROL] {
        g.on_key(KeyEvent::new(KeyCode::BackTab, modifiers));
        assert_eq!(g.focus(), Pane::Files);
        g.on_key(KeyEvent::new(KeyCode::Tab, NONE));
        assert_eq!(g.focus(), Pane::Graph);
    }
    g.on_key(KeyEvent::new(KeyCode::Tab, CONTROL));
    assert_eq!(g.focus(), Pane::Graph);
}
