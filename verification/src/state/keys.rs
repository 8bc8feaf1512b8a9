//! What each key and each turn of the wheel does, as the user sees it.
use crate::git::commit::{CommitInfo, ObjectId};
use crate::git::refs;
use crate::git::refs::RefInfo;
use crate::input::{KeyCode, KeyEvent, MouseEvent, MouseEventKind, CONTROL, NONE, SHIFT};
use crate::state::laws;
use crate::state::model;
use crate::state::model::{Asked, Detail, FileView, Model, Said};
use crate::state::{Mode, Reading, Walk, WalkItem, Worker, PAGE_FIRST, PAGE_MORE};
use crate::ui::layout;
use crate::ui::layout::Pane;
use crate::worker::{HighlightedDiff, Reply};
use vstd::prelude::*;

verus! {

/// A key without modifiers.
pub open spec fn plain(code: KeyCode) -> KeyEvent {
    KeyEvent { code, modifiers: NONE }
}

/// A letter with Control.
pub open spec fn control(c: char) -> KeyEvent {
    KeyEvent { code: KeyCode::Char(c), modifiers: CONTROL }
}

/// Whether the selection moved down by `n` rows, or as far as there are rows.
pub open spec fn moved_down(g: Model, h: Model, n: int) -> bool {
    &&& g.selected + n < h.rows.len() ==> h.selected == g.selected + n
    &&& g.selected + n >= h.rows.len() ==> h.selected == (if h.rows.len() == 0 {
        0
    } else {
        h.rows.len() - 1
    })
}

/// Whether the selection moved up by `n` rows, or as far as there are rows.
pub open spec fn moved_up(g: Model, h: Model, n: int) -> bool {
    &&& g.selected >= n && g.selected - n < h.rows.len() ==> h.selected == g.selected - n
    &&& g.selected < n ==> h.selected == 0
}

proof fn lemma_moved(g: Model, n: int)
    requires
        0 <= n <= 65535,
        g.selected + 65535 <= usize::MAX,
        laws::in_range(g),
    ensures
        moved_down(g, g.moved(Pane::Graph, n).0, n),
        moved_up(g, g.moved(Pane::Graph, -n).0, n),
        g.moved(Pane::Graph, n).0.focus == g.focus,
        g.moved(Pane::Graph, -n).0.focus == g.focus,
{
    laws::law_select(g, model::shifted(g.selected, n));
    laws::law_select(g, model::shifted(g.selected, -n));
    laws::lemma_around(g, model::shifted(g.selected, n));
    laws::lemma_around(g, model::shifted(g.selected, -n));
}

/// Law: with the graph in focus, `j` and the down key go one row down, `k` and the
/// up key one row up; the page keys go by as many rows as the pane shows, and
/// Control with `d` or `u` by half of that, one row at least. None goes past an end.
pub proof fn law_keys_move_the_selection(g: Model)
    requires
        g.mode == Mode::Normal,
        g.focus == Pane::Graph,
        g.viewport <= 65535,
        g.selected + 65535 <= usize::MAX,
        laws::in_range(g),
    ensures
        moved_down(g, g.pressed(plain(KeyCode::Char('j'))).0, 1),
        moved_down(g, g.pressed(plain(KeyCode::Down)).0, 1),
        moved_up(g, g.pressed(plain(KeyCode::Char('k'))).0, 1),
        moved_up(g, g.pressed(plain(KeyCode::Up)).0, 1),
        g.viewport >= 1 ==> moved_down(g, g.pressed(plain(KeyCode::PageDown)).0, g.viewport as int),
        g.viewport >= 1 ==> moved_up(g, g.pressed(plain(KeyCode::PageUp)).0, g.viewport as int),
        g.viewport >= 2 ==> moved_down(g, g.pressed(control('d')).0, g.viewport as int / 2),
        g.viewport >= 2 ==> moved_up(g, g.pressed(control('u')).0, g.viewport as int / 2),
        g.viewport < 2 ==> moved_down(g, g.pressed(control('d')).0, 1),
        g.viewport < 2 ==> moved_up(g, g.pressed(control('u')).0, 1),
{
    lemma_moved(g, 1);
    if g.viewport >= 1 {
        lemma_moved(g, g.viewport as int);
    }
    if g.viewport >= 2 {
        lemma_moved(g, g.viewport as int / 2);
    }
}

/// Law: `g` and Home select the first row; `G` and End the last one of the whole
/// history, whatever is in focus.
pub proof fn law_keys_go_to_the_ends(g: Model)
    requires
        g.mode == Mode::Normal,
    ensures
        g.pressed(plain(KeyCode::Char('g'))).0.selected == 0,
        g.pressed(plain(KeyCode::Home)).0.selected == 0,
        ({
            let h = g.pressed(KeyEvent { code: KeyCode::Char('G'), modifiers: SHIFT }).0;
            let e = g.pressed(plain(KeyCode::End)).0;
            &&& h == e
            &&& h.exhausted
            &&& !g.exhausted ==> h.rows.len() == g.rows.len() + g.pending.len()
            &&& h.rows.len() > 0 ==> h.selected == h.rows.len() - 1
        }),
{
    laws::law_select(g, 0);
    laws::law_oldest_is_loaded(g);
    let all = g.all_loaded();
    let last = model::last_of(all.rows.len());
    laws::law_select(all, last);
    laws::lemma_around(all, last);
    assert(all.around(last) == all);
}

/// How many rows there are in the list of files.
pub open spec fn files_listed(g: Model) -> nat {
    match g.detail {
        Detail::Ready { files, .. } => files.len(),
        _ => 0,
    }
}

/// Law: with the files in focus the same keys move the selected file, within the
/// list; with the detail in focus they scroll the message. The graph stays.
pub proof fn law_keys_move_in_the_focused_pane(g: Model)
    requires
        g.mode == Mode::Normal,
        g.file_selected < usize::MAX,
        g.detail_scroll < usize::MAX,
    ensures
        g.focus == Pane::Files ==> {
            let down = g.pressed(plain(KeyCode::Char('j'))).0;
            let up = g.pressed(plain(KeyCode::Char('k'))).0;
            &&& g.file_selected + 1 < files_listed(g) ==> down.file_selected == g.file_selected + 1
            &&& g.file_selected + 1 == files_listed(g) ==> down.file_selected == g.file_selected
            &&& 0 < g.file_selected < files_listed(g) ==> up.file_selected == g.file_selected - 1
            &&& down.selected == g.selected && up.selected == g.selected
            &&& down.detail_scroll == g.detail_scroll && up.detail_scroll == g.detail_scroll
        },
        g.focus == Pane::Detail ==> {
            let down = g.pressed(plain(KeyCode::Char('j'))).0;
            let up = g.pressed(plain(KeyCode::Char('k'))).0;
            &&& down.detail_scroll == g.detail_scroll + 1 || (down.detail_scroll
                <= g.detail_scroll && down.detail_scroll == g.detail_end())
            &&& 0 < g.detail_scroll <= g.detail_end() ==> up.detail_scroll == g.detail_scroll - 1
            &&& down.selected == g.selected && up.selected == g.selected
            &&& down.file_selected == g.file_selected && up.file_selected == g.file_selected
        },
{
}

/// Law: the keys that are about the overlay as a whole: `y` copies the selected
/// commit's id, `q` and Esc close the overlay, `?` opens the help, `/` an empty
/// search box, `@` looks for HEAD, and `R` reads the repository again. None of them
/// moves anything.
pub proof fn law_command_keys(g: Model)
    requires
        g.mode == Mode::Normal,
    ensures
        g.selected_id() matches Some(id) ==> g.pressed(plain(KeyCode::Char('y'))) == (
            g,
            Said::Copy(id.text()),
        ),
        g.selected_id() is None ==> g.pressed(plain(KeyCode::Char('y'))) == (g, Said::Consumed),
        g.pressed(plain(KeyCode::Char('q'))) == (g, Said::Dismiss),
        g.pressed(plain(KeyCode::Esc)) == (g, Said::Dismiss),
        g.pressed(plain(KeyCode::Char('?'))) == (Model { mode: Mode::Help, ..g }, Said::Redraw),
        g.pressed(plain(KeyCode::Char('@'))) == (g, Said::FindHead),
        g.pressed(KeyEvent { code: KeyCode::Char('R'), modifiers: SHIFT }) == (g, Said::Reread),
        ({
            let (h, said) = g.pressed(plain(KeyCode::Char('/')));
            &&& h.mode == Mode::Search && h.typed.len() == 0 && h.found.len() == 0
            &&& h.selected == g.selected && h.rows == g.rows && h.focus == g.focus
            &&& said == Said::Redraw
        }),
        g.pressed(plain(KeyCode::Char('o'))).0.show_remotes == !g.show_remotes,
        g.pressed(plain(KeyCode::Char('o'))).0.show_tags == g.show_tags,
        g.pressed(plain(KeyCode::Char('t'))).0.show_tags == !g.show_tags,
        g.pressed(plain(KeyCode::Char('t'))).0.show_remotes == g.show_remotes,
{
}

/// Law: Tab goes from the graph to the detail, from there to the files, and from
/// there to the graph.
pub proof fn law_tab_order(g: Model)
    requires
        g.mode == Mode::Normal,
    ensures
        g.focus == Pane::Graph ==> g.pressed(plain(KeyCode::Tab)).0.focus == Pane::Detail,
        g.focus == Pane::Detail ==> g.pressed(plain(KeyCode::Tab)).0.focus == Pane::Files,
        g.focus == Pane::Files ==> g.pressed(plain(KeyCode::Tab)).0.focus == Pane::Graph,
        g.pressed(plain(KeyCode::Tab)).0 == (Model {
            focus: g.pressed(plain(KeyCode::Tab)).0.focus,
            ..g
        }),
{
}

/// Law: Enter opens the selected file of the selected commit, from the files pane
/// alone: the worker is asked for that file, and the view waits for it from its top.
/// A dead worker is not asked, and the view says so.
pub proof fn law_enter_opens_the_selected_file(g: Model, id: ObjectId)
    requires
        g.mode == Mode::Normal,
        g.selected_id() == Some(id),
        g.detail is Ready,
        g.file_selected < files_listed(g),
    ensures
        ({
            let h = g.pressed(plain(KeyCode::Enter)).0;
            let path = g.detail->files[g.file_selected as int].path@;
            &&& g.focus != Pane::Files ==> h == g
            &&& g.focus == Pane::Files ==> {
                &&& h.mode == Mode::FileDiff && h.file_diff_scroll == 0
                &&& h.selected == g.selected && h.file_selected == g.file_selected
                &&& g.worker == Worker::Alive && g.file_diff_for != Some((id, path)) ==> {
                    &&& h.asked == g.asked.push(Asked::File(id, path))
                    &&& h.file_diff == FileView::Loading(path)
                    &&& h.file_diff_for == Some((id, path))
                }
                &&& g.worker != Worker::Alive && g.file_diff_for != Some((id, path)) ==> {
                    &&& h.asked == g.asked
                    &&& h.file_diff is Failed
                }
            }
        }),
{
}

/// Law: the lines of an open diff scroll by one with `j` and `k` and the arrow
/// keys, by a screen with the page keys, and to the ends with `g`, Home, `G` and
/// End; never past an end. `q` and Esc close it.
pub proof fn law_diff_scrolls(g: Model, h: HighlightedDiff)
    requires
        g.mode == Mode::FileDiff,
        g.file_diff == FileView::Ready(h),
        g.file_diff_rows <= 65535,
        h.diff.lines@.len() <= 20_000,
        g.file_diff_scroll <= 20_000,
    ensures
        ({
            let rows: int = if g.file_diff_rows >= 1 {
                g.file_diff_rows as int
            } else {
                1
            };
            let end: int = if h.diff.lines@.len() > rows {
                h.diff.lines@.len() - rows
            } else {
                0
            };
            let at = g.file_diff_scroll as int;
            let to = |k: KeyEvent| g.pressed(k).0.file_diff_scroll as int;
            &&& at + 1 <= end ==> to(plain(KeyCode::Char('j'))) == at + 1
            &&& at + 1 <= end ==> to(plain(KeyCode::Down)) == at + 1
            &&& at == end ==> to(plain(KeyCode::Char('j'))) == at
            &&& 0 < at <= end ==> to(plain(KeyCode::Char('k'))) == at - 1
            &&& 0 < at <= end ==> to(plain(KeyCode::Up)) == at - 1
            &&& at == 0 ==> to(plain(KeyCode::Char('k'))) == 0
            &&& at + rows <= end ==> to(plain(KeyCode::PageDown)) == at + rows
            &&& at + rows > end ==> to(plain(KeyCode::PageDown)) == end
            &&& rows <= at <= end ==> to(plain(KeyCode::PageUp)) == at - rows
            &&& at < rows ==> to(plain(KeyCode::PageUp)) == 0
            &&& to(plain(KeyCode::Char('g'))) == 0 && to(plain(KeyCode::Home)) == 0
            &&& to(KeyEvent { code: KeyCode::Char('G'), modifiers: SHIFT }) == end
            &&& to(plain(KeyCode::End)) == end
            &&& g.pressed(plain(KeyCode::Char('q'))).0.mode == Mode::Normal
            &&& g.pressed(plain(KeyCode::Esc)).0.mode == Mode::Normal
        }),
{
}

/// Law: what is typed into the search box is the query, character by character;
/// Backspace takes the last one back; every change starts at the best match.
pub proof fn law_search_is_typed(g: Model, c: char)
    requires
        g.mode == Mode::Search,
    ensures
        ({
            let h = g.pressed(plain(KeyCode::Char(c))).0;
            &&& h.mode == Mode::Search && h.typed == g.typed.push(c) && h.highlighted == 0
        }),
        ({
            let h = g.pressed(plain(KeyCode::Backspace)).0;
            &&& h.mode == Mode::Search && h.highlighted == 0
            &&& g.typed.len() > 0 ==> h.typed == g.typed.drop_last()
            &&& g.typed.len() == 0 ==> h.typed.len() == 0
        }),
        g.pressed(plain(KeyCode::Char(c))).0.pressed(plain(KeyCode::Backspace)).0.typed == g.typed,
{
    assert(g.typed.push(c).drop_last() =~= g.typed);
}

/// Law: the down key goes to the next match and the up key to the one before, round
/// from either end to the other; Control with `j` and `k` does the same.
pub proof fn law_matches_are_cycled(g: Model)
    requires
        g.mode == Mode::Search,
        g.highlighted < g.found.len(),
    ensures
        ({
            let down = g.pressed(plain(KeyCode::Down)).0;
            let up = g.pressed(plain(KeyCode::Up)).0;
            &&& g.highlighted + 1 < g.found.len() ==> down.highlighted == g.highlighted + 1
            &&& g.highlighted + 1 == g.found.len() ==> down.highlighted == 0
            &&& g.highlighted > 0 ==> up.highlighted == g.highlighted - 1
            &&& g.highlighted == 0 ==> up.highlighted == g.found.len() - 1
            &&& g.pressed(control('j')).0 == down && g.pressed(control('k')).0 == up
            &&& down.found == g.found && up.found == g.found && down.typed == g.typed
        }),
{
    let n = g.found.len();
    let at = g.highlighted;
    if at + 1 < n {
        vstd::arithmetic::div_mod::lemma_small_mod((at + 1) as nat, n);
    } else {
        vstd::arithmetic::div_mod::lemma_mod_self_0(n as int);
    }
    if at > 0 {
        vstd::arithmetic::div_mod::lemma_mod_add_multiples_vanish(at - 1, n as int);
        vstd::arithmetic::div_mod::lemma_small_mod((at - 1) as nat, n);
    } else {
        vstd::arithmetic::div_mod::lemma_small_mod((n - 1) as nat, n);
    }
}

/// Law: the wheel moves what is under the pointer by three: the selection over the
/// graph, the selected file over the files, the message over the detail, and the
/// lines of an open diff. A click gives the pane under the pointer the focus and
/// moves nothing.
pub proof fn law_pointer_acts_where_it_is(g: Model, column: u16, row: u16)
    requires
        g.mode == Mode::Normal,
        g.selected + 65535 <= usize::MAX,
        g.file_selected + 3 <= usize::MAX,
        laws::in_range(g),
    ensures
        ({
            let over = layout::pane_over(g.layout, column as int, row as int);
            let down = g.pointed(MouseEvent { kind: MouseEventKind::ScrollDown, column, row }).0;
            let up = g.pointed(MouseEvent { kind: MouseEventKind::ScrollUp, column, row }).0;
            let click = g.pointed(MouseEvent { kind: MouseEventKind::Down, column, row }).0;
            &&& over == Some(Pane::Graph) ==> moved_down(g, down, 3) && moved_up(g, up, 3)
            &&& over == Some(Pane::Files) && g.file_selected + 3 < files_listed(g)
                ==> down.file_selected == g.file_selected + 3
            &&& over == Some(Pane::Files) && 3 <= g.file_selected < files_listed(g)
                ==> up.file_selected == g.file_selected - 3
            &&& over == Some(Pane::Files) || over == Some(Pane::Detail) ==> down.selected
                == g.selected && up.selected == g.selected
            &&& over matches Some(p) ==> click == (Model { focus: p, ..g })
            &&& over is None ==> click == g
        }),
{
    lemma_moved(g, 3);
}

/// Law: the reply that was waited for is shown: a commit's files from the first one,
/// a file's diff as it came, and a failure with its reason.
pub proof fn law_reply_is_shown(
    g: Model,
    id: ObjectId,
    diff: crate::git::diff::CommitDiff,
    path: String,
    shown: HighlightedDiff,
    msg: String,
)
    requires
        g.detail_for == Some(id),
        g.file_diff_for == Some((id, path@)),
    ensures
        ({
            let (h, dirty) = g.answered(Reply::Commit { id, result: Ok(diff) });
            &&& dirty && h.file_selected == 0 && h.file_scroll == 0 && h.selected == g.selected
            &&& h.detail matches Detail::Ready { files, insertions, removals } && files
                == diff.files@ && insertions == diff.insertions && removals == diff.removals
        }),
        g.answered(Reply::Commit { id, result: Err(msg) }) == (
            Model { detail: Detail::Failed(msg@), ..g },
            true,
        ),
        g.answered(Reply::File { commit: id, path, result: Ok(shown) }) == (
            Model { file_diff: FileView::Ready(shown), ..g },
            true,
        ),
        g.answered(Reply::File { commit: id, path, result: Err(msg) }) == (
            Model { file_diff: FileView::Failed(msg@), ..g },
            true,
        ),
{
}

proof fn lemma_fed_commits(g: Model, n: nat, i: int)
    requires
        0 <= i < n,
        i < g.pending.len(),
    ensures
        g.rows.len() + i < g.fed_many(n).rows.len(),
        g.fed_many(n).rows[g.rows.len() + i].commit == Some(g.pending[i]),
        g.fed_many(n).rows[g.rows.len() + i].uncommitted is None,
    decreases n,
{
    let next = g.fed_one();
    let m = (n - 1) as nat;
    laws::lemma_fed(g, n);
    laws::lemma_fed(next, m);
    if i == 0 {
        let all = next.fed_many(m).rows;
        assert(all.subrange(0, next.rows.len() as int) == next.rows);
        assert(all[g.rows.len() as int] == next.rows[g.rows.len() as int]);
    } else {
        lemma_fed_commits(next, m, i - 1);
        assert(next.pending[i - 1] == g.pending[i]);
    }
}

/// Law: the rows show the commits that were read, in the order they were read.
pub proof fn law_rows_are_the_commits_in_order(g: Model, n: nat, i: int)
    requires
        !g.exhausted,
        0 <= i < n,
        i < g.pending.len(),
    ensures
        g.rows.len() + i < g.more(n).rows.len(),
        g.more(n).rows[g.rows.len() + i].commit == Some(g.pending[i]),
{
    lemma_fed_commits(g, n, i);
}

proof fn lemma_walked(items: Seq<WalkItem>, k: int)
    requires
        0 <= k <= items.len(),
        forall|i: int| 0 <= i < k ==> #[trigger] items[i] is Commit,
        k < items.len() ==> items[k] is Failed,
    ensures
        model::walked(items).len() == k,
        forall|i: int| 0 <= i < k ==> items[i] == WalkItem::Commit(#[trigger] model::walked(items)[i]),
        k == items.len() ==> model::walk_error(items) is None,
        k < items.len() ==> (items[k] matches WalkItem::Failed(e) && model::walk_error(items) == Some(
            e@,
        )),
    decreases items.len(),
{
    if k > 0 {
        let rest = items.drop_first();
        assert(items[0] is Commit);
        assert forall|i: int| 0 <= i < k - 1 implies #[trigger] rest[i] is Commit by {
            assert(items[i + 1] is Commit);
        }
        lemma_walked(rest, k - 1);
        assert forall|i: int| 0 <= i < k implies items[i] == WalkItem::Commit(
            #[trigger] model::walked(items)[i],
        ) by {
            if i > 0 {
                assert(rest[i - 1] == WalkItem::Commit(model::walked(rest)[i - 1]));
            }
        }
    }
}

/// Law: a history that could be read part of the way is shown that far, and the
/// failure is kept; one that could be read whole has none. A first row stands for
/// uncommitted changes exactly where there are any.
pub proof fn law_history_is_shown_as_far_as_it_was_read(
    g: Model,
    changes: Option<usize>,
    items: Vec<WalkItem>,
    k: int,
)
    requires
        0 <= k <= items@.len(),
        forall|i: int| 0 <= i < k ==> #[trigger] items@[i] is Commit,
        k < items@.len() ==> items@[k] is Failed,
    ensures
        ({
            let h = g.reloaded(changes, Walk::Items(items));
            &&& h.pending.len() == k
            &&& forall|i: int|
                0 <= i < k ==> items@[i] == WalkItem::Commit(#[trigger] h.pending[i])
            &&& k == items@.len() ==> h.error is None
            &&& k < items@.len() ==> (items@[k] matches WalkItem::Failed(e) && h.error == Some(e@))
            &&& (changes matches Some(n) && n > 0) ==> h.rows.len() == 1 && h.rows[0].commit is None
                && h.rows[0].uncommitted == changes
            &&& !(changes matches Some(n) && n > 0) ==> h.rows.len() == 0
            &&& !h.exhausted
            &&& h.lanes.lanes.len() == 0
        }),
{
    lemma_walked(items@, k);
}

/// Law: reading again keeps the selection where it was, as far as there are rows,
/// and shows the refs as they were read.
pub proof fn law_reread_keeps_the_place(g: Model, reading: Reading)
    ensures
        ({
            let h = g.reread(reading);
            &&& g.selected < h.rows.len() ==> h.selected == g.selected
            &&& h.labels == Model::labels_read(reading.refs)
            &&& h.focus == g.focus && h.mode == g.mode && h.show_remotes == g.show_remotes
                && h.show_tags == g.show_tags && h.root == g.root
            &&& g.worker == Worker::Alive ==> h.detail_for == h.selected_id()
        }),
{
    let read = g.reloaded(reading.changes, reading.walk);
    laws::law_loading(read, crate::state::PAGE_FIRST as nat);
    let more = read.more(crate::state::PAGE_FIRST as nat);
    let with = Model { labels: Model::labels_read(reading.refs), ..more };
    laws::law_select(with, g.selected);
    laws::lemma_around(with, g.selected);
}

/// Law: looking for HEAD selects the first row with that commit, where one is
/// loaded, and else moves nothing.
pub proof fn law_head_is_found(g: Model, id: ObjectId, i: int)
    requires
        0 <= i < g.rows.len(),
        g.rows[i].commit matches Some(c) && c.id == id,
        forall|k: int|
            0 <= k < i ==> !((#[trigger] g.rows[k]).commit matches Some(c) && c.id == id),
    ensures
        g.gone_to(Some(id)).selected == i,
        g.gone_to(None) == g,
{
    lemma_first_row(g, id, 0, i);
    laws::law_select(g, i as nat);
    laws::lemma_around(g, i as nat);
}

proof fn lemma_first_row(g: Model, id: ObjectId, from: nat, i: int)
    requires
        from <= i < g.rows.len(),
        g.rows[i].commit matches Some(c) && c.id == id,
        forall|k: int|
            0 <= k < i ==> !((#[trigger] g.rows[k]).commit matches Some(c) && c.id == id),
    ensures
        g.row_of_commit(id, from) == Some(i as nat),
    decreases i - from,
{
    if from < i {
        lemma_first_row(g, id, from + 1, i);
    }
}

/// Law: without a commit of that id among the rows, looking for HEAD moves nothing.
pub proof fn law_head_is_not_loaded(g: Model, id: ObjectId)
    requires
        forall|k: int|
            0 <= k < g.rows.len() ==> !((#[trigger] g.rows[k]).commit matches Some(c) && c.id
                == id),
    ensures
        g.gone_to(Some(id)) == g,
{
    lemma_no_row(g, id, 0);
}

proof fn lemma_no_row(g: Model, id: ObjectId, from: nat)
    requires
        forall|k: int|
            0 <= k < g.rows.len() ==> !((#[trigger] g.rows[k]).commit matches Some(c) && c.id
                == id),
    ensures
        g.row_of_commit(id, from) is None,
    decreases g.rows.len() - from,
{
    if from < g.rows.len() {
        lemma_no_row(g, id, from + 1);
    }
}

/// Law: a row is decorated exactly where its commit carries a ref that is shown:
/// branches of this repository always, those of remotes and tags while they are
/// switched on.
pub proof fn law_decorated_rows(g: Model, i: nat, c: CommitInfo, k: int)
    requires
        i < g.rows.len(),
        g.rows[i as int].commit == Some(c),
        0 <= k < g.labels[c.id].len(),
    ensures
        ({
            let r = g.labels[c.id][k];
            &&& r.kind is LocalBranch ==> g.decorated(i)
            &&& r.kind is RemoteBranch && g.show_remotes ==> g.decorated(i)
            &&& r.kind is Tag && g.show_tags ==> g.decorated(i)
        }),
        (forall|j: int|
            0 <= j < g.labels[c.id].len() ==> {
                ||| (#[trigger] g.labels[c.id][j]).kind is RemoteBranch && !g.show_remotes
                ||| g.labels[c.id][j].kind is Tag && !g.show_tags
            }) ==> !g.decorated(i),
{
    assert(g.labels[c.id][k].kind.shown(g.show_remotes, g.show_tags) ==> model::any_shown(
        g.labels[c.id],
        g.show_remotes,
        g.show_tags,
    ));
}

/// Law: the overlay opens on the newest row with the graph in focus, nothing scrolled,
/// nothing searched for and every label shown, under the refs it read; what it asks
/// for is the row it opens on.
pub proof fn law_opens_at_the_top(root: Seq<char>, reading: Reading, worker: Worker, id: ObjectId)
    ensures
        ({
            let g = Model::opened_on(root, reading, worker);
            &&& g.root == root && g.worker == worker
            &&& g.selected == 0 && g.first_row == 0
            &&& g.focus == Pane::Graph && g.mode == Mode::Normal
            &&& g.detail_scroll == 0 && g.file_selected == 0 && g.file_scroll == 0
                && g.file_diff_scroll == 0
            &&& g.typed.len() == 0 && g.found.len() == 0
            &&& g.show_remotes && g.show_tags
            &&& g.file_diff == FileView::Closed && g.file_diff_for is None
            &&& reading.refs matches Some(all) ==> g.labels[id] == refs::labelling(all@, id)
            &&& reading.refs is None ==> g.labels[id].len() == 0
            &&& worker == Worker::Alive ==> g.detail_for == g.selected_id()
            &&& worker == Worker::Alive && g.selected_id() is Some ==> g.asked == seq![
                Asked::Commit(g.selected_id()->0),
            ] && g.detail == Detail::Loading
            &&& g.selected_id() is None ==> g.asked.len() == 0
        }),
{
    let first = Model::fresh(root, Model::labels_read(reading.refs), worker).reloaded(
        reading.changes,
        reading.walk,
    );
    laws::law_loading(first, PAGE_FIRST as nat);
    assert(refs::labelling(Seq::empty(), id).len() == 0) by {
        refs::law_labels_lead_to_their_commit(
            Seq::empty(),
            RefInfo { name: arbitrary(), target: id, kind: refs::RefKind::Tag },
            id,
        );
    }
}

/// Law: the diff of a row that was not asked for is asked for, behind what was asked
/// before, and is being read until it comes; a row without a commit has no files.
pub proof fn law_selected_commit_is_asked_for(g: Model, id: ObjectId)
    ensures
        g.selected_id() == Some(id) && g.detail_for != Some(id) && g.worker == Worker::Alive ==> {
            &&& g.requested().asked == g.asked.push(Asked::Commit(id))
            &&& g.requested().detail == Detail::Loading
            &&& g.requested().detail_for == Some(id)
        },
        g.selected_id() == Some(id) && g.detail_for == Some(id) ==> g.requested() == g,
        g.selected_id() is None ==> g.requested().asked == g.asked && (
        g.requested().detail matches Detail::Ready { files, insertions, removals } && files.len()
            == 0 && insertions == 0 && removals == 0),
        g.requested().selected == g.selected && g.requested().rows == g.rows,
{
}

/// Law: the list scrolls no further than it takes to bring the selected file into
/// view.
pub proof fn law_selected_file_is_in_view(g: Model, index: nat)
    requires
        g.layout.files.height > 2,
    ensures
        ({
            let first = g.file_scroll_for(index);
            let room = g.layout.files.height - 2;
            &&& first <= index < first + room
            &&& g.file_scroll <= index < g.file_scroll + room ==> first == g.file_scroll
            &&& index < g.file_scroll ==> first == index
            &&& index >= g.file_scroll + room ==> first + room == index + 1
        }),
{
}

/// Law: changes that are not committed stand on a row of their own in front of the
/// history, and only where there are any.
pub proof fn law_changes_come_first(g: Model, changes: Option<usize>, walk: Walk)
    ensures
        ({
            let h = g.reloaded(changes, walk);
            &&& changes is Some && changes->0 > 0 ==> h.rows.len() == 1 && h.rows[0].commit is None
                && h.rows[0].uncommitted == changes
            &&& changes is None || changes == Some(0usize) ==> h.rows.len() == 0
        }),
{
}

/// Law: the detail pane scrolls until its last row is at the bottom, and not at all
/// where every row is on view.
pub proof fn law_detail_scrolls_to_its_end(g: Model)
    requires
        g.layout.detail.height > 2,
    ensures
        ({
            let room = g.layout.detail.height - 2;
            &&& g.detail_rows > room ==> g.detail_end() + room == g.detail_rows
            &&& g.detail_rows <= room ==> g.detail_end() == 0
        }),
{
}

/// Whether a key was answered rightly: one that changes the mode, the focus, how far a
/// pane is scrolled while the selection stays, or the search asks for a new frame; in
/// the panes one that changes nothing does not.
#[verifier::opaque]
pub open spec fn redrawn(g: Model, h: Model, said: Said) -> bool {
    &&& h.mode != g.mode || h.focus != g.focus || h.file_diff_scroll != g.file_diff_scroll ==> said
        == Said::Redraw
    &&& h.selected == g.selected && (h.file_selected != g.file_selected || h.detail_scroll
        != g.detail_scroll) ==> said == Said::Redraw
    &&& h.typed != g.typed || h.highlighted != g.highlighted ==> said == Said::Redraw
    &&& g.mode != Mode::Search && h == g ==> said != Said::Redraw
    &&& g.mode == Mode::Help ==> h == (Model { mode: Mode::Normal, ..g })
    &&& g.mode != Mode::Normal ==> said == Said::Redraw || said == Said::Consumed
}

/// Whether nothing but the selection, what follows from it and what is loaded differs.
#[verifier::opaque]
spec fn only_selected(g: Model, h: Model) -> bool {
    &&& h.mode == g.mode && h.focus == g.focus && h.file_diff_scroll == g.file_diff_scroll
    &&& h.typed == g.typed && h.highlighted == g.highlighted
    &&& h.selected == g.selected ==> h.file_selected == g.file_selected && h.detail_scroll
        == g.detail_scroll
}

proof fn lemma_select_keeps(g: Model, index: nat)
    ensures
        only_selected(g, g.select(index)),
{
    reveal(only_selected);
    laws::lemma_around(g, index);
}

proof fn lemma_all_loaded_keeps(g: Model)
    ensures
        only_selected(g, g.all_loaded()),
        laws::apart_from_loading(g, g.all_loaded()),
    decreases g.left(),
{
    reveal(only_selected);
    if !g.exhausted {
        let next = g.more(PAGE_MORE as nat);
        laws::law_loading(g, PAGE_MORE as nat);
        if next.left() < g.left() {
            lemma_all_loaded_keeps(next);
        }
    }
}

proof fn lemma_selected_is_redrawn(g: Model, h: Model, said: Said)
    requires
        only_selected(g, h),
        g.mode == Mode::Normal,
        said != Said::Redraw,
    ensures
        redrawn(g, h, said),
{
    reveal(only_selected);
    reveal(redrawn);
}

proof fn lemma_end_is_redrawn(g: Model)
    requires
        g.mode == Mode::Normal,
    ensures
        redrawn(g, g.all_loaded().select(model::last_of(g.all_loaded().rows.len())), Said::Consumed),
{
    let all = g.all_loaded();
    let h = all.select(model::last_of(all.rows.len()));
    lemma_all_loaded_keeps(g);
    lemma_select_keeps(all, model::last_of(all.rows.len()));
    assert(only_selected(g, h)) by {
        reveal(only_selected);
    }
    lemma_selected_is_redrawn(g, h, Said::Consumed);
}

proof fn lemma_move_is_redrawn(g: Model, delta: int)
    requires
        g.mode == Mode::Normal,
    ensures
        redrawn(g, g.moved(g.focus, delta).0, g.moved(g.focus, delta).1),
{
    if g.focus == Pane::Graph {
        lemma_select_keeps(g, model::shifted(g.selected, delta));
        lemma_selected_is_redrawn(g, g.select(model::shifted(g.selected, delta)), Said::Consumed);
    } else {
        reveal(redrawn);
    }
}

proof fn lemma_letter_is_redrawn(g: Model, c: char, m: u8)
    requires
        g.mode == Mode::Normal,
    ensures
        redrawn(g, g.letter_pressed(c, m).0, g.letter_pressed(c, m).1),
{
    let half = model::at_least(model::at_least(g.viewport, 1) / 2, 1) as int;
    if c == '@' || c == '/' || c == '?' || c == 'q' {
        reveal(redrawn);
    } else if m == CONTROL && c == 'd' {
        lemma_move_is_redrawn(g, half);
    } else if m == CONTROL && c == 'u' {
        lemma_move_is_redrawn(g, -half);
    } else if m == SHIFT && c == 'G' {
        lemma_end_is_redrawn(g);
    } else if m == NONE && c == 'j' {
        lemma_move_is_redrawn(g, 1);
    } else if m == NONE && c == 'k' {
        lemma_move_is_redrawn(g, -1);
    } else if m == NONE && c == 'g' {
        lemma_select_keeps(g, 0);
        lemma_selected_is_redrawn(g, g.select(0), Said::Consumed);
    } else if m == NONE && (c == ']' || c == '[') {
        let target = if c == ']' {
            g.next_decorated(g.selected)
        } else {
            g.previous_decorated(g.selected)
        };
        match target {
            Some(i) => {
                lemma_select_keeps(g, i);
                lemma_selected_is_redrawn(g, g.select(i), Said::Consumed);
            },
            None => {
                reveal(redrawn);
            },
        }
    } else {
        reveal(redrawn);
    }
}

/// Law: a key that changes the mode, the focus, how far a pane is scrolled while the
/// selection stays, or the search asks for a new frame; in the panes one that changes
/// nothing does not. Any key closes the help.
pub proof fn law_changes_are_redrawn(g: Model, key: KeyEvent)
    ensures
        redrawn(g, g.pressed(key).0, g.pressed(key).1),
{
    if g.mode == Mode::Normal {
        let page = model::at_least(g.viewport, 1) as int;
        match key.code {
            KeyCode::Down if key.modifiers == NONE => lemma_move_is_redrawn(g, 1),
            KeyCode::Up if key.modifiers == NONE => lemma_move_is_redrawn(g, -1),
            KeyCode::PageDown if key.modifiers == NONE => lemma_move_is_redrawn(g, page),
            KeyCode::PageUp if key.modifiers == NONE => lemma_move_is_redrawn(g, -page),
            KeyCode::Home if key.modifiers == NONE => {
                lemma_select_keeps(g, 0);
                lemma_selected_is_redrawn(g, g.select(0), Said::Consumed);
            },
            KeyCode::End => lemma_end_is_redrawn(g),
            KeyCode::Char(c) => lemma_letter_is_redrawn(g, c, key.modifiers),
            _ => {
                reveal(redrawn);
            },
        }
    } else {
        reveal(redrawn);
    }
}

/// Law: in a file's diff, Control with `d` or `u` scrolls by half of what is on view,
/// and the wheel by three lines.
pub proof fn law_diff_scrolls_by_halves(g: Model, h: HighlightedDiff, column: u16, row: u16)
    requires
        g.mode == Mode::FileDiff,
        g.file_diff == FileView::Ready(h),
        2 <= g.file_diff_rows <= 65535,
        h.diff.lines@.len() <= 20_000,
        g.file_diff_scroll <= 20_000,
    ensures
        ({
            let half = g.file_diff_rows as int / 2;
            let end = h.diff.lines@.len() - g.file_diff_rows;
            let at = g.file_diff_scroll as int;
            let wheel = |kind: MouseEventKind|
                g.pointed(MouseEvent { kind, column, row }).0.file_diff_scroll as int;
            &&& at + half <= end ==> g.pressed(control('d')).0.file_diff_scroll == at + half
            &&& half <= at <= end ==> g.pressed(control('u')).0.file_diff_scroll == at - half
            &&& at + 3 <= end ==> wheel(MouseEventKind::ScrollDown) == at + 3
            &&& 3 <= at <= end ==> wheel(MouseEventKind::ScrollUp) == at - 3
        }),
{
}

/// Law: capitals are typed into the search as small letters are; Control with `j` and
/// `k` goes from match to match as the arrows do.
pub proof fn law_search_keys(g: Model, c: char)
    requires
        g.mode == Mode::Search,
    ensures
        g.pressed(KeyEvent { code: KeyCode::Char(c), modifiers: SHIFT }).0.typed == g.typed.push(c),
        g.pressed(control('j')) == g.pressed(plain(KeyCode::Down)),
        g.pressed(control('k')) == g.pressed(plain(KeyCode::Up)),
        g.pressed(plain(KeyCode::Esc)).0 == (Model { mode: Mode::Normal, ..g }),
        c != 'j' && c != 'k' ==> g.pressed(control(c)) == (g, Said::Consumed),
{
}

/// Law: a letter with a modifier that it is not bound with does nothing in the panes.
pub proof fn law_unbound_keys_do_nothing(g: Model, c: char, m: u8)
    requires
        g.mode == Mode::Normal,
        c != '@' && c != '/' && c != '?' && c != 'q',
        m == CONTROL ==> c != 'd' && c != 'u',
        m == SHIFT ==> c != 'G' && c != 'R',
        m == NONE ==> c != 'j' && c != 'k' && c != 'g' && c != 'y' && c != ']' && c != '[' && c
            != 'o' && c != 't',
    ensures
        g.pressed(KeyEvent { code: KeyCode::Char(c), modifiers: m }) == (g, Said::Consumed),
{
}

} // verus!
