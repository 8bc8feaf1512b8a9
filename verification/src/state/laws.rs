//! What holds of the overlay whatever is pressed.
use crate::git::commit::ObjectId;
use crate::input::{KeyCode, KeyEvent, MouseEvent, MouseEventKind, NONE};
use crate::state::graph;
use crate::state::model;
use crate::state::model::{Detail, Model, Said};
use crate::state::{Mode, Worker, PAGE_MARGIN, PAGE_MORE};
use crate::ui::layout::Pane;
use crate::worker::Reply;
use vstd::prelude::*;

verus! {

/// Whether the selection is a row, wherever there is one.
pub open spec fn in_range(g: Model) -> bool {
    g.selected <= model::last_of(g.rows.len())
}

/// Everything but what is loaded.
pub open spec fn apart_from_loading(g: Model, h: Model) -> bool {
    h == (Model {
        rows: h.rows,
        lanes: h.lanes,
        pending: h.pending,
        exhausted: h.exhausted,
        ..g
    })
}

pub proof fn lemma_fed(g: Model, n: nat)
    ensures
        apart_from_loading(g, g.fed_many(n)),
        g.fed_many(n).exhausted == g.exhausted,
        g.fed_many(n).rows.len() == g.rows.len() + model::at_most(n, g.pending.len()),
        g.fed_many(n).pending == g.pending.skip(model::at_most(n, g.pending.len()) as int),
        g.rows.is_prefix_of(g.fed_many(n).rows),
    decreases n,
{
    if n > 0 && g.pending.len() > 0 {
        let next = g.fed_one();
        lemma_fed(next, (n - 1) as nat);
        let k = model::at_most((n - 1) as nat, next.pending.len());
        assert(next.pending.skip(k as int) =~= g.pending.skip(k as int + 1));
        assert(g.rows.is_prefix_of(next.rows));
        assert(g.rows.is_prefix_of(next.fed_many((n - 1) as nat).rows)) by {
            let last = next.fed_many((n - 1) as nat).rows;
            assert forall|i: int| 0 <= i < g.rows.len() implies g.rows[i] == last[i] by {
                assert(next.rows[i] == g.rows[i]);
            }
            assert(last.subrange(0, g.rows.len() as int) =~= g.rows);
        }
    } else {
        assert(g.pending.skip(0) =~= g.pending);
    }
}

/// Law: loading lays out the commits that were read, in order, and loses none:
/// the rows there were stay as they are, and rows and commits left add up to what
/// they did before.
pub proof fn law_loading(g: Model, n: nat)
    ensures
        apart_from_loading(g, g.more(n)),
        g.more(n).rows.len() + g.more(n).pending.len() == g.rows.len() + g.pending.len(),
        g.rows.is_prefix_of(g.more(n).rows),
        !g.exhausted ==> g.more(n).rows.len() == g.rows.len() + model::at_most(
            n,
            g.pending.len(),
        ),
{
    lemma_fed(g, n);
}

pub proof fn lemma_around(g: Model, index: nat)
    ensures
        apart_from_loading(g, g.around(index)),
        g.around(index).exhausted || index + PAGE_MARGIN < g.around(index).rows.len(),
        g.rows.len() <= g.around(index).rows.len(),
    decreases g.left(),
{
    if !g.exhausted && index + PAGE_MARGIN >= g.rows.len() {
        graph::lemma_more_progress(g);
        law_loading(g, PAGE_MORE as nat);
        lemma_around(g.more(PAGE_MORE as nat), index);
    }
}

/// Law: jumping to the oldest row loads the whole history.
pub proof fn law_oldest_is_loaded(g: Model)
    ensures
        apart_from_loading(g, g.all_loaded()),
        g.all_loaded().exhausted,
        !g.exhausted ==> g.all_loaded().pending.len() == 0 && g.all_loaded().rows.len()
            == g.rows.len() + g.pending.len(),
    decreases g.left(),
{
    if !g.exhausted {
        graph::lemma_more_progress(g);
        law_loading(g, PAGE_MORE as nat);
        let next = g.more(PAGE_MORE as nat);
        lemma_fed(g, PAGE_MORE as nat);
        law_oldest_is_loaded(next);
        if next.exhausted {
            assert(next.all_loaded() == next);
        }
    }
}

/// Law: selecting a row ends on a row, shows it, and asks for its diff. Where a
/// different row is selected, the panes below start at their top.
pub proof fn law_select(g: Model, index: nat)
    ensures
        in_range(g.select(index)),
        index < g.select(index).rows.len() ==> g.select(index).selected == index,
        g.viewport >= 1 ==> g.select(index).first_row <= g.select(index).selected
            < g.select(index).first_row + g.viewport,
        g.worker == Worker::Alive ==> g.select(index).detail_for == g.select(index).selected_id(),
        g.select(index).selected != g.selected ==> g.select(index).detail_scroll == 0
            && g.select(index).file_selected == 0 && g.select(index).file_scroll == 0,
        g.select(index).focus == g.focus,
        g.select(index).mode == g.mode,
{
    lemma_around(g, index);
}

proof fn lemma_moved_in_range(g: Model, pane: Pane, delta: int)
    requires
        in_range(g),
    ensures
        in_range(g.moved(pane, delta).0),
{
    law_select(g, model::shifted(g.selected, delta));
}

proof fn lemma_letter_in_range(g: Model, c: char, m: u8)
    requires
        in_range(g),
    ensures
        in_range(g.letter_pressed(c, m).0),
{
    let half = model::at_least(model::at_least(g.viewport, 1) / 2, 1);
    if c == 'd' {
        lemma_moved_in_range(g, g.focus, half as int);
    } else if c == 'u' {
        lemma_moved_in_range(g, g.focus, -half);
    } else if c == 'j' {
        lemma_moved_in_range(g, g.focus, 1);
    } else if c == 'k' {
        lemma_moved_in_range(g, g.focus, -1);
    } else if c == 'g' {
        law_select(g, 0);
    } else if c == 'G' {
        law_select(g.all_loaded(), model::last_of(g.all_loaded().rows.len()));
    } else if c == ']' {
        match g.next_decorated(g.selected) {
            Some(i) => law_select(g, i),
            None => {},
        }
    } else if c == '[' {
        match g.previous_decorated(g.selected) {
            Some(i) => law_select(g, i),
            None => {},
        }
    }
}

proof fn lemma_pane_key_in_range(g: Model, key: KeyEvent)
    requires
        in_range(g),
    ensures
        in_range(g.pane_pressed(key).0),
{
    let page = model::at_least(g.viewport, 1);
    match key.code {
        KeyCode::Char(c) => lemma_letter_in_range(g, c, key.modifiers),
        KeyCode::Down => lemma_moved_in_range(g, g.focus, 1),
        KeyCode::Up => lemma_moved_in_range(g, g.focus, -1),
        KeyCode::PageDown => lemma_moved_in_range(g, g.focus, page as int),
        KeyCode::PageUp => lemma_moved_in_range(g, g.focus, -page),
        KeyCode::Home => law_select(g, 0),
        KeyCode::End => law_select(g.all_loaded(), model::last_of(g.all_loaded().rows.len())),
        _ => {},
    }
}

proof fn lemma_search_key_in_range(g: Model, key: KeyEvent)
    requires
        in_range(g),
    ensures
        in_range(g.search_pressed(key).0),
{
    law_select(Model { mode: Mode::Normal, ..g }, g.found[g.highlighted as int] as nat);
}

/// Law: whatever key is pressed, the selection stays on a row.
pub proof fn law_key_stays_in_range(g: Model, key: KeyEvent)
    requires
        in_range(g),
    ensures
        in_range(g.pressed(key).0),
{
    match g.mode {
        Mode::Normal => lemma_pane_key_in_range(g, key),
        Mode::Search => lemma_search_key_in_range(g, key),
        Mode::FileDiff => law_diff_keeps_its_keys(g, key),
        Mode::Help => {},
    }
}

/// Law: while the search box is open, nothing but Enter moves the selection or
/// anything the panes show.
pub proof fn law_search_leaves_the_graph_alone(g: Model, key: KeyEvent)
    requires
        g.mode == Mode::Search,
        key.code != KeyCode::Enter,
    ensures
        ({
            let h = g.pressed(key).0;
            h == (Model {
                mode: h.mode,
                typed: h.typed,
                found: h.found,
                highlighted: h.highlighted,
                ..g
            })
        }),
        key.code == KeyCode::Esc ==> g.pressed(key) == (
            Model { mode: Mode::Normal, ..g },
            Said::Redraw,
        ),
{
}

/// Law: Enter in the search box goes to the highlighted match, as far as the
/// graph has rows, and without a match moves nothing.
pub proof fn law_search_enter(g: Model)
    requires
        g.mode == Mode::Search,
        g.found.len() > 0 ==> g.highlighted < g.found.len() && g.found[g.highlighted as int]
            < g.rows.len(),
    ensures
        ({
            let h = g.pressed(KeyEvent { code: KeyCode::Enter, modifiers: NONE }).0;
            &&& h.mode == Mode::Normal
            &&& g.found.len() == 0 ==> h == (Model { mode: Mode::Normal, ..g })
            &&& g.found.len() > 0 ==> h.selected == g.found[g.highlighted as int]
        }),
{
    if g.found.len() > 0 {
        let n = Model { mode: Mode::Normal, ..g };
        let at = g.found[g.highlighted as int] as nat;
        law_select(n, at);
        lemma_around(n, at);
    }
}

/// What the panes show, and everything else that the file diff view does not
/// own, is the same.
pub open spec fn same_panes(g: Model, h: Model) -> bool {
    h == (Model { mode: h.mode, file_diff_scroll: h.file_diff_scroll, ..g })
}

proof fn lemma_scrolled_keeps(g: Model, delta: int)
    ensures
        same_panes(g, g.scrolled(delta).0),
{
}

/// Law: while a file's diff is open, no key reaches the panes under it.
pub proof fn law_diff_keeps_its_keys(g: Model, key: KeyEvent)
    requires
        g.mode == Mode::FileDiff,
    ensures
        same_panes(g, g.pressed(key).0),
{
    let page = model::at_least(g.file_diff_rows, 1);
    let half = model::at_least(page / 2, 1);
    assert(same_panes(g, g));
    assert(same_panes(g, Model { mode: Mode::Normal, ..g }));
    lemma_scrolled_keeps(g, 1);
    lemma_scrolled_keeps(g, -1);
    lemma_scrolled_keeps(g, half as int);
    lemma_scrolled_keeps(g, -half);
    lemma_scrolled_keeps(g, page as int);
    lemma_scrolled_keeps(g, -page);
    lemma_scrolled_keeps(g, isize::MIN as int);
    lemma_scrolled_keeps(g, isize::MAX as int);
    let h = g.pressed(key).0;
    assert(h == g.diff_pressed(key).0);
    lemma_diff_cases(g, key);
}

proof fn lemma_diff_cases(g: Model, key: KeyEvent)
    ensures
        ({
            let h = g.diff_pressed(key).0;
            let page = model::at_least(g.file_diff_rows, 1);
            let half = model::at_least(page / 2, 1);
            ||| h == g
            ||| h == (Model { mode: Mode::Normal, ..g })
            ||| h == g.scrolled(1).0
            ||| h == g.scrolled(-1).0
            ||| h == g.scrolled(half as int).0
            ||| h == g.scrolled(-half).0
            ||| h == g.scrolled(page as int).0
            ||| h == g.scrolled(-page).0
            ||| h == g.scrolled(isize::MIN as int).0
            ||| h == g.scrolled(isize::MAX as int).0
        }),
{
}

/// Law: the layers come off one at a time. Only with the panes on top does a key
/// close the overlay; elsewhere Esc goes back to them, and so does every key from
/// the help popup.
pub proof fn law_layers_unwind(g: Model, key: KeyEvent)
    ensures
        g.pressed(key).1 is Dismiss ==> g.mode == Mode::Normal,
        g.mode != Mode::Normal && key.code == KeyCode::Esc ==> g.pressed(key) == (
            Model { mode: Mode::Normal, ..g },
            Said::Redraw,
        ),
        g.mode == Mode::Help ==> g.pressed(key) == (
            Model { mode: Mode::Normal, ..g },
            Said::Redraw,
        ),
{
}

/// Law: the pointer does nothing under the search box and the help popup.
pub proof fn law_pointer_under_a_popup(g: Model, ev: MouseEvent)
    requires
        g.mode == Mode::Search || g.mode == Mode::Help,
    ensures
        g.pointed(ev) == (g, Said::Consumed),
{
}

/// Law: the wheel never moves the focus.
pub proof fn law_wheel_keeps_focus(g: Model, ev: MouseEvent)
    requires
        ev.kind == MouseEventKind::ScrollDown || ev.kind == MouseEventKind::ScrollUp,
    ensures
        g.pointed(ev).0.focus == g.focus,
{
    law_select(g, model::shifted(g.selected, 3));
    law_select(g, model::shifted(g.selected, -3));
}

/// Law: three times Tab comes back to the pane it started from, as does three
/// times Shift and Tab, and each undoes the other. Shift and Tab goes back whatever
/// other modifiers are held; Tab goes on only without any.
pub proof fn law_focus_cycles(g: Model, modifiers: u8)
    requires
        g.mode == Mode::Normal,
    ensures
        ({
            let tab = KeyEvent { code: KeyCode::Tab, modifiers: NONE };
            let back = KeyEvent { code: KeyCode::BackTab, modifiers };
            &&& g.pressed(tab).0.pressed(tab).0.pressed(tab).0 == g
            &&& g.pressed(back).0.pressed(back).0.pressed(back).0 == g
            &&& g.pressed(tab).0.pressed(back).0 == g
            &&& g.pressed(back).0.pressed(tab).0 == g
            &&& modifiers != NONE ==> g.pressed(KeyEvent { code: KeyCode::Tab, modifiers }) == (
                g,
                Said::Consumed,
            )
        }),
{
}

/// Law: `o` and `t` pressed twice change nothing.
pub proof fn law_toggles(g: Model, c: char)
    requires
        g.mode == Mode::Normal,
        c == 'o' || c == 't',
    ensures
        ({
            let key = KeyEvent { code: KeyCode::Char(c), modifiers: NONE };
            g.pressed(key).0.pressed(key).0 == g
        }),
{
}

/// Law: a jump down lands on the nearest decorated row below, and a jump up on
/// the nearest above; where there is none, nothing moves. It never wraps.
pub proof fn law_next_decorated(g: Model, from: nat)
    ensures
        match g.next_decorated(from) {
            Some(i) => from < i < g.rows.len() && g.decorated(i) && forall|k: nat|
                from < k < i ==> !g.decorated(k),
            None => forall|k: nat| from < k < g.rows.len() ==> !g.decorated(k),
        },
    decreases g.rows.len() - from,
{
    if from + 1 < g.rows.len() && !g.decorated(from + 1) {
        law_next_decorated(g, from + 1);
    }
}

/// Law: a jump up lands on the nearest decorated row above.
pub proof fn law_previous_decorated(g: Model, from: nat)
    ensures
        match g.previous_decorated(from) {
            Some(i) => i < from && g.decorated(i) && forall|k: nat|
                i < k < from ==> !g.decorated(k),
            None => forall|k: nat| k < from ==> !g.decorated(k),
        },
    decreases from,
{
    if from > 0 && !g.decorated((from - 1) as nat) {
        law_previous_decorated(g, (from - 1) as nat);
    }
}

/// Law: a late reply, for a commit that is no longer selected or a file that is
/// no longer the one opened, changes nothing.
pub proof fn law_stale_reply_is_dropped(g: Model, reply: Reply)
    requires
        g.asks_for_selected(),
        match reply {
            Reply::Commit { id, .. } => g.selected_id() != Some(id),
            Reply::File { commit, path, .. } => g.file_diff_for != Some((commit, path@)),
        },
    ensures
        g.answered(reply) == (g, false),
{
}

/// Law: once a request could not be posted, nothing more is asked of the worker: a
/// commit selected from then on is shown without a diff, a file opened from then
/// on fails, and the next poll leaves nothing loading.
pub proof fn law_failed_post(g: Model, index: nat, replies: Seq<Reply>, alive: bool)
    requires
        g.worker != Worker::Absent,
    ensures
        ({
            let h = g.post_failed();
            let s = h.select(index);
            let p = h.polled(replies, alive).0;
            &&& s.asked == g.asked
            &&& s.selected_id() is Some && s.selected_id() != g.detail_for ==> s.detail
                == Detail::Unavailable
            &&& !(p.detail is Loading) && !(p.file_diff is Loading)
        }),
        forall|commit: ObjectId, path: Seq<char>|
            {
                let o = #[trigger] g.post_failed().opened(commit, path);
                &&& o.asked == g.asked
                &&& g.file_diff_for != Some((commit, path)) ==> o.file_diff is Failed
            },
{
    lemma_around(g.post_failed(), index);
}

/// Law: behind a dead worker nothing stays loading, and nothing more is asked of
/// it.
pub proof fn law_dead_worker(g: Model, replies: Seq<Reply>, index: nat)
    requires
        g.worker != Worker::Absent,
    ensures
        !(g.polled(replies, false).0.detail is Loading),
        !(g.polled(replies, false).0.file_diff is Loading),
        g.polled(replies, false).0.select(index).asked == g.polled(replies, false).0.asked,
{
    lemma_around(g.polled(replies, false).0, index);
}

/// Law: opening the file that is already open, or on its way, asks for nothing
/// more.
pub proof fn law_reopening_asks_nothing(g: Model)
    requires
        g.mode == Mode::Normal,
        g.worker == Worker::Alive,
    ensures
        ({
            let enter = KeyEvent { code: KeyCode::Enter, modifiers: NONE };
            let esc = KeyEvent { code: KeyCode::Esc, modifiers: NONE };
            let once = g.pressed(enter).0;
            once.mode == Mode::FileDiff ==> once.pressed(esc).0.pressed(enter).0.asked
                == once.asked
        }),
{
}

/// Law: selecting the row that is already selected and described asks for
/// nothing more.
pub proof fn law_one_request_per_commit(g: Model, index: nat)
    requires
        g.worker == Worker::Alive,
    ensures
        g.select(index).select(g.select(index).selected).asked == g.select(index).asked,
{
    let once = g.select(index);
    law_select(g, index);
    lemma_around(g, index);
    lemma_around(once, once.selected);
    let h = once.around(once.selected);
    assert(h.rows.len() >= once.rows.len());
    lemma_rows_kept(once, once.selected);
    assert(h.commit_at(once.selected) == once.commit_at(once.selected) || once.rows.len() == 0);
    if once.rows.len() == 0 {
        lemma_empty_stays(g, index);
        assert(h == once);
    }
}

proof fn lemma_empty_stays(g: Model, index: nat)
    requires
        g.around(index).rows.len() == 0,
    ensures
        g.around(index).exhausted,
{
    lemma_around(g, index);
}

pub proof fn lemma_rows_kept(g: Model, index: nat)
    ensures
        g.rows.is_prefix_of(g.around(index).rows),
    decreases g.left(),
{
    if !g.exhausted && index + PAGE_MARGIN >= g.rows.len() {
        graph::lemma_more_progress(g);
        law_loading(g, PAGE_MORE as nat);
        let next = g.more(PAGE_MORE as nat);
        lemma_rows_kept(next, index);
        let last = next.around(index).rows;
        assert forall|i: int| 0 <= i < g.rows.len() implies g.rows[i] == last[i] by {
            assert(next.rows[i] == g.rows[i]);
        }
        assert(last.subrange(0, g.rows.len() as int) =~= g.rows);
    } else {
        assert(g.rows.subrange(0, g.rows.len() as int) =~= g.rows);
    }
}

} // verus!
