//! The frames that carry lists or metadata, as bytes.
use crate::proto::codec;
use crate::proto::format::{bytes, flag, maybe_text, number, text};
use crate::proto::frames;
use crate::proto::frames::{ExitView, FrameView, SessionView};
use crate::proto::wire;
use crate::proto::{AgentState, HostSample, Scrollback};
use vstd::prelude::*;
use vstd::utf8::*;

verus! {

proof fn lemma_number(n: nat)
    ensures
        wire::varint(n) == number(n),
    decreases n,
{
    if n >= 128 {
        lemma_number(n / 128);
    }
}

proof fn lemma_numbers()
    ensures
        forall|n: nat| #[trigger] wire::varint(n) == number(n),
{
    assert forall|n: nat| #[trigger] wire::varint(n) == number(n) by {
        lemma_number(n);
    }
}

proof fn lemma_fields()
    ensures
        forall|v: u16, rest: Seq<u8>| #[trigger] wire::wire_small(v, rest) == number(v as nat)
            + rest,
        forall|v: u32, rest: Seq<u8>| #[trigger] wire::wire_word(v, rest) == number(v as nat) + rest,
        forall|v: u64, rest: Seq<u8>| #[trigger] wire::wire_long(v, rest) == number(v as nat) + rest,
        forall|v: bool, rest: Seq<u8>| #[trigger] wire::wire_flag(v, rest) == flag(v) + rest,
        forall|v: Seq<u8>, rest: Seq<u8>| #[trigger] wire::wire_blob(v, rest) == bytes(v) + rest,
        forall|v: Seq<char>, rest: Seq<u8>| #[trigger] wire::wire_text(v, rest) == text(v) + rest,
{
    lemma_numbers();
    assert forall|v: Seq<u8>, rest: Seq<u8>| #[trigger]
        wire::wire_blob(v, rest) == bytes(v) + rest by {
        assert(wire::wire_blob(v, rest) =~= bytes(v) + rest);
    }
    assert forall|v: bool, rest: Seq<u8>| #[trigger] wire::wire_flag(v, rest) == flag(v) + rest by {
        assert(wire::wire_flag(v, rest) =~= flag(v) + rest);
    }
    assert forall|v: Seq<char>, rest: Seq<u8>| #[trigger]
        wire::wire_text(v, rest) == text(v) + rest by {
        assert(wire::wire_blob(encode_utf8(v), rest) == bytes(encode_utf8(v)) + rest);
    }
}

/// The number of a session's state.
pub open spec fn state_number(s: AgentState) -> nat {
    match s {
        AgentState::Working => 0,
        AgentState::Blocked => 1,
        AgentState::Idle => 2,
        AgentState::Unknown => 3,
    }
}

/// Law: a session's metadata are its name, command and title, when it was made and how
/// long it has been idle, whether it runs and its state, who is attached, its process
/// and its size, in that order.
pub proof fn law_session_is_laid_out(v: SessionView, rest: Seq<u8>)
    ensures
        frames::wire_session(v, rest) == text(v.name) + (text(v.command) + (text(v.title) + (number(
            v.created_ms as nat,
        ) + (number(v.idle_ms as nat) + (flag(v.running) + (number(state_number(v.state)) + (number(
            v.attached_clients as nat,
        ) + (number(v.pid as nat) + (number(v.cols as nat) + (number(v.rows as nat)
            + rest)))))))))),
{
    lemma_fields();
    reveal(frames::wire_session);
}

proof fn lemma_sessions(v: Seq<SessionView>, more: Seq<SessionView>, i: int, rest: Seq<u8>)
    requires
        0 <= i <= v.len(),
        v.len() <= more.len(),
        forall|k: int| 0 <= k < v.len() ==> #[trigger] v[k] == more[k],
    ensures
        frames::wire_sessions_from(more, i, rest) == frames::wire_sessions_from(
            v,
            i,
            frames::wire_sessions_from(more, v.len() as int, rest),
        ),
    decreases v.len() - i,
{
    if i < v.len() {
        lemma_sessions(v, more, i + 1, rest);
        assert(v[i] == more[i]);
    }
}

/// Law: lists are their number of items and the items, in order.
pub proof fn law_lists_are_laid_out(
    sessions: Seq<SessionView>,
    s: SessionView,
    rows: Seq<Seq<u8>>,
    row: Seq<u8>,
    modes: Seq<u16>,
    mode: u16,
    rest: Seq<u8>,
)
    requires
        sessions.len() < u64::MAX,
        rows.len() < u64::MAX,
        modes.len() < u64::MAX,
    ensures
        frames::wire_sessions(sessions, rest) == number(sessions.len())
            + frames::wire_sessions_from(sessions, 0, rest),
        frames::wire_sessions_from(sessions.push(s), 0, rest) == frames::wire_sessions_from(
            sessions,
            0,
            frames::wire_session(s, rest),
        ),
        frames::wire_sessions_from(Seq::empty(), 0, rest) == rest,
        frames::wire_blobs(rows, rest) == number(rows.len()) + frames::wire_blobs_from(
            rows,
            0,
            rest,
        ),
        frames::wire_blobs_from(rows.push(row), 0, rest) == frames::wire_blobs_from(
            rows,
            0,
            bytes(row) + rest,
        ),
        frames::wire_blobs_from(Seq::empty(), 0, rest) == rest,
        frames::wire_smalls(modes, rest) == number(modes.len()) + frames::wire_smalls_from(
            modes,
            0,
            rest,
        ),
        frames::wire_smalls_from(modes.push(mode), 0, rest) == frames::wire_smalls_from(
            modes,
            0,
            number(mode as nat) + rest,
        ),
        frames::wire_smalls_from(Seq::empty(), 0, rest) == rest,
{
    lemma_fields();
    lemma_sessions(sessions, sessions.push(s), 0, rest);
    lemma_blobs(rows, rows.push(row), 0, rest);
    lemma_smalls(modes, modes.push(mode), 0, rest);
    reveal_with_fuel(frames::wire_sessions_from, 2);
    reveal_with_fuel(frames::wire_blobs_from, 2);
    reveal_with_fuel(frames::wire_smalls_from, 2);
}

proof fn lemma_blobs(v: Seq<Seq<u8>>, more: Seq<Seq<u8>>, i: int, rest: Seq<u8>)
    requires
        0 <= i <= v.len(),
        v.len() <= more.len(),
        forall|k: int| 0 <= k < v.len() ==> #[trigger] v[k] == more[k],
    ensures
        frames::wire_blobs_from(more, i, rest) == frames::wire_blobs_from(
            v,
            i,
            frames::wire_blobs_from(more, v.len() as int, rest),
        ),
    decreases v.len() - i,
{
    if i < v.len() {
        lemma_blobs(v, more, i + 1, rest);
        assert(v[i] == more[i]);
    }
}

proof fn lemma_smalls(v: Seq<u16>, more: Seq<u16>, i: int, rest: Seq<u8>)
    requires
        0 <= i <= v.len(),
        v.len() <= more.len(),
        forall|k: int| 0 <= k < v.len() ==> #[trigger] v[k] == more[k],
    ensures
        frames::wire_smalls_from(more, i, rest) == frames::wire_smalls_from(
            v,
            i,
            frames::wire_smalls_from(more, v.len() as int, rest),
        ),
    decreases v.len() - i,
{
    if i < v.len() {
        lemma_smalls(v, more, i + 1, rest);
        assert(v[i] == more[i]);
    }
}

/// How much history is asked for: nothing but the screen, everything, or so many lines.
pub open spec fn history(s: Scrollback) -> Seq<u8> {
    match s {
        Scrollback::ScreenOnly => number(0),
        Scrollback::All => number(1),
        Scrollback::Lines(n) => number(2) + number(n as nat),
    }
}

/// How a session ended behind a 1, or a 0 where it did not.
pub open spec fn maybe_exit(e: Option<ExitView>) -> Seq<u8> {
    match e {
        Some(x) => flag(true) + (number(x.code as nat) + maybe_text(x.signal)),
        None => flag(false),
    }
}

/// A reading of the host's load behind a 1, or a 0 where there is none.
pub open spec fn maybe_load(s: Option<HostSample>) -> Seq<u8> {
    match s {
        Some(x) => flag(true) + (seq![x.cpu_pct] + (number(x.mem_used_bytes as nat) + (number(
            x.mem_total_bytes as nat,
        ) + (number(x.net_rx_bps as nat) + (number(x.net_tx_bps as nat) + number(
            x.sampled_age_ms as nat,
        )))))),
        None => flag(false),
    }
}

proof fn lemma_end(a: Seq<u8>)
    ensures
        a + Seq::<u8>::empty() == a,
{
    assert(a + Seq::<u8>::empty() =~= a);
}

/// Law: a request for a screen is the session's name and how much history is wanted;
/// a session's status is whether it runs, its state, how long it has been idle and how
/// it ended; the host's load is one reading, where there is one.
pub proof fn law_requests_and_readings(
    name: Seq<char>,
    scrollback: Scrollback,
    running: bool,
    state: AgentState,
    idle_ms: u64,
    exit: Option<ExitView>,
    sample: Option<HostSample>,
)
    ensures
        codec::payload_of(FrameView::Peek { name, scrollback }) == number(19) + (text(name)
            + history(scrollback)),
        codec::payload_of(FrameView::FollowStatus { running, state, idle_ms, exit }) == number(25)
            + (flag(running) + (number(state_number(state)) + (number(idle_ms as nat) + maybe_exit(
            exit,
        )))),
        codec::payload_of(FrameView::HostMetricsReply { sample }) == number(30) + maybe_load(
            sample,
        ),
{
    lemma_fields();
    let none = Seq::<u8>::empty();
    assert(frames::wire_scrollback(scrollback, none) == history(scrollback)) by {
        match scrollback {
            Scrollback::ScreenOnly => lemma_end(number(0)),
            Scrollback::All => lemma_end(number(1)),
            Scrollback::Lines(n) => lemma_end(number(n as nat)),
        }
    }
    assert(frames::wire_maybe_exit(exit, none) == maybe_exit(exit)) by {
        match exit {
            Some(x) => {
                assert(frames::wire_maybe_text(x.signal, none) =~= maybe_text(x.signal));
            },
            None => lemma_end(flag(false)),
        }
    }
    assert(frames::wire_maybe_sample(sample, none) == maybe_load(sample)) by {
        match sample {
            Some(x) => lemma_end(number(x.sampled_age_ms as nat)),
            None => lemma_end(flag(false)),
        }
    }
}

/// Law: a list of sessions is that list; a stretch of history is how many rows there
/// are, the first of them and the rows; what is known of a session is its metadata,
/// its child's process, whether the alternate screen is on, the rows of its history,
/// whether and how the mouse is tracked, and where its cursor is and whether it shows.
pub proof fn law_replies_are_laid_out(
    sessions: Seq<SessionView>,
    total_rows: u32,
    start: u32,
    rows: Seq<Seq<u8>>,
    info: SessionView,
    child_pid: u32,
    alt_screen: bool,
    scrollback_rows: u32,
    mouse_tracking: bool,
    mouse_modes: Seq<u16>,
    cursor_col: u16,
    cursor_row: u16,
    cursor_visible: bool,
)
    ensures
        codec::payload_of(FrameView::SessionList { sessions }) == number(3) + frames::wire_sessions(
            sessions,
            Seq::empty(),
        ),
        codec::payload_of(FrameView::History { total_rows, start, rows }) == number(15) + (number(
            total_rows as nat,
        ) + (number(start as nat) + frames::wire_blobs(rows, Seq::empty()))),
        codec::payload_of(
            FrameView::InspectReply {
                info,
                child_pid,
                alt_screen,
                scrollback_rows,
                mouse_tracking,
                mouse_modes,
                cursor_col,
                cursor_row,
                cursor_visible,
            },
        ) == number(22) + frames::wire_session(
            info,
            number(child_pid as nat) + (flag(alt_screen) + (number(scrollback_rows as nat) + (flag(
                mouse_tracking,
            ) + frames::wire_smalls(
                mouse_modes,
                number(cursor_col as nat) + (number(cursor_row as nat) + flag(cursor_visible)),
            )))),
        ),
{
    lemma_fields();
    lemma_end(flag(cursor_visible));
}

} // verus!
