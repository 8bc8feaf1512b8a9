//! Reading gives back what was written, for every frame.
use crate::proto::frames;
use crate::proto::frames::{ExitView, FrameView, SessionView};
use crate::proto::wire;
use crate::proto::wire::CodecError;
use crate::proto::{
    AgentState, ClientKind, HostSample, Scrollback, TerminalAppearance, TerminalColor,
};
use vstd::prelude::*;
use vstd::utf8::*;

verus! {

/// A number takes at least one byte.
proof fn lemma_varint_len(n: nat)
    ensures
        wire::varint(n).len() >= 1,
{
}

proof fn lemma_state(v: AgentState, rest: Seq<u8>)
    requires
        frames::wire_state(v, rest).len() <= usize::MAX,
    ensures
        frames::take_state(frames::wire_state(v, rest)) == Ok::<(AgentState, Seq<u8>), CodecError>((v, rest)),
        rest.len() < frames::wire_state(v, rest).len(),
{
    wire::lemma_word(frames::state_place(v), rest);
    lemma_varint_len(frames::state_place(v) as nat);
}

proof fn lemma_kind(v: ClientKind, rest: Seq<u8>)
    requires
        frames::wire_kind(v, rest).len() <= usize::MAX,
    ensures
        frames::take_kind(frames::wire_kind(v, rest)) == Ok::<(ClientKind, Seq<u8>), CodecError>((v, rest)),
        rest.len() < frames::wire_kind(v, rest).len(),
{
    wire::lemma_word(frames::kind_place(v), rest);
    lemma_varint_len(frames::kind_place(v) as nat);
}

proof fn lemma_scrollback(v: Scrollback, rest: Seq<u8>)
    requires
        frames::wire_scrollback(v, rest).len() <= usize::MAX,
    ensures
        frames::take_scrollback(frames::wire_scrollback(v, rest)) == Ok::<(Scrollback, Seq<u8>), CodecError>((v, rest)),
        rest.len() < frames::wire_scrollback(v, rest).len(),
{
    match v {
        Scrollback::ScreenOnly => {
            wire::lemma_word(0, rest);
            lemma_varint_len(0);
        },
        Scrollback::All => {
            wire::lemma_word(1, rest);
            lemma_varint_len(1);
        },
        Scrollback::Lines(n) => {
            wire::lemma_word(2, wire::wire_word(n, rest));
            wire::lemma_word(n, rest);
            lemma_varint_len(2);
            lemma_varint_len(n as nat);
        },
    }
}

proof fn lemma_maybe_text(v: Option<Seq<char>>, rest: Seq<u8>)
    requires
        frames::wire_maybe_text(v, rest).len() <= usize::MAX,
    ensures
        frames::take_maybe_text(frames::wire_maybe_text(v, rest)) == Ok::<(Option<Seq<char>>, Seq<u8>), CodecError>((v, rest)),
        rest.len() < frames::wire_maybe_text(v, rest).len(),
{
    match v {
        Some(x) => {
            wire::lemma_mark(true, wire::wire_text(x, rest));
            wire::lemma_text(x, rest);
            lemma_varint_len(encode_utf8(x).len());
        },
        None => {
            wire::lemma_mark(false, rest);
        },
    }
}

proof fn lemma_session(v: SessionView, rest: Seq<u8>)
    requires
        frames::wire_session(v, rest).len() <= usize::MAX,
    ensures
        frames::take_session(frames::wire_session(v, rest)) == Ok::<(SessionView, Seq<u8>), CodecError>((v, rest)),
        rest.len() < frames::wire_session(v, rest).len(),
{
    reveal(frames::wire_session);
    reveal(frames::take_session);
    let after_cols = wire::wire_small(v.rows, rest);
    let after_pid = wire::wire_small(v.cols, after_cols);
    let after_attached_clients = wire::wire_word(v.pid, after_pid);
    let after_state = wire::wire_word(v.attached_clients, after_attached_clients);
    let after_running = frames::wire_state(v.state, after_state);
    let after_idle_ms = wire::wire_flag(v.running, after_running);
    let after_created_ms = wire::wire_long(v.idle_ms, after_idle_ms);
    let after_title = wire::wire_long(v.created_ms, after_created_ms);
    let after_command = wire::wire_text(v.title, after_title);
    let after_name = wire::wire_text(v.command, after_command);
    lemma_varint_len(encode_utf8(v.name).len());
    lemma_varint_len(encode_utf8(v.command).len());
    lemma_varint_len(encode_utf8(v.title).len());
    lemma_varint_len(v.created_ms as nat);
    lemma_varint_len(v.idle_ms as nat);
    lemma_varint_len(v.attached_clients as nat);
    lemma_varint_len(v.pid as nat);
    lemma_varint_len(v.cols as nat);
    lemma_varint_len(v.rows as nat);
    wire::lemma_text(v.name, after_name);
    wire::lemma_text(v.command, after_command);
    wire::lemma_text(v.title, after_title);
    wire::lemma_long(v.created_ms, after_created_ms);
    wire::lemma_long(v.idle_ms, after_idle_ms);
    wire::lemma_flag(v.running, after_running);
    lemma_state(v.state, after_state);
    wire::lemma_word(v.attached_clients, after_attached_clients);
    wire::lemma_word(v.pid, after_pid);
    wire::lemma_small(v.cols, after_cols);
    wire::lemma_small(v.rows, rest);
}

proof fn lemma_color(v: TerminalColor, rest: Seq<u8>)
    requires
        frames::wire_color(v, rest).len() <= usize::MAX,
    ensures
        frames::take_color(frames::wire_color(v, rest)) == Ok::<(TerminalColor, Seq<u8>), CodecError>((v, rest)),
        rest.len() < frames::wire_color(v, rest).len(),
{
    let after_g = wire::wire_byte(v.b, rest);
    let after_r = wire::wire_byte(v.g, after_g);
    wire::lemma_byte(v.r, after_r);
    wire::lemma_byte(v.g, after_g);
    wire::lemma_byte(v.b, rest);
}

proof fn lemma_maybe_color(v: Option<TerminalColor>, rest: Seq<u8>)
    requires
        frames::wire_maybe_color(v, rest).len() <= usize::MAX,
    ensures
        frames::take_maybe_color(frames::wire_maybe_color(v, rest)) == Ok::<(Option<TerminalColor>, Seq<u8>), CodecError>((v, rest)),
        rest.len() < frames::wire_maybe_color(v, rest).len(),
{
    match v {
        Some(x) => {
            wire::lemma_mark(true, frames::wire_color(x, rest));
            lemma_color(x, rest);
        },
        None => {
            wire::lemma_mark(false, rest);
        },
    }
}

proof fn lemma_appearance(v: TerminalAppearance, rest: Seq<u8>)
    requires
        frames::wire_appearance(v, rest).len() <= usize::MAX,
    ensures
        frames::take_appearance(frames::wire_appearance(v, rest)) == Ok::<(TerminalAppearance, Seq<u8>), CodecError>((v, rest)),
        rest.len() < frames::wire_appearance(v, rest).len(),
{
    let after_foreground = frames::wire_maybe_color(v.background, rest);
    lemma_maybe_color(v.foreground, after_foreground);
    lemma_maybe_color(v.background, rest);
}

proof fn lemma_exit(v: ExitView, rest: Seq<u8>)
    requires
        frames::wire_exit(v, rest).len() <= usize::MAX,
    ensures
        frames::take_exit(frames::wire_exit(v, rest)) == Ok::<(ExitView, Seq<u8>), CodecError>((v, rest)),
        rest.len() < frames::wire_exit(v, rest).len(),
{
    let after_code = frames::wire_maybe_text(v.signal, rest);
    lemma_varint_len(v.code as nat);
    wire::lemma_word(v.code, after_code);
    lemma_maybe_text(v.signal, rest);
}

proof fn lemma_maybe_exit(v: Option<ExitView>, rest: Seq<u8>)
    requires
        frames::wire_maybe_exit(v, rest).len() <= usize::MAX,
    ensures
        frames::take_maybe_exit(frames::wire_maybe_exit(v, rest)) == Ok::<(Option<ExitView>, Seq<u8>), CodecError>((v, rest)),
        rest.len() < frames::wire_maybe_exit(v, rest).len(),
{
    match v {
        Some(x) => {
            wire::lemma_mark(true, frames::wire_exit(x, rest));
            lemma_exit(x, rest);
        },
        None => {
            wire::lemma_mark(false, rest);
        },
    }
}

proof fn lemma_sample(v: HostSample, rest: Seq<u8>)
    requires
        frames::wire_sample(v, rest).len() <= usize::MAX,
    ensures
        frames::take_sample(frames::wire_sample(v, rest)) == Ok::<(HostSample, Seq<u8>), CodecError>((v, rest)),
        rest.len() < frames::wire_sample(v, rest).len(),
{
    let after_net_tx_bps = wire::wire_long(v.sampled_age_ms, rest);
    let after_net_rx_bps = wire::wire_long(v.net_tx_bps, after_net_tx_bps);
    let after_mem_total_bytes = wire::wire_long(v.net_rx_bps, after_net_rx_bps);
    let after_mem_used_bytes = wire::wire_long(v.mem_total_bytes, after_mem_total_bytes);
    let after_cpu_pct = wire::wire_long(v.mem_used_bytes, after_mem_used_bytes);
    lemma_varint_len(v.mem_used_bytes as nat);
    lemma_varint_len(v.mem_total_bytes as nat);
    lemma_varint_len(v.net_rx_bps as nat);
    lemma_varint_len(v.net_tx_bps as nat);
    lemma_varint_len(v.sampled_age_ms as nat);
    wire::lemma_byte(v.cpu_pct, after_cpu_pct);
    wire::lemma_long(v.mem_used_bytes, after_mem_used_bytes);
    wire::lemma_long(v.mem_total_bytes, after_mem_total_bytes);
    wire::lemma_long(v.net_rx_bps, after_net_rx_bps);
    wire::lemma_long(v.net_tx_bps, after_net_tx_bps);
    wire::lemma_long(v.sampled_age_ms, rest);
}

proof fn lemma_maybe_sample(v: Option<HostSample>, rest: Seq<u8>)
    requires
        frames::wire_maybe_sample(v, rest).len() <= usize::MAX,
    ensures
        frames::take_maybe_sample(frames::wire_maybe_sample(v, rest)) == Ok::<(Option<HostSample>, Seq<u8>), CodecError>((v, rest)),
        rest.len() < frames::wire_maybe_sample(v, rest).len(),
{
    match v {
        Some(x) => {
            wire::lemma_mark(true, frames::wire_sample(x, rest));
            lemma_sample(x, rest);
        },
        None => {
            wire::lemma_mark(false, rest);
        },
    }
}

proof fn lemma_sessions_on(had: Seq<SessionView>, v: Seq<SessionView>, i: int, rest: Seq<u8>)
    requires
        0 <= i <= v.len(),
        frames::wire_sessions_from(v, i, rest).len() <= usize::MAX,
    ensures
        frames::take_sessions_on(had, (v.len() - i) as nat, frames::wire_sessions_from(v, i, rest)) == Ok::<
            (Seq<SessionView>, Seq<u8>),
            CodecError,
        >((had + v.skip(i), rest)),
        rest.len() + v.len() - i <= frames::wire_sessions_from(v, i, rest).len(),
    decreases v.len() - i,
{
    if i < v.len() {
        let then = frames::wire_sessions_from(v, i + 1, rest);
        lemma_session(v[i], then);
        lemma_sessions_on(had.push(v[i]), v, i + 1, rest);
        assert(had.push(v[i]) + v.skip(i + 1) =~= had + v.skip(i));
    } else {
        assert(had + v.skip(i) =~= had);
    }
}

proof fn lemma_sessions(v: Seq<SessionView>, rest: Seq<u8>)
    requires
        frames::wire_sessions(v, rest).len() <= usize::MAX,
    ensures
        frames::take_sessions(frames::wire_sessions(v, rest)) == Ok::<(Seq<SessionView>, Seq<u8>), CodecError>(
            (v, rest),
        ),
        rest.len() < frames::wire_sessions(v, rest).len(),
{
    lemma_varint_len(v.len() as u64 as nat);
    lemma_sessions_on(Seq::empty(), v, 0, rest);
    wire::lemma_size(v.len() as u64, frames::wire_sessions_from(v, 0, rest));
    assert(Seq::<SessionView>::empty() + v.skip(0) =~= v);
}

proof fn lemma_blobs_on(had: Seq<Seq<u8>>, v: Seq<Seq<u8>>, i: int, rest: Seq<u8>)
    requires
        0 <= i <= v.len(),
        frames::wire_blobs_from(v, i, rest).len() <= usize::MAX,
    ensures
        frames::take_blobs_on(had, (v.len() - i) as nat, frames::wire_blobs_from(v, i, rest)) == Ok::<
            (Seq<Seq<u8>>, Seq<u8>),
            CodecError,
        >((had + v.skip(i), rest)),
        rest.len() + v.len() - i <= frames::wire_blobs_from(v, i, rest).len(),
    decreases v.len() - i,
{
    if i < v.len() {
        let then = frames::wire_blobs_from(v, i + 1, rest);
        lemma_varint_len(v[i].len());
        wire::lemma_blob(v[i], then);
        lemma_blobs_on(had.push(v[i]), v, i + 1, rest);
        assert(had.push(v[i]) + v.skip(i + 1) =~= had + v.skip(i));
    } else {
        assert(had + v.skip(i) =~= had);
    }
}

proof fn lemma_blobs(v: Seq<Seq<u8>>, rest: Seq<u8>)
    requires
        frames::wire_blobs(v, rest).len() <= usize::MAX,
    ensures
        frames::take_blobs(frames::wire_blobs(v, rest)) == Ok::<(Seq<Seq<u8>>, Seq<u8>), CodecError>(
            (v, rest),
        ),
        rest.len() < frames::wire_blobs(v, rest).len(),
{
    lemma_varint_len(v.len() as u64 as nat);
    lemma_blobs_on(Seq::empty(), v, 0, rest);
    wire::lemma_size(v.len() as u64, frames::wire_blobs_from(v, 0, rest));
    assert(Seq::<Seq<u8>>::empty() + v.skip(0) =~= v);
}

proof fn lemma_smalls_on(had: Seq<u16>, v: Seq<u16>, i: int, rest: Seq<u8>)
    requires
        0 <= i <= v.len(),
        frames::wire_smalls_from(v, i, rest).len() <= usize::MAX,
    ensures
        frames::take_smalls_on(had, (v.len() - i) as nat, frames::wire_smalls_from(v, i, rest)) == Ok::<
            (Seq<u16>, Seq<u8>),
            CodecError,
        >((had + v.skip(i), rest)),
        rest.len() + v.len() - i <= frames::wire_smalls_from(v, i, rest).len(),
    decreases v.len() - i,
{
    if i < v.len() {
        let then = frames::wire_smalls_from(v, i + 1, rest);
        lemma_varint_len(v[i] as nat);
        wire::lemma_small(v[i], then);
        lemma_smalls_on(had.push(v[i]), v, i + 1, rest);
        assert(had.push(v[i]) + v.skip(i + 1) =~= had + v.skip(i));
    } else {
        assert(had + v.skip(i) =~= had);
    }
}

proof fn lemma_smalls(v: Seq<u16>, rest: Seq<u8>)
    requires
        frames::wire_smalls(v, rest).len() <= usize::MAX,
    ensures
        frames::take_smalls(frames::wire_smalls(v, rest)) == Ok::<(Seq<u16>, Seq<u8>), CodecError>(
            (v, rest),
        ),
        rest.len() < frames::wire_smalls(v, rest).len(),
{
    lemma_varint_len(v.len() as u64 as nat);
    lemma_smalls_on(Seq::empty(), v, 0, rest);
    wire::lemma_size(v.len() as u64, frames::wire_smalls_from(v, 0, rest));
    assert(Seq::<u16>::empty() + v.skip(0) =~= v);
}

/// Law: reading a payload gives back the frame that was written and whatever
/// follows it, for every frame whose payload has a length that 64 bits can hold.
pub proof fn law_frame_roundtrip(v: FrameView, rest: Seq<u8>)
    requires
        frames::wire_frame(v, rest).len() <= usize::MAX,
    ensures
        frames::take_frame(frames::wire_frame(v, rest)) == Ok::<(FrameView, Seq<u8>), CodecError>(
            (v, rest),
        ),
{
    match v {
        FrameView::Hello { proto_version, kind } => lemma_hello(proto_version, kind, rest),
        FrameView::HelloAck { proto_version, daemon_version } => lemma_hello_ack(proto_version, daemon_version, rest),
        FrameView::ListSessions => wire::lemma_word(2, rest),
        FrameView::SessionList { sessions } => lemma_session_list(sessions, rest),
        FrameView::Create { name, cmd, cwd } => lemma_create(name, cmd, cwd, rest),
        FrameView::Created { name } => lemma_created(name, rest),
        FrameView::Kill { name } => lemma_kill(name, rest),
        FrameView::Rename { name, new_name } => lemma_rename(name, new_name, rest),
        FrameView::Attach { name, cols, rows, view_id, appearance, read_only } => lemma_attach(name, cols, rows, view_id, appearance, read_only, rest),
        FrameView::Snapshot { vt } => lemma_snapshot(vt, rest),
        FrameView::Output { bytes } => lemma_output(bytes, rest),
        FrameView::Input { bytes } => lemma_input(bytes, rest),
        FrameView::Resize { cols, rows } => lemma_resize(cols, rows, rest),
        FrameView::Detach => wire::lemma_word(13, rest),
        FrameView::FetchHistory { start, count } => lemma_fetch_history(start, count, rest),
        FrameView::History { total_rows, start, rows } => lemma_history(total_rows, start, rows, rest),
        FrameView::Refresh => wire::lemma_word(16, rest),
        FrameView::SendInput { name, bytes, enter } => lemma_send_input(name, bytes, enter, rest),
        FrameView::Ack => wire::lemma_word(18, rest),
        FrameView::Peek { name, scrollback } => lemma_peek(name, scrollback, rest),
        FrameView::PeekReply { cols, rows, cursor_col, cursor_row, title, screen } => lemma_peek_reply(cols, rows, cursor_col, cursor_row, title, screen, rest),
        FrameView::Inspect { name } => lemma_inspect(name, rest),
        FrameView::InspectReply { info, child_pid, alt_screen, scrollback_rows, mouse_tracking, mouse_modes, cursor_col, cursor_row, cursor_visible } => lemma_inspect_reply(info, child_pid, alt_screen, scrollback_rows, mouse_tracking, mouse_modes, cursor_col, cursor_row, cursor_visible, rest),
        FrameView::Follow { name } => lemma_follow(name, rest),
        FrameView::Unfollow { name } => lemma_unfollow(name, rest),
        FrameView::FollowStatus { running, state, idle_ms, exit } => lemma_follow_status(running, state, idle_ms, exit, rest),
        FrameView::ViewRevoked { name, view_id } => lemma_view_revoked(name, view_id, rest),
        FrameView::ViewRenamed { old_name, new_name, view_id } => lemma_view_renamed(old_name, new_name, view_id, rest),
        FrameView::Error { code, msg } => lemma_error(code, msg, rest),
        FrameView::HostMetrics => wire::lemma_word(29, rest),
        FrameView::HostMetricsReply { sample } => lemma_host_metrics_reply(sample, rest),
    }
}

proof fn lemma_hello(proto_version: u32, kind: ClientKind, rest: Seq<u8>)
    requires
        frames::wire_frame(FrameView::Hello { proto_version, kind }, rest).len() <= usize::MAX,
    ensures
        frames::take_frame(frames::wire_frame(FrameView::Hello { proto_version, kind }, rest)) == Ok::<
            (FrameView, Seq<u8>),
            CodecError,
        >((FrameView::Hello { proto_version, kind }, rest)),
{
    let after_proto_version = frames::wire_kind(kind, rest);
    lemma_varint_len(proto_version as nat);
    wire::lemma_word(proto_version, after_proto_version);
    lemma_kind(kind, rest);
    wire::lemma_word(0, wire::wire_word(proto_version, after_proto_version));
}

proof fn lemma_hello_ack(proto_version: u32, daemon_version: Seq<char>, rest: Seq<u8>)
    requires
        frames::wire_frame(FrameView::HelloAck { proto_version, daemon_version }, rest).len() <= usize::MAX,
    ensures
        frames::take_frame(frames::wire_frame(FrameView::HelloAck { proto_version, daemon_version }, rest)) == Ok::<
            (FrameView, Seq<u8>),
            CodecError,
        >((FrameView::HelloAck { proto_version, daemon_version }, rest)),
{
    let after_proto_version = wire::wire_text(daemon_version, rest);
    lemma_varint_len(proto_version as nat);
    lemma_varint_len(encode_utf8(daemon_version).len());
    wire::lemma_word(proto_version, after_proto_version);
    wire::lemma_text(daemon_version, rest);
    wire::lemma_word(1, wire::wire_word(proto_version, after_proto_version));
}

proof fn lemma_session_list(sessions: Seq<SessionView>, rest: Seq<u8>)
    requires
        frames::wire_frame(FrameView::SessionList { sessions }, rest).len() <= usize::MAX,
    ensures
        frames::take_frame(frames::wire_frame(FrameView::SessionList { sessions }, rest)) == Ok::<
            (FrameView, Seq<u8>),
            CodecError,
        >((FrameView::SessionList { sessions }, rest)),
{
    lemma_sessions(sessions, rest);
    wire::lemma_word(3, frames::wire_sessions(sessions, rest));
}

proof fn lemma_create(name: Option<Seq<char>>, cmd: Option<Seq<char>>, cwd: Option<Seq<char>>, rest: Seq<u8>)
    requires
        frames::wire_frame(FrameView::Create { name, cmd, cwd }, rest).len() <= usize::MAX,
    ensures
        frames::take_frame(frames::wire_frame(FrameView::Create { name, cmd, cwd }, rest)) == Ok::<
            (FrameView, Seq<u8>),
            CodecError,
        >((FrameView::Create { name, cmd, cwd }, rest)),
{
    let after_cmd = frames::wire_maybe_text(cwd, rest);
    let after_name = frames::wire_maybe_text(cmd, after_cmd);
    lemma_maybe_text(name, after_name);
    lemma_maybe_text(cmd, after_cmd);
    lemma_maybe_text(cwd, rest);
    wire::lemma_word(4, frames::wire_maybe_text(name, after_name));
}

proof fn lemma_created(name: Seq<char>, rest: Seq<u8>)
    requires
        frames::wire_frame(FrameView::Created { name }, rest).len() <= usize::MAX,
    ensures
        frames::take_frame(frames::wire_frame(FrameView::Created { name }, rest)) == Ok::<
            (FrameView, Seq<u8>),
            CodecError,
        >((FrameView::Created { name }, rest)),
{
    lemma_varint_len(encode_utf8(name).len());
    wire::lemma_text(name, rest);
    wire::lemma_word(5, wire::wire_text(name, rest));
}

proof fn lemma_kill(name: Seq<char>, rest: Seq<u8>)
    requires
        frames::wire_frame(FrameView::Kill { name }, rest).len() <= usize::MAX,
    ensures
        frames::take_frame(frames::wire_frame(FrameView::Kill { name }, rest)) == Ok::<
            (FrameView, Seq<u8>),
            CodecError,
        >((FrameView::Kill { name }, rest)),
{
    lemma_varint_len(encode_utf8(name).len());
    wire::lemma_text(name, rest);
    wire::lemma_word(6, wire::wire_text(name, rest));
}

proof fn lemma_rename(name: Seq<char>, new_name: Seq<char>, rest: Seq<u8>)
    requires
        frames::wire_frame(FrameView::Rename { name, new_name }, rest).len() <= usize::MAX,
    ensures
        frames::take_frame(frames::wire_frame(FrameView::Rename { name, new_name }, rest)) == Ok::<
            (FrameView, Seq<u8>),
            CodecError,
        >((FrameView::Rename { name, new_name }, rest)),
{
    let after_name = wire::wire_text(new_name, rest);
    lemma_varint_len(encode_utf8(name).len());
    lemma_varint_len(encode_utf8(new_name).len());
    wire::lemma_text(name, after_name);
    wire::lemma_text(new_name, rest);
    wire::lemma_word(7, wire::wire_text(name, after_name));
}

#[verifier::rlimit(40)]
proof fn lemma_attach(name: Seq<char>, cols: u16, rows: u16, view_id: u64, appearance: TerminalAppearance, read_only: bool, rest: Seq<u8>)
    requires
        frames::wire_frame(FrameView::Attach { name, cols, rows, view_id, appearance, read_only }, rest).len() <= usize::MAX,
    ensures
        frames::take_frame(frames::wire_frame(FrameView::Attach { name, cols, rows, view_id, appearance, read_only }, rest)) == Ok::<
            (FrameView, Seq<u8>),
            CodecError,
        >((FrameView::Attach { name, cols, rows, view_id, appearance, read_only }, rest)),
{
    let after_appearance = wire::wire_flag(read_only, rest);
    let after_view_id = frames::wire_appearance(appearance, after_appearance);
    let after_rows = wire::wire_long(view_id, after_view_id);
    let after_cols = wire::wire_small(rows, after_rows);
    let after_name = wire::wire_small(cols, after_cols);
    lemma_varint_len(encode_utf8(name).len());
    lemma_varint_len(cols as nat);
    lemma_varint_len(rows as nat);
    lemma_varint_len(view_id as nat);
    wire::lemma_text(name, after_name);
    wire::lemma_small(cols, after_cols);
    wire::lemma_small(rows, after_rows);
    wire::lemma_long(view_id, after_view_id);
    lemma_appearance(appearance, after_appearance);
    wire::lemma_flag(read_only, rest);
    wire::lemma_word(8, wire::wire_text(name, after_name));
}

proof fn lemma_snapshot(vt: Seq<u8>, rest: Seq<u8>)
    requires
        frames::wire_frame(FrameView::Snapshot { vt }, rest).len() <= usize::MAX,
    ensures
        frames::take_frame(frames::wire_frame(FrameView::Snapshot { vt }, rest)) == Ok::<
            (FrameView, Seq<u8>),
            CodecError,
        >((FrameView::Snapshot { vt }, rest)),
{
    lemma_varint_len(vt.len());
    wire::lemma_blob(vt, rest);
    wire::lemma_word(9, wire::wire_blob(vt, rest));
}

proof fn lemma_output(bytes: Seq<u8>, rest: Seq<u8>)
    requires
        frames::wire_frame(FrameView::Output { bytes }, rest).len() <= usize::MAX,
    ensures
        frames::take_frame(frames::wire_frame(FrameView::Output { bytes }, rest)) == Ok::<
            (FrameView, Seq<u8>),
            CodecError,
        >((FrameView::Output { bytes }, rest)),
{
    lemma_varint_len(bytes.len());
    wire::lemma_blob(bytes, rest);
    wire::lemma_word(10, wire::wire_blob(bytes, rest));
}

proof fn lemma_input(bytes: Seq<u8>, rest: Seq<u8>)
    requires
        frames::wire_frame(FrameView::Input { bytes }, rest).len() <= usize::MAX,
    ensures
        frames::take_frame(frames::wire_frame(FrameView::Input { bytes }, rest)) == Ok::<
            (FrameView, Seq<u8>),
            CodecError,
        >((FrameView::Input { bytes }, rest)),
{
    lemma_varint_len(bytes.len());
    wire::lemma_blob(bytes, rest);
    wire::lemma_word(11, wire::wire_blob(bytes, rest));
}

proof fn lemma_resize(cols: u16, rows: u16, rest: Seq<u8>)
    requires
        frames::wire_frame(FrameView::Resize { cols, rows }, rest).len() <= usize::MAX,
    ensures
        frames::take_frame(frames::wire_frame(FrameView::Resize { cols, rows }, rest)) == Ok::<
            (FrameView, Seq<u8>),
            CodecError,
        >((FrameView::Resize { cols, rows }, rest)),
{
    let after_cols = wire::wire_small(rows, rest);
    lemma_varint_len(cols as nat);
    lemma_varint_len(rows as nat);
    wire::lemma_small(cols, after_cols);
    wire::lemma_small(rows, rest);
    wire::lemma_word(12, wire::wire_small(cols, after_cols));
}

proof fn lemma_fetch_history(start: u32, count: u32, rest: Seq<u8>)
    requires
        frames::wire_frame(FrameView::FetchHistory { start, count }, rest).len() <= usize::MAX,
    ensures
        frames::take_frame(frames::wire_frame(FrameView::FetchHistory { start, count }, rest)) == Ok::<
            (FrameView, Seq<u8>),
            CodecError,
        >((FrameView::FetchHistory { start, count }, rest)),
{
    let after_start = wire::wire_word(count, rest);
    lemma_varint_len(start as nat);
    lemma_varint_len(count as nat);
    wire::lemma_word(start, after_start);
    wire::lemma_word(count, rest);
    wire::lemma_word(14, wire::wire_word(start, after_start));
}

proof fn lemma_history(total_rows: u32, start: u32, rows: Seq<Seq<u8>>, rest: Seq<u8>)
    requires
        frames::wire_frame(FrameView::History { total_rows, start, rows }, rest).len() <= usize::MAX,
    ensures
        frames::take_frame(frames::wire_frame(FrameView::History { total_rows, start, rows }, rest)) == Ok::<
            (FrameView, Seq<u8>),
            CodecError,
        >((FrameView::History { total_rows, start, rows }, rest)),
{
    let after_start = frames::wire_blobs(rows, rest);
    let after_total_rows = wire::wire_word(start, after_start);
    lemma_varint_len(total_rows as nat);
    lemma_varint_len(start as nat);
    wire::lemma_word(total_rows, after_total_rows);
    wire::lemma_word(start, after_start);
    lemma_blobs(rows, rest);
    wire::lemma_word(15, wire::wire_word(total_rows, after_total_rows));
}

proof fn lemma_send_input(name: Seq<char>, bytes: Seq<u8>, enter: bool, rest: Seq<u8>)
    requires
        frames::wire_frame(FrameView::SendInput { name, bytes, enter }, rest).len() <= usize::MAX,
    ensures
        frames::take_frame(frames::wire_frame(FrameView::SendInput { name, bytes, enter }, rest)) == Ok::<
            (FrameView, Seq<u8>),
            CodecError,
        >((FrameView::SendInput { name, bytes, enter }, rest)),
{
    let after_bytes = wire::wire_flag(enter, rest);
    let after_name = wire::wire_blob(bytes, after_bytes);
    lemma_varint_len(encode_utf8(name).len());
    lemma_varint_len(bytes.len());
    wire::lemma_text(name, after_name);
    wire::lemma_blob(bytes, after_bytes);
    wire::lemma_flag(enter, rest);
    wire::lemma_word(17, wire::wire_text(name, after_name));
}

proof fn lemma_peek(name: Seq<char>, scrollback: Scrollback, rest: Seq<u8>)
    requires
        frames::wire_frame(FrameView::Peek { name, scrollback }, rest).len() <= usize::MAX,
    ensures
        frames::take_frame(frames::wire_frame(FrameView::Peek { name, scrollback }, rest)) == Ok::<
            (FrameView, Seq<u8>),
            CodecError,
        >((FrameView::Peek { name, scrollback }, rest)),
{
    let after_name = frames::wire_scrollback(scrollback, rest);
    lemma_varint_len(encode_utf8(name).len());
    wire::lemma_text(name, after_name);
    lemma_scrollback(scrollback, rest);
    wire::lemma_word(19, wire::wire_text(name, after_name));
}

proof fn lemma_peek_reply(cols: u16, rows: u16, cursor_col: u16, cursor_row: u16, title: Seq<char>, screen: Seq<u8>, rest: Seq<u8>)
    requires
        frames::wire_frame(FrameView::PeekReply { cols, rows, cursor_col, cursor_row, title, screen }, rest).len() <= usize::MAX,
    ensures
        frames::take_frame(frames::wire_frame(FrameView::PeekReply { cols, rows, cursor_col, cursor_row, title, screen }, rest)) == Ok::<
            (FrameView, Seq<u8>),
            CodecError,
        >((FrameView::PeekReply { cols, rows, cursor_col, cursor_row, title, screen }, rest)),
{
    let after_title = wire::wire_blob(screen, rest);
    let after_cursor_row = wire::wire_text(title, after_title);
    let after_cursor_col = wire::wire_small(cursor_row, after_cursor_row);
    let after_rows = wire::wire_small(cursor_col, after_cursor_col);
    let after_cols = wire::wire_small(rows, after_rows);
    lemma_varint_len(cols as nat);
    lemma_varint_len(rows as nat);
    lemma_varint_len(cursor_col as nat);
    lemma_varint_len(cursor_row as nat);
    lemma_varint_len(encode_utf8(title).len());
    lemma_varint_len(screen.len());
    wire::lemma_small(cols, after_cols);
    wire::lemma_small(rows, after_rows);
    wire::lemma_small(cursor_col, after_cursor_col);
    wire::lemma_small(cursor_row, after_cursor_row);
    wire::lemma_text(title, after_title);
    wire::lemma_blob(screen, rest);
    wire::lemma_word(20, wire::wire_small(cols, after_cols));
}

proof fn lemma_inspect(name: Seq<char>, rest: Seq<u8>)
    requires
        frames::wire_frame(FrameView::Inspect { name }, rest).len() <= usize::MAX,
    ensures
        frames::take_frame(frames::wire_frame(FrameView::Inspect { name }, rest)) == Ok::<
            (FrameView, Seq<u8>),
            CodecError,
        >((FrameView::Inspect { name }, rest)),
{
    lemma_varint_len(encode_utf8(name).len());
    wire::lemma_text(name, rest);
    wire::lemma_word(21, wire::wire_text(name, rest));
}

proof fn lemma_inspect_reply(info: SessionView, child_pid: u32, alt_screen: bool, scrollback_rows: u32, mouse_tracking: bool, mouse_modes: Seq<u16>, cursor_col: u16, cursor_row: u16, cursor_visible: bool, rest: Seq<u8>)
    requires
        frames::wire_frame(FrameView::InspectReply { info, child_pid, alt_screen, scrollback_rows, mouse_tracking, mouse_modes, cursor_col, cursor_row, cursor_visible }, rest).len() <= usize::MAX,
    ensures
        frames::take_frame(frames::wire_frame(FrameView::InspectReply { info, child_pid, alt_screen, scrollback_rows, mouse_tracking, mouse_modes, cursor_col, cursor_row, cursor_visible }, rest)) == Ok::<
            (FrameView, Seq<u8>),
            CodecError,
        >((FrameView::InspectReply { info, child_pid, alt_screen, scrollback_rows, mouse_tracking, mouse_modes, cursor_col, cursor_row, cursor_visible }, rest)),
{
    let after_cursor_row = wire::wire_flag(cursor_visible, rest);
    let after_cursor_col = wire::wire_small(cursor_row, after_cursor_row);
    let after_mouse_modes = wire::wire_small(cursor_col, after_cursor_col);
    let after_mouse_tracking = frames::wire_smalls(mouse_modes, after_mouse_modes);
    let after_scrollback_rows = wire::wire_flag(mouse_tracking, after_mouse_tracking);
    let after_alt_screen = wire::wire_word(scrollback_rows, after_scrollback_rows);
    let after_child_pid = wire::wire_flag(alt_screen, after_alt_screen);
    let after_info = wire::wire_word(child_pid, after_child_pid);
    lemma_varint_len(child_pid as nat);
    lemma_varint_len(scrollback_rows as nat);
    lemma_varint_len(cursor_col as nat);
    lemma_varint_len(cursor_row as nat);
    lemma_session(info, after_info);
    wire::lemma_word(child_pid, after_child_pid);
    wire::lemma_flag(alt_screen, after_alt_screen);
    wire::lemma_word(scrollback_rows, after_scrollback_rows);
    wire::lemma_flag(mouse_tracking, after_mouse_tracking);
    lemma_smalls(mouse_modes, after_mouse_modes);
    wire::lemma_small(cursor_col, after_cursor_col);
    wire::lemma_small(cursor_row, after_cursor_row);
    wire::lemma_flag(cursor_visible, rest);
    wire::lemma_word(22, frames::wire_session(info, after_info));
}

proof fn lemma_follow(name: Seq<char>, rest: Seq<u8>)
    requires
        frames::wire_frame(FrameView::Follow { name }, rest).len() <= usize::MAX,
    ensures
        frames::take_frame(frames::wire_frame(FrameView::Follow { name }, rest)) == Ok::<
            (FrameView, Seq<u8>),
            CodecError,
        >((FrameView::Follow { name }, rest)),
{
    lemma_varint_len(encode_utf8(name).len());
    wire::lemma_text(name, rest);
    wire::lemma_word(23, wire::wire_text(name, rest));
}

proof fn lemma_unfollow(name: Seq<char>, rest: Seq<u8>)
    requires
        frames::wire_frame(FrameView::Unfollow { name }, rest).len() <= usize::MAX,
    ensures
        frames::take_frame(frames::wire_frame(FrameView::Unfollow { name }, rest)) == Ok::<
            (FrameView, Seq<u8>),
            CodecError,
        >((FrameView::Unfollow { name }, rest)),
{
    lemma_varint_len(encode_utf8(name).len());
    wire::lemma_text(name, rest);
    wire::lemma_word(24, wire::wire_text(name, rest));
}

proof fn lemma_follow_status(running: bool, state: AgentState, idle_ms: u64, exit: Option<ExitView>, rest: Seq<u8>)
    requires
        frames::wire_frame(FrameView::FollowStatus { running, state, idle_ms, exit }, rest).len() <= usize::MAX,
    ensures
        frames::take_frame(frames::wire_frame(FrameView::FollowStatus { running, state, idle_ms, exit }, rest)) == Ok::<
            (FrameView, Seq<u8>),
            CodecError,
        >((FrameView::FollowStatus { running, state, idle_ms, exit }, rest)),
{
    let after_idle_ms = frames::wire_maybe_exit(exit, rest);
    let after_state = wire::wire_long(idle_ms, after_idle_ms);
    let after_running = frames::wire_state(state, after_state);
    lemma_varint_len(idle_ms as nat);
    wire::lemma_flag(running, after_running);
    lemma_state(state, after_state);
    wire::lemma_long(idle_ms, after_idle_ms);
    lemma_maybe_exit(exit, rest);
    wire::lemma_word(25, wire::wire_flag(running, after_running));
}

proof fn lemma_view_revoked(name: Seq<char>, view_id: u64, rest: Seq<u8>)
    requires
        frames::wire_frame(FrameView::ViewRevoked { name, view_id }, rest).len() <= usize::MAX,
    ensures
        frames::take_frame(frames::wire_frame(FrameView::ViewRevoked { name, view_id }, rest)) == Ok::<
            (FrameView, Seq<u8>),
            CodecError,
        >((FrameView::ViewRevoked { name, view_id }, rest)),
{
    let after_name = wire::wire_long(view_id, rest);
    lemma_varint_len(encode_utf8(name).len());
    lemma_varint_len(view_id as nat);
    wire::lemma_text(name, after_name);
    wire::lemma_long(view_id, rest);
    wire::lemma_word(26, wire::wire_text(name, after_name));
}

proof fn lemma_view_renamed(old_name: Seq<char>, new_name: Seq<char>, view_id: u64, rest: Seq<u8>)
    requires
        frames::wire_frame(FrameView::ViewRenamed { old_name, new_name, view_id }, rest).len() <= usize::MAX,
    ensures
        frames::take_frame(frames::wire_frame(FrameView::ViewRenamed { old_name, new_name, view_id }, rest)) == Ok::<
            (FrameView, Seq<u8>),
            CodecError,
        >((FrameView::ViewRenamed { old_name, new_name, view_id }, rest)),
{
    let after_new_name = wire::wire_long(view_id, rest);
    let after_old_name = wire::wire_text(new_name, after_new_name);
    lemma_varint_len(encode_utf8(old_name).len());
    lemma_varint_len(encode_utf8(new_name).len());
    lemma_varint_len(view_id as nat);
    wire::lemma_text(old_name, after_old_name);
    wire::lemma_text(new_name, after_new_name);
    wire::lemma_long(view_id, rest);
    wire::lemma_word(27, wire::wire_text(old_name, after_old_name));
}

proof fn lemma_error(code: u32, msg: Seq<char>, rest: Seq<u8>)
    requires
        frames::wire_frame(FrameView::Error { code, msg }, rest).len() <= usize::MAX,
    ensures
        frames::take_frame(frames::wire_frame(FrameView::Error { code, msg }, rest)) == Ok::<
            (FrameView, Seq<u8>),
            CodecError,
        >((FrameView::Error { code, msg }, rest)),
{
    let after_code = wire::wire_text(msg, rest);
    lemma_varint_len(code as nat);
    lemma_varint_len(encode_utf8(msg).len());
    wire::lemma_word(code, after_code);
    wire::lemma_text(msg, rest);
    wire::lemma_word(28, wire::wire_word(code, after_code));
}

proof fn lemma_host_metrics_reply(sample: Option<HostSample>, rest: Seq<u8>)
    requires
        frames::wire_frame(FrameView::HostMetricsReply { sample }, rest).len() <= usize::MAX,
    ensures
        frames::take_frame(frames::wire_frame(FrameView::HostMetricsReply { sample }, rest)) == Ok::<
            (FrameView, Seq<u8>),
            CodecError,
        >((FrameView::HostMetricsReply { sample }, rest)),
{
    lemma_maybe_sample(sample, rest);
    wire::lemma_word(30, frames::wire_maybe_sample(sample, rest));
}

} // verus!
