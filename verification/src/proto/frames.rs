//! Frames as payloads.
//!
//! A frame is its place in the list of frames and then its fields in order; a
//! list is its length and its items; an optional value is a mark and the value.
//! What is written is stated with what follows it: reading gives back the value
//! and what follows.
use crate::proto::wire;
use crate::proto::wire::{
    put_blob, put_byte, put_flag, put_long, put_small, put_text, put_word, CodecError, Cursor, Taken,
};
use crate::proto::{
    AgentState, ClientKind, Frame, HostSample, Scrollback, SessionExit, SessionInfo,
    TerminalAppearance, TerminalColor,
};
use vstd::prelude::*;
use vstd::string::*;
use vstd::utf8::*;

verus! {

/// A session's metadata, by view.
pub struct SessionView {
    pub name: Seq<char>,
    pub command: Seq<char>,
    pub title: Seq<char>,
    pub created_ms: u64,
    pub idle_ms: u64,
    pub running: bool,
    pub state: AgentState,
    pub attached_clients: u32,
    pub pid: u32,
    pub cols: u16,
    pub rows: u16,
}

/// How a session's child ended, by view.
pub struct ExitView {
    pub code: u32,
    pub signal: Option<Seq<char>>,
}

/// A frame, by view.
#[allow(inconsistent_fields)]
pub enum FrameView {
    Hello { proto_version: u32, kind: ClientKind },
    HelloAck { proto_version: u32, daemon_version: Seq<char> },
    ListSessions,
    SessionList { sessions: Seq<SessionView> },
    Create { name: Option<Seq<char>>, cmd: Option<Seq<char>>, cwd: Option<Seq<char>> },
    Created { name: Seq<char> },
    Kill { name: Seq<char> },
    Rename { name: Seq<char>, new_name: Seq<char> },
    Attach { name: Seq<char>, cols: u16, rows: u16, view_id: u64, appearance: TerminalAppearance, read_only: bool },
    Snapshot { vt: Seq<u8> },
    Output { bytes: Seq<u8> },
    Input { bytes: Seq<u8> },
    Resize { cols: u16, rows: u16 },
    Detach,
    FetchHistory { start: u32, count: u32 },
    History { total_rows: u32, start: u32, rows: Seq<Seq<u8>> },
    Refresh,
    SendInput { name: Seq<char>, bytes: Seq<u8>, enter: bool },
    Ack,
    Peek { name: Seq<char>, scrollback: Scrollback },
    PeekReply { cols: u16, rows: u16, cursor_col: u16, cursor_row: u16, title: Seq<char>, screen: Seq<u8> },
    Inspect { name: Seq<char> },
    InspectReply { info: SessionView, child_pid: u32, alt_screen: bool, scrollback_rows: u32, mouse_tracking: bool, mouse_modes: Seq<u16>, cursor_col: u16, cursor_row: u16, cursor_visible: bool },
    Follow { name: Seq<char> },
    Unfollow { name: Seq<char> },
    FollowStatus { running: bool, state: AgentState, idle_ms: u64, exit: Option<ExitView> },
    ViewRevoked { name: Seq<char>, view_id: u64 },
    ViewRenamed { old_name: Seq<char>, new_name: Seq<char>, view_id: u64 },
    Error { code: u32, msg: Seq<char> },
    HostMetrics,
    HostMetricsReply { sample: Option<HostSample> },
}

/// An optional text, by view.
pub open spec fn maybe_view(s: Option<String>) -> Option<Seq<char>> {
    match s {
        Some(v) => Some(v@),
        None => None,
    }
}

/// A session's metadata, by view.
pub open spec fn session_view(s: SessionInfo) -> SessionView {
    SessionView {
        name: s.name@,
        command: s.command@,
        title: s.title@,
        created_ms: s.created_ms,
        idle_ms: s.idle_ms,
        running: s.running,
        state: s.state,
        attached_clients: s.attached_clients,
        pid: s.pid,
        cols: s.cols,
        rows: s.rows,
    }
}

/// Sessions, by view.
pub open spec fn sessions_view(v: Seq<SessionInfo>) -> Seq<SessionView> {
    v.map_values(|s: SessionInfo| session_view(s))
}

/// How a session's child ended, by view.
pub open spec fn exit_view(e: SessionExit) -> ExitView {
    ExitView { code: e.code, signal: maybe_view(e.signal) }
}

/// How a session's child ended, where it has, by view.
pub open spec fn maybe_exit_view(e: Option<SessionExit>) -> Option<ExitView> {
    match e {
        Some(x) => Some(exit_view(x)),
        None => None,
    }
}

/// Rows of bytes, by view.
pub open spec fn blobs_view(v: Seq<Vec<u8>>) -> Seq<Seq<u8>> {
    v.map_values(|b: Vec<u8>| b@)
}

/// A frame, by view.
pub open spec fn frame_view(f: Frame) -> FrameView {
    match f {
        Frame::Hello { proto_version, kind } => FrameView::Hello {
            proto_version,
            kind,
        },
        Frame::HelloAck { proto_version, daemon_version } => FrameView::HelloAck {
            proto_version,
            daemon_version: daemon_version@,
        },
        Frame::ListSessions => FrameView::ListSessions,
        Frame::SessionList { sessions } => FrameView::SessionList {
            sessions: sessions_view(sessions@),
        },
        Frame::Create { name, cmd, cwd } => FrameView::Create {
            name: maybe_view(name),
            cmd: maybe_view(cmd),
            cwd: maybe_view(cwd),
        },
        Frame::Created { name } => FrameView::Created {
            name: name@,
        },
        Frame::Kill { name } => FrameView::Kill {
            name: name@,
        },
        Frame::Rename { name, new_name } => FrameView::Rename {
            name: name@,
            new_name: new_name@,
        },
        Frame::Attach { name, cols, rows, view_id, appearance, read_only } => FrameView::Attach {
            name: name@,
            cols,
            rows,
            view_id,
            appearance,
            read_only,
        },
        Frame::Snapshot { vt } => FrameView::Snapshot {
            vt: vt@,
        },
        Frame::Output { bytes } => FrameView::Output {
            bytes: bytes@,
        },
        Frame::Input { bytes } => FrameView::Input {
            bytes: bytes@,
        },
        Frame::Resize { cols, rows } => FrameView::Resize {
            cols,
            rows,
        },
        Frame::Detach => FrameView::Detach,
        Frame::FetchHistory { start, count } => FrameView::FetchHistory {
            start,
            count,
        },
        Frame::History { total_rows, start, rows } => FrameView::History {
            total_rows,
            start,
            rows: blobs_view(rows@),
        },
        Frame::Refresh => FrameView::Refresh,
        Frame::SendInput { name, bytes, enter } => FrameView::SendInput {
            name: name@,
            bytes: bytes@,
            enter,
        },
        Frame::Ack => FrameView::Ack,
        Frame::Peek { name, scrollback } => FrameView::Peek {
            name: name@,
            scrollback,
        },
        Frame::PeekReply { cols, rows, cursor_col, cursor_row, title, screen } => FrameView::PeekReply {
            cols,
            rows,
            cursor_col,
            cursor_row,
            title: title@,
            screen: screen@,
        },
        Frame::Inspect { name } => FrameView::Inspect {
            name: name@,
        },
        Frame::InspectReply { info, child_pid, alt_screen, scrollback_rows, mouse_tracking, mouse_modes, cursor_col, cursor_row, cursor_visible } => FrameView::InspectReply {
            info: session_view(info),
            child_pid,
            alt_screen,
            scrollback_rows,
            mouse_tracking,
            mouse_modes: mouse_modes@,
            cursor_col,
            cursor_row,
            cursor_visible,
        },
        Frame::Follow { name } => FrameView::Follow {
            name: name@,
        },
        Frame::Unfollow { name } => FrameView::Unfollow {
            name: name@,
        },
        Frame::FollowStatus { running, state, idle_ms, exit } => FrameView::FollowStatus {
            running,
            state,
            idle_ms,
            exit: maybe_exit_view(exit),
        },
        Frame::ViewRevoked { name, view_id } => FrameView::ViewRevoked {
            name: name@,
            view_id,
        },
        Frame::ViewRenamed { old_name, new_name, view_id } => FrameView::ViewRenamed {
            old_name: old_name@,
            new_name: new_name@,
            view_id,
        },
        Frame::Error { code, msg } => FrameView::Error {
            code,
            msg: msg@,
        },
        Frame::HostMetrics => FrameView::HostMetrics,
        Frame::HostMetricsReply { sample } => FrameView::HostMetricsReply {
            sample,
        },
    }
}

/// The place of a state in its list.
pub open spec fn state_place(v: AgentState) -> u32 {
    match v {
        AgentState::Working => 0,
        AgentState::Blocked => 1,
        AgentState::Idle => 2,
        AgentState::Unknown => 3,
    }
}

/// A state, then `rest`.
pub open spec fn wire_state(v: AgentState, rest: Seq<u8>) -> Seq<u8> {
    wire::wire_word(state_place(v), rest)
}

/// A state read.
pub open spec fn take_state(b: Seq<u8>) -> Taken<AgentState> {
    match wire::take_word(b) {
        Ok((i, rest)) => if i == 0 {
            Ok((AgentState::Working, rest))
        } else if i == 1 {
            Ok((AgentState::Blocked, rest))
        } else if i == 2 {
            Ok((AgentState::Idle, rest))
        } else if i == 3 {
            Ok((AgentState::Unknown, rest))
        } else {
            Err(CodecError::UnknownVariant)
        },
        Err(e) => Err(e),
    }
}

/// The place of a client kind in its list.
pub open spec fn kind_place(v: ClientKind) -> u32 {
    match v {
        ClientKind::Gui => 0,
        ClientKind::Cli => 1,
        ClientKind::Proxy => 2,
        ClientKind::Tui => 3,
    }
}

/// A client kind, then `rest`.
pub open spec fn wire_kind(v: ClientKind, rest: Seq<u8>) -> Seq<u8> {
    wire::wire_word(kind_place(v), rest)
}

/// A client kind read.
pub open spec fn take_kind(b: Seq<u8>) -> Taken<ClientKind> {
    match wire::take_word(b) {
        Ok((i, rest)) => if i == 0 {
            Ok((ClientKind::Gui, rest))
        } else if i == 1 {
            Ok((ClientKind::Cli, rest))
        } else if i == 2 {
            Ok((ClientKind::Proxy, rest))
        } else if i == 3 {
            Ok((ClientKind::Tui, rest))
        } else {
            Err(CodecError::UnknownVariant)
        },
        Err(e) => Err(e),
    }
}

/// How much history to show, then `rest`.
pub open spec fn wire_scrollback(v: Scrollback, rest: Seq<u8>) -> Seq<u8> {
    match v {
        Scrollback::ScreenOnly => wire::wire_word(0, rest),
        Scrollback::All => wire::wire_word(1, rest),
        Scrollback::Lines(n) => wire::wire_word(2, wire::wire_word(n, rest)),
    }
}

/// How much history to show, read.
pub open spec fn take_scrollback(b: Seq<u8>) -> Taken<Scrollback> {
    match wire::take_word(b) {
        Ok((i, b)) => if i == 0 {
            Ok((Scrollback::ScreenOnly, b))
        } else if i == 1 {
            Ok((Scrollback::All, b))
        } else if i == 2 {
            match wire::take_word(b) {
                Ok((n, b)) => Ok((Scrollback::Lines(n), b)),
                Err(e) => Err(e),
            }
        } else {
            Err(CodecError::UnknownVariant)
        },
        Err(e) => Err(e),
    }
}

/// A text, where there is one, then `rest`.
pub open spec fn wire_maybe_text(v: Option<Seq<char>>, rest: Seq<u8>) -> Seq<u8> {
    match v {
        Some(x) => wire::wire_flag(true, wire::wire_text(x, rest)),
        None => wire::wire_flag(false, rest),
    }
}

/// A text, where there is one, read.
pub open spec fn take_maybe_text(b: Seq<u8>) -> Taken<Option<Seq<char>>> {
    match wire::take_mark(b) {
        Ok((some, b)) => if some {
            match wire::take_text(b) {
                Ok((x, b)) => Ok((Some(x), b)),
                Err(e) => Err(e),
            }
        } else {
            Ok((None, b))
        },
        Err(e) => Err(e),
    }
}

/// A session's metadata, then `rest`.
#[verifier::opaque]
pub open spec fn wire_session(v: SessionView, rest: Seq<u8>) -> Seq<u8> {
    wire::wire_text(v.name, wire::wire_text(v.command, wire::wire_text(v.title, wire::wire_long(v.created_ms, wire::wire_long(v.idle_ms, wire::wire_flag(v.running, wire_state(v.state, wire::wire_word(v.attached_clients, wire::wire_word(v.pid, wire::wire_small(v.cols, wire::wire_small(v.rows, rest)))))))))))
}

/// A session's metadata, read.
#[verifier::opaque]
pub open spec fn take_session(w: Seq<u8>) -> Taken<SessionView> {
    match wire::take_text(w) {
        Ok((name, w)) => match wire::take_text(w) {
            Ok((command, w)) => match wire::take_text(w) {
                Ok((title, w)) => match wire::take_long(w) {
                    Ok((created_ms, w)) => match wire::take_long(w) {
                        Ok((idle_ms, w)) => match wire::take_flag(w) {
                            Ok((running, w)) => match take_state(w) {
                                Ok((state, w)) => match wire::take_word(w) {
                                    Ok((attached_clients, w)) => match wire::take_word(w) {
                                        Ok((pid, w)) => match wire::take_small(w) {
                                            Ok((cols, w)) => match wire::take_small(w) {
                                                Ok((rows, w)) => Ok((SessionView { name, command, title, created_ms, idle_ms, running, state, attached_clients, pid, cols, rows }, w)),
                                                Err(e) => Err(e),
                                            },
                                            Err(e) => Err(e),
                                        },
                                        Err(e) => Err(e),
                                    },
                                    Err(e) => Err(e),
                                },
                                Err(e) => Err(e),
                            },
                            Err(e) => Err(e),
                        },
                        Err(e) => Err(e),
                    },
                    Err(e) => Err(e),
                },
                Err(e) => Err(e),
            },
            Err(e) => Err(e),
        },
        Err(e) => Err(e),
    }
}

/// A color, then `rest`.
pub open spec fn wire_color(v: TerminalColor, rest: Seq<u8>) -> Seq<u8> {
    wire::wire_byte(v.r, wire::wire_byte(v.g, wire::wire_byte(v.b, rest)))
}

/// A color, read.
pub open spec fn take_color(w: Seq<u8>) -> Taken<TerminalColor> {
    match wire::take_byte(w) {
        Ok((r, w)) => match wire::take_byte(w) {
            Ok((g, w)) => match wire::take_byte(w) {
                Ok((b, w)) => Ok((TerminalColor { r, g, b }, w)),
                Err(e) => Err(e),
            },
            Err(e) => Err(e),
        },
        Err(e) => Err(e),
    }
}

/// A color, where there is one, then `rest`.
pub open spec fn wire_maybe_color(v: Option<TerminalColor>, rest: Seq<u8>) -> Seq<u8> {
    match v {
        Some(x) => wire::wire_flag(true, wire_color(x, rest)),
        None => wire::wire_flag(false, rest),
    }
}

/// A color, where there is one, read.
pub open spec fn take_maybe_color(b: Seq<u8>) -> Taken<Option<TerminalColor>> {
    match wire::take_mark(b) {
        Ok((some, b)) => if some {
            match take_color(b) {
                Ok((x, b)) => Ok((Some(x), b)),
                Err(e) => Err(e),
            }
        } else {
            Ok((None, b))
        },
        Err(e) => Err(e),
    }
}

/// A terminal's colors, then `rest`.
pub open spec fn wire_appearance(v: TerminalAppearance, rest: Seq<u8>) -> Seq<u8> {
    wire_maybe_color(v.foreground, wire_maybe_color(v.background, rest))
}

/// A terminal's colors, read.
pub open spec fn take_appearance(w: Seq<u8>) -> Taken<TerminalAppearance> {
    match take_maybe_color(w) {
        Ok((foreground, w)) => match take_maybe_color(w) {
            Ok((background, w)) => Ok((TerminalAppearance { foreground, background }, w)),
            Err(e) => Err(e),
        },
        Err(e) => Err(e),
    }
}

/// How a session's child ended, then `rest`.
pub open spec fn wire_exit(v: ExitView, rest: Seq<u8>) -> Seq<u8> {
    wire::wire_word(v.code, wire_maybe_text(v.signal, rest))
}

/// How a session's child ended, read.
pub open spec fn take_exit(w: Seq<u8>) -> Taken<ExitView> {
    match wire::take_word(w) {
        Ok((code, w)) => match take_maybe_text(w) {
            Ok((signal, w)) => Ok((ExitView { code, signal }, w)),
            Err(e) => Err(e),
        },
        Err(e) => Err(e),
    }
}

/// How a session's child ended, where there is one, then `rest`.
pub open spec fn wire_maybe_exit(v: Option<ExitView>, rest: Seq<u8>) -> Seq<u8> {
    match v {
        Some(x) => wire::wire_flag(true, wire_exit(x, rest)),
        None => wire::wire_flag(false, rest),
    }
}

/// How a session's child ended, where there is one, read.
pub open spec fn take_maybe_exit(b: Seq<u8>) -> Taken<Option<ExitView>> {
    match wire::take_mark(b) {
        Ok((some, b)) => if some {
            match take_exit(b) {
                Ok((x, b)) => Ok((Some(x), b)),
                Err(e) => Err(e),
            }
        } else {
            Ok((None, b))
        },
        Err(e) => Err(e),
    }
}

/// A reading of the host's load, then `rest`.
pub open spec fn wire_sample(v: HostSample, rest: Seq<u8>) -> Seq<u8> {
    wire::wire_byte(v.cpu_pct, wire::wire_long(v.mem_used_bytes, wire::wire_long(v.mem_total_bytes, wire::wire_long(v.net_rx_bps, wire::wire_long(v.net_tx_bps, wire::wire_long(v.sampled_age_ms, rest))))))
}

/// A reading of the host's load, read.
pub open spec fn take_sample(w: Seq<u8>) -> Taken<HostSample> {
    match wire::take_byte(w) {
        Ok((cpu_pct, w)) => match wire::take_long(w) {
            Ok((mem_used_bytes, w)) => match wire::take_long(w) {
                Ok((mem_total_bytes, w)) => match wire::take_long(w) {
                    Ok((net_rx_bps, w)) => match wire::take_long(w) {
                        Ok((net_tx_bps, w)) => match wire::take_long(w) {
                            Ok((sampled_age_ms, w)) => Ok((HostSample { cpu_pct, mem_used_bytes, mem_total_bytes, net_rx_bps, net_tx_bps, sampled_age_ms }, w)),
                            Err(e) => Err(e),
                        },
                        Err(e) => Err(e),
                    },
                    Err(e) => Err(e),
                },
                Err(e) => Err(e),
            },
            Err(e) => Err(e),
        },
        Err(e) => Err(e),
    }
}

/// A reading of the host's load, where there is one, then `rest`.
pub open spec fn wire_maybe_sample(v: Option<HostSample>, rest: Seq<u8>) -> Seq<u8> {
    match v {
        Some(x) => wire::wire_flag(true, wire_sample(x, rest)),
        None => wire::wire_flag(false, rest),
    }
}

/// A reading of the host's load, where there is one, read.
pub open spec fn take_maybe_sample(b: Seq<u8>) -> Taken<Option<HostSample>> {
    match wire::take_mark(b) {
        Ok((some, b)) => if some {
            match take_sample(b) {
                Ok((x, b)) => Ok((Some(x), b)),
                Err(e) => Err(e),
            }
        } else {
            Ok((None, b))
        },
        Err(e) => Err(e),
    }
}

/// Sessions from the `i`th on, then `rest`.
pub open spec fn wire_sessions_from(v: Seq<SessionView>, i: int, rest: Seq<u8>) -> Seq<u8>
    decreases v.len() - i,
{
    if i < 0 || i >= v.len() {
        rest
    } else {
        wire_session(v[i], wire_sessions_from(v, i + 1, rest))
    }
}

/// Sessions, then `rest`.
pub open spec fn wire_sessions(v: Seq<SessionView>, rest: Seq<u8>) -> Seq<u8> {
    wire::wire_long(v.len() as u64, wire_sessions_from(v, 0, rest))
}

/// So many sessions read, behind those in `had`.
pub open spec fn take_sessions_on(had: Seq<SessionView>, n: nat, b: Seq<u8>) -> Taken<Seq<SessionView>>
    decreases n,
{
    if n == 0 {
        Ok((had, b))
    } else {
        match take_session(b) {
            Ok((x, b)) => take_sessions_on(had.push(x), (n - 1) as nat, b),
            Err(e) => Err(e),
        }
    }
}

/// Sessions read.
pub open spec fn take_sessions(b: Seq<u8>) -> Taken<Seq<SessionView>> {
    match wire::take_size(b) {
        Ok((n, b)) => take_sessions_on(Seq::empty(), n as nat, b),
        Err(e) => Err(e),
    }
}

/// Rows of bytes from the `i`th on, then `rest`.
pub open spec fn wire_blobs_from(v: Seq<Seq<u8>>, i: int, rest: Seq<u8>) -> Seq<u8>
    decreases v.len() - i,
{
    if i < 0 || i >= v.len() {
        rest
    } else {
        wire::wire_blob(v[i], wire_blobs_from(v, i + 1, rest))
    }
}

/// Rows of bytes, then `rest`.
pub open spec fn wire_blobs(v: Seq<Seq<u8>>, rest: Seq<u8>) -> Seq<u8> {
    wire::wire_long(v.len() as u64, wire_blobs_from(v, 0, rest))
}

/// So many rows of bytes read, behind those in `had`.
pub open spec fn take_blobs_on(had: Seq<Seq<u8>>, n: nat, b: Seq<u8>) -> Taken<Seq<Seq<u8>>>
    decreases n,
{
    if n == 0 {
        Ok((had, b))
    } else {
        match wire::take_blob(b) {
            Ok((x, b)) => take_blobs_on(had.push(x), (n - 1) as nat, b),
            Err(e) => Err(e),
        }
    }
}

/// Rows of bytes read.
pub open spec fn take_blobs(b: Seq<u8>) -> Taken<Seq<Seq<u8>>> {
    match wire::take_size(b) {
        Ok((n, b)) => take_blobs_on(Seq::empty(), n as nat, b),
        Err(e) => Err(e),
    }
}

/// 16-bit numbers from the `i`th on, then `rest`.
pub open spec fn wire_smalls_from(v: Seq<u16>, i: int, rest: Seq<u8>) -> Seq<u8>
    decreases v.len() - i,
{
    if i < 0 || i >= v.len() {
        rest
    } else {
        wire::wire_small(v[i], wire_smalls_from(v, i + 1, rest))
    }
}

/// 16-bit numbers, then `rest`.
pub open spec fn wire_smalls(v: Seq<u16>, rest: Seq<u8>) -> Seq<u8> {
    wire::wire_long(v.len() as u64, wire_smalls_from(v, 0, rest))
}

/// So many 16-bit numbers read, behind those in `had`.
pub open spec fn take_smalls_on(had: Seq<u16>, n: nat, b: Seq<u8>) -> Taken<Seq<u16>>
    decreases n,
{
    if n == 0 {
        Ok((had, b))
    } else {
        match wire::take_small(b) {
            Ok((x, b)) => take_smalls_on(had.push(x), (n - 1) as nat, b),
            Err(e) => Err(e),
        }
    }
}

/// 16-bit numbers read.
pub open spec fn take_smalls(b: Seq<u8>) -> Taken<Seq<u16>> {
    match wire::take_size(b) {
        Ok((n, b)) => take_smalls_on(Seq::empty(), n as nat, b),
        Err(e) => Err(e),
    }
}

/// A frame, then `rest`.
pub open spec fn wire_frame(v: FrameView, rest: Seq<u8>) -> Seq<u8> {
    match v {
        FrameView::Hello { proto_version, kind } => wire::wire_word(0, wire::wire_word(proto_version, wire_kind(kind, rest))),
        FrameView::HelloAck { proto_version, daemon_version } => wire::wire_word(1, wire::wire_word(proto_version, wire::wire_text(daemon_version, rest))),
        FrameView::ListSessions => wire::wire_word(2, rest),
        FrameView::SessionList { sessions } => wire::wire_word(3, wire_sessions(sessions, rest)),
        FrameView::Create { name, cmd, cwd } => wire::wire_word(4, wire_maybe_text(name, wire_maybe_text(cmd, wire_maybe_text(cwd, rest)))),
        FrameView::Created { name } => wire::wire_word(5, wire::wire_text(name, rest)),
        FrameView::Kill { name } => wire::wire_word(6, wire::wire_text(name, rest)),
        FrameView::Rename { name, new_name } => wire::wire_word(7, wire::wire_text(name, wire::wire_text(new_name, rest))),
        FrameView::Attach { name, cols, rows, view_id, appearance, read_only } => wire::wire_word(8, wire::wire_text(name, wire::wire_small(cols, wire::wire_small(rows, wire::wire_long(view_id, wire_appearance(appearance, wire::wire_flag(read_only, rest))))))),
        FrameView::Snapshot { vt } => wire::wire_word(9, wire::wire_blob(vt, rest)),
        FrameView::Output { bytes } => wire::wire_word(10, wire::wire_blob(bytes, rest)),
        FrameView::Input { bytes } => wire::wire_word(11, wire::wire_blob(bytes, rest)),
        FrameView::Resize { cols, rows } => wire::wire_word(12, wire::wire_small(cols, wire::wire_small(rows, rest))),
        FrameView::Detach => wire::wire_word(13, rest),
        FrameView::FetchHistory { start, count } => wire::wire_word(14, wire::wire_word(start, wire::wire_word(count, rest))),
        FrameView::History { total_rows, start, rows } => wire::wire_word(15, wire::wire_word(total_rows, wire::wire_word(start, wire_blobs(rows, rest)))),
        FrameView::Refresh => wire::wire_word(16, rest),
        FrameView::SendInput { name, bytes, enter } => wire::wire_word(17, wire::wire_text(name, wire::wire_blob(bytes, wire::wire_flag(enter, rest)))),
        FrameView::Ack => wire::wire_word(18, rest),
        FrameView::Peek { name, scrollback } => wire::wire_word(19, wire::wire_text(name, wire_scrollback(scrollback, rest))),
        FrameView::PeekReply { cols, rows, cursor_col, cursor_row, title, screen } => wire::wire_word(20, wire::wire_small(cols, wire::wire_small(rows, wire::wire_small(cursor_col, wire::wire_small(cursor_row, wire::wire_text(title, wire::wire_blob(screen, rest))))))),
        FrameView::Inspect { name } => wire::wire_word(21, wire::wire_text(name, rest)),
        FrameView::InspectReply { info, child_pid, alt_screen, scrollback_rows, mouse_tracking, mouse_modes, cursor_col, cursor_row, cursor_visible } => wire::wire_word(22, wire_session(info, wire::wire_word(child_pid, wire::wire_flag(alt_screen, wire::wire_word(scrollback_rows, wire::wire_flag(mouse_tracking, wire_smalls(mouse_modes, wire::wire_small(cursor_col, wire::wire_small(cursor_row, wire::wire_flag(cursor_visible, rest)))))))))),
        FrameView::Follow { name } => wire::wire_word(23, wire::wire_text(name, rest)),
        FrameView::Unfollow { name } => wire::wire_word(24, wire::wire_text(name, rest)),
        FrameView::FollowStatus { running, state, idle_ms, exit } => wire::wire_word(25, wire::wire_flag(running, wire_state(state, wire::wire_long(idle_ms, wire_maybe_exit(exit, rest))))),
        FrameView::ViewRevoked { name, view_id } => wire::wire_word(26, wire::wire_text(name, wire::wire_long(view_id, rest))),
        FrameView::ViewRenamed { old_name, new_name, view_id } => wire::wire_word(27, wire::wire_text(old_name, wire::wire_text(new_name, wire::wire_long(view_id, rest)))),
        FrameView::Error { code, msg } => wire::wire_word(28, wire::wire_word(code, wire::wire_text(msg, rest))),
        FrameView::HostMetrics => wire::wire_word(29, rest),
        FrameView::HostMetricsReply { sample } => wire::wire_word(30, wire_maybe_sample(sample, rest)),
    }
}

/// The fields of `Hello` read.
pub open spec fn take_hello_frame(w: Seq<u8>) -> Taken<FrameView> {
    match wire::take_word(w) {
        Ok((proto_version, w)) => match take_kind(w) {
            Ok((kind, w)) => Ok((FrameView::Hello { proto_version, kind }, w)),
            Err(e) => Err(e),
        },
        Err(e) => Err(e),
    }
}

/// The fields of `HelloAck` read.
pub open spec fn take_hello_ack_frame(w: Seq<u8>) -> Taken<FrameView> {
    match wire::take_word(w) {
        Ok((proto_version, w)) => match wire::take_text(w) {
            Ok((daemon_version, w)) => Ok((FrameView::HelloAck { proto_version, daemon_version }, w)),
            Err(e) => Err(e),
        },
        Err(e) => Err(e),
    }
}

/// The fields of `SessionList` read.
pub open spec fn take_session_list_frame(w: Seq<u8>) -> Taken<FrameView> {
    match take_sessions(w) {
        Ok((sessions, w)) => Ok((FrameView::SessionList { sessions }, w)),
        Err(e) => Err(e),
    }
}

/// The fields of `Create` read.
pub open spec fn take_create_frame(w: Seq<u8>) -> Taken<FrameView> {
    match take_maybe_text(w) {
        Ok((name, w)) => match take_maybe_text(w) {
            Ok((cmd, w)) => match take_maybe_text(w) {
                Ok((cwd, w)) => Ok((FrameView::Create { name, cmd, cwd }, w)),
                Err(e) => Err(e),
            },
            Err(e) => Err(e),
        },
        Err(e) => Err(e),
    }
}

/// The fields of `Created` read.
pub open spec fn take_created_frame(w: Seq<u8>) -> Taken<FrameView> {
    match wire::take_text(w) {
        Ok((name, w)) => Ok((FrameView::Created { name }, w)),
        Err(e) => Err(e),
    }
}

/// The fields of `Kill` read.
pub open spec fn take_kill_frame(w: Seq<u8>) -> Taken<FrameView> {
    match wire::take_text(w) {
        Ok((name, w)) => Ok((FrameView::Kill { name }, w)),
        Err(e) => Err(e),
    }
}

/// The fields of `Rename` read.
pub open spec fn take_rename_frame(w: Seq<u8>) -> Taken<FrameView> {
    match wire::take_text(w) {
        Ok((name, w)) => match wire::take_text(w) {
            Ok((new_name, w)) => Ok((FrameView::Rename { name, new_name }, w)),
            Err(e) => Err(e),
        },
        Err(e) => Err(e),
    }
}

/// The fields of `Attach` read.
pub open spec fn take_attach_frame(w: Seq<u8>) -> Taken<FrameView> {
    match wire::take_text(w) {
        Ok((name, w)) => match wire::take_small(w) {
            Ok((cols, w)) => match wire::take_small(w) {
                Ok((rows, w)) => match wire::take_long(w) {
                    Ok((view_id, w)) => match take_appearance(w) {
                        Ok((appearance, w)) => match wire::take_flag(w) {
                            Ok((read_only, w)) => Ok((FrameView::Attach { name, cols, rows, view_id, appearance, read_only }, w)),
                            Err(e) => Err(e),
                        },
                        Err(e) => Err(e),
                    },
                    Err(e) => Err(e),
                },
                Err(e) => Err(e),
            },
            Err(e) => Err(e),
        },
        Err(e) => Err(e),
    }
}

/// The fields of `Snapshot` read.
pub open spec fn take_snapshot_frame(w: Seq<u8>) -> Taken<FrameView> {
    match wire::take_blob(w) {
        Ok((vt, w)) => Ok((FrameView::Snapshot { vt }, w)),
        Err(e) => Err(e),
    }
}

/// The fields of `Output` read.
pub open spec fn take_output_frame(w: Seq<u8>) -> Taken<FrameView> {
    match wire::take_blob(w) {
        Ok((bytes, w)) => Ok((FrameView::Output { bytes }, w)),
        Err(e) => Err(e),
    }
}

/// The fields of `Input` read.
pub open spec fn take_input_frame(w: Seq<u8>) -> Taken<FrameView> {
    match wire::take_blob(w) {
        Ok((bytes, w)) => Ok((FrameView::Input { bytes }, w)),
        Err(e) => Err(e),
    }
}

/// The fields of `Resize` read.
pub open spec fn take_resize_frame(w: Seq<u8>) -> Taken<FrameView> {
    match wire::take_small(w) {
        Ok((cols, w)) => match wire::take_small(w) {
            Ok((rows, w)) => Ok((FrameView::Resize { cols, rows }, w)),
            Err(e) => Err(e),
        },
        Err(e) => Err(e),
    }
}

/// The fields of `FetchHistory` read.
pub open spec fn take_fetch_history_frame(w: Seq<u8>) -> Taken<FrameView> {
    match wire::take_word(w) {
        Ok((start, w)) => match wire::take_word(w) {
            Ok((count, w)) => Ok((FrameView::FetchHistory { start, count }, w)),
            Err(e) => Err(e),
        },
        Err(e) => Err(e),
    }
}

/// The fields of `History` read.
pub open spec fn take_history_frame(w: Seq<u8>) -> Taken<FrameView> {
    match wire::take_word(w) {
        Ok((total_rows, w)) => match wire::take_word(w) {
            Ok((start, w)) => match take_blobs(w) {
                Ok((rows, w)) => Ok((FrameView::History { total_rows, start, rows }, w)),
                Err(e) => Err(e),
            },
            Err(e) => Err(e),
        },
        Err(e) => Err(e),
    }
}

/// The fields of `SendInput` read.
pub open spec fn take_send_input_frame(w: Seq<u8>) -> Taken<FrameView> {
    match wire::take_text(w) {
        Ok((name, w)) => match wire::take_blob(w) {
            Ok((bytes, w)) => match wire::take_flag(w) {
                Ok((enter, w)) => Ok((FrameView::SendInput { name, bytes, enter }, w)),
                Err(e) => Err(e),
            },
            Err(e) => Err(e),
        },
        Err(e) => Err(e),
    }
}

/// The fields of `Peek` read.
pub open spec fn take_peek_frame(w: Seq<u8>) -> Taken<FrameView> {
    match wire::take_text(w) {
        Ok((name, w)) => match take_scrollback(w) {
            Ok((scrollback, w)) => Ok((FrameView::Peek { name, scrollback }, w)),
            Err(e) => Err(e),
        },
        Err(e) => Err(e),
    }
}

/// The fields of `PeekReply` read.
pub open spec fn take_peek_reply_frame(w: Seq<u8>) -> Taken<FrameView> {
    match wire::take_small(w) {
        Ok((cols, w)) => match wire::take_small(w) {
            Ok((rows, w)) => match wire::take_small(w) {
                Ok((cursor_col, w)) => match wire::take_small(w) {
                    Ok((cursor_row, w)) => match wire::take_text(w) {
                        Ok((title, w)) => match wire::take_blob(w) {
                            Ok((screen, w)) => Ok((FrameView::PeekReply { cols, rows, cursor_col, cursor_row, title, screen }, w)),
                            Err(e) => Err(e),
                        },
                        Err(e) => Err(e),
                    },
                    Err(e) => Err(e),
                },
                Err(e) => Err(e),
            },
            Err(e) => Err(e),
        },
        Err(e) => Err(e),
    }
}

/// The fields of `Inspect` read.
pub open spec fn take_inspect_frame(w: Seq<u8>) -> Taken<FrameView> {
    match wire::take_text(w) {
        Ok((name, w)) => Ok((FrameView::Inspect { name }, w)),
        Err(e) => Err(e),
    }
}

/// The fields of `InspectReply` read.
pub open spec fn take_inspect_reply_frame(w: Seq<u8>) -> Taken<FrameView> {
    match take_session(w) {
        Ok((info, w)) => match wire::take_word(w) {
            Ok((child_pid, w)) => match wire::take_flag(w) {
                Ok((alt_screen, w)) => match wire::take_word(w) {
                    Ok((scrollback_rows, w)) => match wire::take_flag(w) {
                        Ok((mouse_tracking, w)) => match take_smalls(w) {
                            Ok((mouse_modes, w)) => match wire::take_small(w) {
                                Ok((cursor_col, w)) => match wire::take_small(w) {
                                    Ok((cursor_row, w)) => match wire::take_flag(w) {
                                        Ok((cursor_visible, w)) => Ok((FrameView::InspectReply { info, child_pid, alt_screen, scrollback_rows, mouse_tracking, mouse_modes, cursor_col, cursor_row, cursor_visible }, w)),
                                        Err(e) => Err(e),
                                    },
                                    Err(e) => Err(e),
                                },
                                Err(e) => Err(e),
                            },
                            Err(e) => Err(e),
                        },
                        Err(e) => Err(e),
                    },
                    Err(e) => Err(e),
                },
                Err(e) => Err(e),
            },
            Err(e) => Err(e),
        },
        Err(e) => Err(e),
    }
}

/// The fields of `Follow` read.
pub open spec fn take_follow_frame(w: Seq<u8>) -> Taken<FrameView> {
    match wire::take_text(w) {
        Ok((name, w)) => Ok((FrameView::Follow { name }, w)),
        Err(e) => Err(e),
    }
}

/// The fields of `Unfollow` read.
pub open spec fn take_unfollow_frame(w: Seq<u8>) -> Taken<FrameView> {
    match wire::take_text(w) {
        Ok((name, w)) => Ok((FrameView::Unfollow { name }, w)),
        Err(e) => Err(e),
    }
}

/// The fields of `FollowStatus` read.
pub open spec fn take_follow_status_frame(w: Seq<u8>) -> Taken<FrameView> {
    match wire::take_flag(w) {
        Ok((running, w)) => match take_state(w) {
            Ok((state, w)) => match wire::take_long(w) {
                Ok((idle_ms, w)) => match take_maybe_exit(w) {
                    Ok((exit, w)) => Ok((FrameView::FollowStatus { running, state, idle_ms, exit }, w)),
                    Err(e) => Err(e),
                },
                Err(e) => Err(e),
            },
            Err(e) => Err(e),
        },
        Err(e) => Err(e),
    }
}

/// The fields of `ViewRevoked` read.
pub open spec fn take_view_revoked_frame(w: Seq<u8>) -> Taken<FrameView> {
    match wire::take_text(w) {
        Ok((name, w)) => match wire::take_long(w) {
            Ok((view_id, w)) => Ok((FrameView::ViewRevoked { name, view_id }, w)),
            Err(e) => Err(e),
        },
        Err(e) => Err(e),
    }
}

/// The fields of `ViewRenamed` read.
pub open spec fn take_view_renamed_frame(w: Seq<u8>) -> Taken<FrameView> {
    match wire::take_text(w) {
        Ok((old_name, w)) => match wire::take_text(w) {
            Ok((new_name, w)) => match wire::take_long(w) {
                Ok((view_id, w)) => Ok((FrameView::ViewRenamed { old_name, new_name, view_id }, w)),
                Err(e) => Err(e),
            },
            Err(e) => Err(e),
        },
        Err(e) => Err(e),
    }
}

/// The fields of `Error` read.
pub open spec fn take_error_frame(w: Seq<u8>) -> Taken<FrameView> {
    match wire::take_word(w) {
        Ok((code, w)) => match wire::take_text(w) {
            Ok((msg, w)) => Ok((FrameView::Error { code, msg }, w)),
            Err(e) => Err(e),
        },
        Err(e) => Err(e),
    }
}

/// The fields of `HostMetricsReply` read.
pub open spec fn take_host_metrics_reply_frame(w: Seq<u8>) -> Taken<FrameView> {
    match take_maybe_sample(w) {
        Ok((sample, w)) => Ok((FrameView::HostMetricsReply { sample }, w)),
        Err(e) => Err(e),
    }
}

/// A frame read. What follows it is left.
pub open spec fn take_frame(b: Seq<u8>) -> Taken<FrameView> {
    match wire::take_word(b) {
        Err(e) => Err(e),
        Ok((i, b)) => if i == 0 {
            take_hello_frame(b)
        } else if i == 1 {
            take_hello_ack_frame(b)
        } else if i == 2 {
            Ok((FrameView::ListSessions, b))
        } else if i == 3 {
            take_session_list_frame(b)
        } else if i == 4 {
            take_create_frame(b)
        } else if i == 5 {
            take_created_frame(b)
        } else if i == 6 {
            take_kill_frame(b)
        } else if i == 7 {
            take_rename_frame(b)
        } else if i == 8 {
            take_attach_frame(b)
        } else if i == 9 {
            take_snapshot_frame(b)
        } else if i == 10 {
            take_output_frame(b)
        } else if i == 11 {
            take_input_frame(b)
        } else if i == 12 {
            take_resize_frame(b)
        } else if i == 13 {
            Ok((FrameView::Detach, b))
        } else if i == 14 {
            take_fetch_history_frame(b)
        } else if i == 15 {
            take_history_frame(b)
        } else if i == 16 {
            Ok((FrameView::Refresh, b))
        } else if i == 17 {
            take_send_input_frame(b)
        } else if i == 18 {
            Ok((FrameView::Ack, b))
        } else if i == 19 {
            take_peek_frame(b)
        } else if i == 20 {
            take_peek_reply_frame(b)
        } else if i == 21 {
            take_inspect_frame(b)
        } else if i == 22 {
            take_inspect_reply_frame(b)
        } else if i == 23 {
            take_follow_frame(b)
        } else if i == 24 {
            take_unfollow_frame(b)
        } else if i == 25 {
            take_follow_status_frame(b)
        } else if i == 26 {
            take_view_revoked_frame(b)
        } else if i == 27 {
            take_view_renamed_frame(b)
        } else if i == 28 {
            take_error_frame(b)
        } else if i == 29 {
            Ok((FrameView::HostMetrics, b))
        } else if i == 30 {
            take_host_metrics_reply_frame(b)
        } else {
            Err(CodecError::UnknownVariant)
        },
    }
}

/// Writes a state.
fn put_state(out: &mut Vec<u8>, v: AgentState)
    ensures
        forall|rest: Seq<u8>| final(out)@ + rest == old(out)@ + #[trigger] wire_state(v, rest),
{
    let i: u32 = match v {
        AgentState::Working => 0,
        AgentState::Blocked => 1,
        AgentState::Idle => 2,
        AgentState::Unknown => 3,
    };
    put_word(out, i);
}

/// Writes a client kind.
fn put_kind(out: &mut Vec<u8>, v: ClientKind)
    ensures
        forall|rest: Seq<u8>| final(out)@ + rest == old(out)@ + #[trigger] wire_kind(v, rest),
{
    let i: u32 = match v {
        ClientKind::Gui => 0,
        ClientKind::Cli => 1,
        ClientKind::Proxy => 2,
        ClientKind::Tui => 3,
    };
    put_word(out, i);
}

/// Writes how much history to show.
fn put_scrollback(out: &mut Vec<u8>, v: Scrollback)
    ensures
        forall|rest: Seq<u8>|
            final(out)@ + rest == old(out)@ + #[trigger] wire_scrollback(v, rest),
{
    match v {
        Scrollback::ScreenOnly => {
            put_word(out, 0);
        },
        Scrollback::All => {
            put_word(out, 1);
        },
        Scrollback::Lines(n) => {
            put_word(out, 2);
            put_word(out, n);
        },
    }
}

/// Writes an optional text.
fn put_maybe_text(out: &mut Vec<u8>, v: &Option<String>)
    ensures
        forall|rest: Seq<u8>|
            final(out)@ + rest == old(out)@ + #[trigger] wire_maybe_text(maybe_view(*v), rest),
{
    match v {
        Some(s) => {
            put_flag(out, true);
            put_text(out, s.as_str());
        },
        None => {
            put_flag(out, false);
        },
    }
}

/// Writes a session's metadata.
fn put_session(out: &mut Vec<u8>, v: &SessionInfo)
    ensures
        forall|rest: Seq<u8>| final(out)@ + rest == old(out)@ + #[trigger] wire_session(session_view(*v), rest),
{
    proof {
        reveal(wire_session);
    }
    put_text(out, v.name.as_str());
    put_text(out, v.command.as_str());
    put_text(out, v.title.as_str());
    put_long(out, v.created_ms);
    put_long(out, v.idle_ms);
    put_flag(out, v.running);
    put_state(out, v.state);
    put_word(out, v.attached_clients);
    put_word(out, v.pid);
    put_small(out, v.cols);
    put_small(out, v.rows);
}

/// Writes a color.
fn put_color(out: &mut Vec<u8>, v: TerminalColor)
    ensures
        forall|rest: Seq<u8>| final(out)@ + rest == old(out)@ + #[trigger] wire_color(v, rest),
{
    put_byte(out, v.r);
    put_byte(out, v.g);
    put_byte(out, v.b);
}

/// Writes a color, where there is one.
fn put_maybe_color(out: &mut Vec<u8>, v: Option<TerminalColor>)
    ensures
        forall|rest: Seq<u8>|
            final(out)@ + rest == old(out)@ + #[trigger] wire_maybe_color(v, rest),
{
    match v {
        Some(c) => {
            put_flag(out, true);
            put_color(out, c);
        },
        None => {
            put_flag(out, false);
        },
    }
}

/// Writes a terminal's colors.
fn put_appearance(out: &mut Vec<u8>, v: TerminalAppearance)
    ensures
        forall|rest: Seq<u8>| final(out)@ + rest == old(out)@ + #[trigger] wire_appearance(v, rest),
{
    put_maybe_color(out, v.foreground);
    put_maybe_color(out, v.background);
}

/// Writes how a session's child ended.
fn put_exit(out: &mut Vec<u8>, v: &SessionExit)
    ensures
        forall|rest: Seq<u8>| final(out)@ + rest == old(out)@ + #[trigger] wire_exit(exit_view(*v), rest),
{
    put_word(out, v.code);
    put_maybe_text(out, &v.signal);
}

/// Writes a reading of the host's load.
fn put_sample(out: &mut Vec<u8>, v: HostSample)
    ensures
        forall|rest: Seq<u8>| final(out)@ + rest == old(out)@ + #[trigger] wire_sample(v, rest),
{
    put_byte(out, v.cpu_pct);
    put_long(out, v.mem_used_bytes);
    put_long(out, v.mem_total_bytes);
    put_long(out, v.net_rx_bps);
    put_long(out, v.net_tx_bps);
    put_long(out, v.sampled_age_ms);
}

/// Writes how a session's child ended, where it has.
fn put_maybe_exit(out: &mut Vec<u8>, v: &Option<SessionExit>)
    ensures
        forall|rest: Seq<u8>|
            final(out)@ + rest == old(out)@ + #[trigger] wire_maybe_exit(maybe_exit_view(*v), rest),
{
    match v {
        Some(e) => {
            put_flag(out, true);
            put_exit(out, e);
        },
        None => {
            put_flag(out, false);
        },
    }
}

/// Writes a reading of the host's load, where there is one.
fn put_maybe_sample(out: &mut Vec<u8>, v: Option<HostSample>)
    ensures
        forall|rest: Seq<u8>|
            final(out)@ + rest == old(out)@ + #[trigger] wire_maybe_sample(v, rest),
{
    match v {
        Some(s) => {
            put_flag(out, true);
            put_sample(out, s);
        },
        None => {
            put_flag(out, false);
        },
    }
}

/// Writes a list.
fn put_sessions(out: &mut Vec<u8>, v: &Vec<SessionInfo>)
    ensures
        forall|rest: Seq<u8>| final(out)@ + rest == old(out)@ + #[trigger] wire_sessions(sessions_view(v@), rest),
{
    let ghost all = sessions_view(v@);
    let ghost start = out@;
    put_long(out, v.len() as u64);
    let mut i: usize = 0;
    while i < v.len()
        invariant
            i <= v.len(),
            all == sessions_view(v@),
            forall|rest: Seq<u8>|
                out@ + #[trigger] wire_sessions_from(all, i as int, rest) == start + wire_sessions(all, rest),
        decreases v.len() - i,
    {
        let ghost before = out@;
        put_session(out, &v[i]);
        proof {
            assert forall|rest: Seq<u8>|
                out@ + #[trigger] wire_sessions_from(all, i + 1, rest) == start + wire_sessions(all, rest) by {
                let then = wire_sessions_from(all, i + 1, rest);
                assert(wire_sessions_from(all, i as int, rest) == wire_session(all[i as int], then));
                assert(before + wire_sessions_from(all, i as int, rest) == start + wire_sessions(all, rest));
            }
        }
        i += 1;
    }
    proof {
        assert forall|rest: Seq<u8>| out@ + rest == start + #[trigger] wire_sessions(all, rest) by {
            assert(wire_sessions_from(all, i as int, rest) == rest);
        }
    }
}

/// Writes a list.
fn put_blobs(out: &mut Vec<u8>, v: &Vec<Vec<u8>>)
    ensures
        forall|rest: Seq<u8>| final(out)@ + rest == old(out)@ + #[trigger] wire_blobs(blobs_view(v@), rest),
{
    let ghost all = blobs_view(v@);
    let ghost start = out@;
    put_long(out, v.len() as u64);
    let mut i: usize = 0;
    while i < v.len()
        invariant
            i <= v.len(),
            all == blobs_view(v@),
            forall|rest: Seq<u8>|
                out@ + #[trigger] wire_blobs_from(all, i as int, rest) == start + wire_blobs(all, rest),
        decreases v.len() - i,
    {
        let ghost before = out@;
        put_blob(out, &v[i]);
        proof {
            assert forall|rest: Seq<u8>|
                out@ + #[trigger] wire_blobs_from(all, i + 1, rest) == start + wire_blobs(all, rest) by {
                let then = wire_blobs_from(all, i + 1, rest);
                assert(wire_blobs_from(all, i as int, rest) == wire::wire_blob(all[i as int], then));
                assert(before + wire_blobs_from(all, i as int, rest) == start + wire_blobs(all, rest));
            }
        }
        i += 1;
    }
    proof {
        assert forall|rest: Seq<u8>| out@ + rest == start + #[trigger] wire_blobs(all, rest) by {
            assert(wire_blobs_from(all, i as int, rest) == rest);
        }
    }
}

/// Writes a list.
fn put_smalls(out: &mut Vec<u8>, v: &Vec<u16>)
    ensures
        forall|rest: Seq<u8>| final(out)@ + rest == old(out)@ + #[trigger] wire_smalls(v@, rest),
{
    let ghost all = v@;
    let ghost start = out@;
    put_long(out, v.len() as u64);
    let mut i: usize = 0;
    while i < v.len()
        invariant
            i <= v.len(),
            all == v@,
            forall|rest: Seq<u8>|
                out@ + #[trigger] wire_smalls_from(all, i as int, rest) == start + wire_smalls(all, rest),
        decreases v.len() - i,
    {
        let ghost before = out@;
        put_small(out, v[i]);
        proof {
            assert forall|rest: Seq<u8>|
                out@ + #[trigger] wire_smalls_from(all, i + 1, rest) == start + wire_smalls(all, rest) by {
                let then = wire_smalls_from(all, i + 1, rest);
                assert(wire_smalls_from(all, i as int, rest) == wire::wire_small(all[i as int], then));
                assert(before + wire_smalls_from(all, i as int, rest) == start + wire_smalls(all, rest));
            }
        }
        i += 1;
    }
    proof {
        assert forall|rest: Seq<u8>| out@ + rest == start + #[trigger] wire_smalls(all, rest) by {
            assert(wire_smalls_from(all, i as int, rest) == rest);
        }
    }
}

/// Writes a frame.
pub fn put_frame(out: &mut Vec<u8>, f: &Frame)
    ensures
        forall|rest: Seq<u8>|
            final(out)@ + rest == old(out)@ + #[trigger] wire_frame(frame_view(*f), rest),
{
    match f {
        Frame::Hello { proto_version, kind } => {
            put_word(out, 0);
            put_word(out, *proto_version);
            put_kind(out, *kind);
        },
        Frame::HelloAck { proto_version, daemon_version } => {
            put_word(out, 1);
            put_word(out, *proto_version);
            put_text(out, daemon_version.as_str());
        },
        Frame::ListSessions => {
            put_word(out, 2);
        },
        Frame::SessionList { sessions } => {
            put_word(out, 3);
            put_sessions(out, sessions);
        },
        Frame::Create { name, cmd, cwd } => {
            put_word(out, 4);
            put_maybe_text(out, name);
            put_maybe_text(out, cmd);
            put_maybe_text(out, cwd);
        },
        Frame::Created { name } => {
            put_word(out, 5);
            put_text(out, name.as_str());
        },
        Frame::Kill { name } => {
            put_word(out, 6);
            put_text(out, name.as_str());
        },
        Frame::Rename { name, new_name } => {
            put_word(out, 7);
            put_text(out, name.as_str());
            put_text(out, new_name.as_str());
        },
        Frame::Attach { name, cols, rows, view_id, appearance, read_only } => {
            put_word(out, 8);
            put_text(out, name.as_str());
            put_small(out, *cols);
            put_small(out, *rows);
            put_long(out, *view_id);
            put_appearance(out, *appearance);
            put_flag(out, *read_only);
        },
        Frame::Snapshot { vt } => {
            put_word(out, 9);
            put_blob(out, vt);
        },
        Frame::Output { bytes } => {
            put_word(out, 10);
            put_blob(out, bytes);
        },
        Frame::Input { bytes } => {
            put_word(out, 11);
            put_blob(out, bytes);
        },
        Frame::Resize { cols, rows } => {
            put_word(out, 12);
            put_small(out, *cols);
            put_small(out, *rows);
        },
        Frame::Detach => {
            put_word(out, 13);
        },
        Frame::FetchHistory { start, count } => {
            put_word(out, 14);
            put_word(out, *start);
            put_word(out, *count);
        },
        Frame::History { total_rows, start, rows } => {
            put_word(out, 15);
            put_word(out, *total_rows);
            put_word(out, *start);
            put_blobs(out, rows);
        },
        Frame::Refresh => {
            put_word(out, 16);
        },
        Frame::SendInput { name, bytes, enter } => {
            put_word(out, 17);
            put_text(out, name.as_str());
            put_blob(out, bytes);
            put_flag(out, *enter);
        },
        Frame::Ack => {
            put_word(out, 18);
        },
        Frame::Peek { name, scrollback } => {
            put_word(out, 19);
            put_text(out, name.as_str());
            put_scrollback(out, *scrollback);
        },
        Frame::PeekReply { cols, rows, cursor_col, cursor_row, title, screen } => {
            put_word(out, 20);
            put_small(out, *cols);
            put_small(out, *rows);
            put_small(out, *cursor_col);
            put_small(out, *cursor_row);
            put_text(out, title.as_str());
            put_blob(out, screen);
        },
        Frame::Inspect { name } => {
            put_word(out, 21);
            put_text(out, name.as_str());
        },
        Frame::InspectReply { info, child_pid, alt_screen, scrollback_rows, mouse_tracking, mouse_modes, cursor_col, cursor_row, cursor_visible } => {
            put_word(out, 22);
            put_session(out, info);
            put_word(out, *child_pid);
            put_flag(out, *alt_screen);
            put_word(out, *scrollback_rows);
            put_flag(out, *mouse_tracking);
            put_smalls(out, mouse_modes);
            put_small(out, *cursor_col);
            put_small(out, *cursor_row);
            put_flag(out, *cursor_visible);
        },
        Frame::Follow { name } => {
            put_word(out, 23);
            put_text(out, name.as_str());
        },
        Frame::Unfollow { name } => {
            put_word(out, 24);
            put_text(out, name.as_str());
        },
        Frame::FollowStatus { running, state, idle_ms, exit } => {
            put_word(out, 25);
            put_flag(out, *running);
            put_state(out, *state);
            put_long(out, *idle_ms);
            put_maybe_exit(out, exit);
        },
        Frame::ViewRevoked { name, view_id } => {
            put_word(out, 26);
            put_text(out, name.as_str());
            put_long(out, *view_id);
        },
        Frame::ViewRenamed { old_name, new_name, view_id } => {
            put_word(out, 27);
            put_text(out, old_name.as_str());
            put_text(out, new_name.as_str());
            put_long(out, *view_id);
        },
        Frame::Error { code, msg } => {
            put_word(out, 28);
            put_word(out, *code);
            put_text(out, msg.as_str());
        },
        Frame::HostMetrics => {
            put_word(out, 29);
        },
        Frame::HostMetricsReply { sample } => {
            put_word(out, 30);
            put_maybe_sample(out, *sample);
        },
    }
}

impl<'a> Cursor<'a> {
    /// Reads a state.
    fn state(&mut self) -> (r: Result<AgentState, CodecError>)
        ensures
            match take_state(old(self).rest()) {
                Ok((v, rest)) => r == Ok::<AgentState, CodecError>(v) && final(self).rest() == rest,
                Err(e) => r == Err::<AgentState, CodecError>(e),
            },
    {
        match self.word() {
            Ok(i) => if i == 0 {
                Ok(AgentState::Working)
            } else if i == 1 {
                Ok(AgentState::Blocked)
            } else if i == 2 {
                Ok(AgentState::Idle)
            } else if i == 3 {
                Ok(AgentState::Unknown)
            } else {
                Err(CodecError::UnknownVariant)
            },
            Err(e) => Err(e),
        }
    }

    /// Reads a client kind.
    fn kind(&mut self) -> (r: Result<ClientKind, CodecError>)
        ensures
            match take_kind(old(self).rest()) {
                Ok((v, rest)) => r == Ok::<ClientKind, CodecError>(v) && final(self).rest() == rest,
                Err(e) => r == Err::<ClientKind, CodecError>(e),
            },
    {
        match self.word() {
            Ok(i) => if i == 0 {
                Ok(ClientKind::Gui)
            } else if i == 1 {
                Ok(ClientKind::Cli)
            } else if i == 2 {
                Ok(ClientKind::Proxy)
            } else if i == 3 {
                Ok(ClientKind::Tui)
            } else {
                Err(CodecError::UnknownVariant)
            },
            Err(e) => Err(e),
        }
    }

    /// Reads how much history to show.
    fn scrollback(&mut self) -> (r: Result<Scrollback, CodecError>)
        ensures
            match take_scrollback(old(self).rest()) {
                Ok((v, rest)) => r == Ok::<Scrollback, CodecError>(v) && final(self).rest() == rest,
                Err(e) => r == Err::<Scrollback, CodecError>(e),
            },
    {
        match self.word() {
            Ok(i) => if i == 0 {
                Ok(Scrollback::ScreenOnly)
            } else if i == 1 {
                Ok(Scrollback::All)
            } else if i == 2 {
                match self.word() {
                    Ok(n) => Ok(Scrollback::Lines(n)),
                    Err(e) => Err(e),
                }
            } else {
                Err(CodecError::UnknownVariant)
            },
            Err(e) => Err(e),
        }
    }

    /// Reads a text, where there is one.
    fn maybe_text(&mut self) -> (r: Result<Option<String>, CodecError>)
        ensures
            match take_maybe_text(old(self).rest()) {
                Ok((v, rest)) => r matches Ok(w) && maybe_view(w) == v && final(self).rest() == rest,
                Err(e) => r == Err::<Option<String>, CodecError>(e),
            },
    {
        match self.mark() {
            Ok(some) => if some {
                match self.text() {
                    Ok(x) => Ok(Some(x)),
                    Err(e) => Err(e),
                }
            } else {
                Ok(None)
            },
            Err(e) => Err(e),
        }
    }

    /// Reads a session's metadata.
    fn session(&mut self) -> (r: Result<SessionInfo, CodecError>)
        ensures
            match take_session(old(self).rest()) {
                Ok((v, rest)) => r matches Ok(w) && session_view(w) == v && final(self).rest() == rest,
                Err(e) => r == Err::<SessionInfo, CodecError>(e),
            },
    {
        proof {
            reveal(take_session);
        }
        let name = match self.text() {
            Ok(v) => v,
            Err(e) => {
                return Err(e);
            },
        };
        let command = match self.text() {
            Ok(v) => v,
            Err(e) => {
                return Err(e);
            },
        };
        let title = match self.text() {
            Ok(v) => v,
            Err(e) => {
                return Err(e);
            },
        };
        let created_ms: u64 = match self.long() {
            Ok(v) => v,
            Err(e) => {
                return Err(e);
            },
        };
        let idle_ms: u64 = match self.long() {
            Ok(v) => v,
            Err(e) => {
                return Err(e);
            },
        };
        let running = match self.flag() {
            Ok(v) => v,
            Err(e) => {
                return Err(e);
            },
        };
        let state = match self.state() {
            Ok(v) => v,
            Err(e) => {
                return Err(e);
            },
        };
        let attached_clients: u32 = match self.word() {
            Ok(v) => v,
            Err(e) => {
                return Err(e);
            },
        };
        let pid: u32 = match self.word() {
            Ok(v) => v,
            Err(e) => {
                return Err(e);
            },
        };
        let cols: u16 = match self.small() {
            Ok(v) => v,
            Err(e) => {
                return Err(e);
            },
        };
        let rows: u16 = match self.small() {
            Ok(v) => v,
            Err(e) => {
                return Err(e);
            },
        };
        Ok(SessionInfo { name, command, title, created_ms, idle_ms, running, state, attached_clients, pid, cols, rows })
    }

    /// Reads a color.
    fn color(&mut self) -> (r: Result<TerminalColor, CodecError>)
        ensures
            match take_color(old(self).rest()) {
                Ok((v, rest)) => r == Ok::<TerminalColor, CodecError>(v) && final(self).rest() == rest,
                Err(e) => r == Err::<TerminalColor, CodecError>(e),
            },
    {
        let r: u8 = match self.byte() {
            Ok(v) => v,
            Err(e) => {
                return Err(e);
            },
        };
        let g: u8 = match self.byte() {
            Ok(v) => v,
            Err(e) => {
                return Err(e);
            },
        };
        let b: u8 = match self.byte() {
            Ok(v) => v,
            Err(e) => {
                return Err(e);
            },
        };
        Ok(TerminalColor { r, g, b })
    }

    /// Reads a color, where there is one.
    fn maybe_color(&mut self) -> (r: Result<Option<TerminalColor>, CodecError>)
        ensures
            match take_maybe_color(old(self).rest()) {
                Ok((v, rest)) => r == Ok::<Option<TerminalColor>, CodecError>(v) && final(self).rest() == rest,
                Err(e) => r == Err::<Option<TerminalColor>, CodecError>(e),
            },
    {
        match self.mark() {
            Ok(some) => if some {
                match self.color() {
                    Ok(x) => Ok(Some(x)),
                    Err(e) => Err(e),
                }
            } else {
                Ok(None)
            },
            Err(e) => Err(e),
        }
    }

    /// Reads a terminal's colors.
    fn appearance(&mut self) -> (r: Result<TerminalAppearance, CodecError>)
        ensures
            match take_appearance(old(self).rest()) {
                Ok((v, rest)) => r == Ok::<TerminalAppearance, CodecError>(v) && final(self).rest() == rest,
                Err(e) => r == Err::<TerminalAppearance, CodecError>(e),
            },
    {
        let foreground = match self.maybe_color() {
            Ok(v) => v,
            Err(e) => {
                return Err(e);
            },
        };
        let background = match self.maybe_color() {
            Ok(v) => v,
            Err(e) => {
                return Err(e);
            },
        };
        Ok(TerminalAppearance { foreground, background })
    }

    /// Reads how a session's child ended.
    fn exit(&mut self) -> (r: Result<SessionExit, CodecError>)
        ensures
            match take_exit(old(self).rest()) {
                Ok((v, rest)) => r matches Ok(w) && exit_view(w) == v && final(self).rest() == rest,
                Err(e) => r == Err::<SessionExit, CodecError>(e),
            },
    {
        let code: u32 = match self.word() {
            Ok(v) => v,
            Err(e) => {
                return Err(e);
            },
        };
        let signal = match self.maybe_text() {
            Ok(v) => v,
            Err(e) => {
                return Err(e);
            },
        };
        Ok(SessionExit { code, signal })
    }

    /// Reads how a session's child ended, where there is one.
    fn maybe_exit(&mut self) -> (r: Result<Option<SessionExit>, CodecError>)
        ensures
            match take_maybe_exit(old(self).rest()) {
                Ok((v, rest)) => r matches Ok(w) && maybe_exit_view(w) == v && final(self).rest() == rest,
                Err(e) => r == Err::<Option<SessionExit>, CodecError>(e),
            },
    {
        match self.mark() {
            Ok(some) => if some {
                match self.exit() {
                    Ok(x) => Ok(Some(x)),
                    Err(e) => Err(e),
                }
            } else {
                Ok(None)
            },
            Err(e) => Err(e),
        }
    }

    /// Reads a reading of the host's load.
    fn sample(&mut self) -> (r: Result<HostSample, CodecError>)
        ensures
            match take_sample(old(self).rest()) {
                Ok((v, rest)) => r == Ok::<HostSample, CodecError>(v) && final(self).rest() == rest,
                Err(e) => r == Err::<HostSample, CodecError>(e),
            },
    {
        let cpu_pct: u8 = match self.byte() {
            Ok(v) => v,
            Err(e) => {
                return Err(e);
            },
        };
        let mem_used_bytes: u64 = match self.long() {
            Ok(v) => v,
            Err(e) => {
                return Err(e);
            },
        };
        let mem_total_bytes: u64 = match self.long() {
            Ok(v) => v,
            Err(e) => {
                return Err(e);
            },
        };
        let net_rx_bps: u64 = match self.long() {
            Ok(v) => v,
            Err(e) => {
                return Err(e);
            },
        };
        let net_tx_bps: u64 = match self.long() {
            Ok(v) => v,
            Err(e) => {
                return Err(e);
            },
        };
        let sampled_age_ms: u64 = match self.long() {
            Ok(v) => v,
            Err(e) => {
                return Err(e);
            },
        };
        Ok(HostSample { cpu_pct, mem_used_bytes, mem_total_bytes, net_rx_bps, net_tx_bps, sampled_age_ms })
    }

    /// Reads a reading of the host's load, where there is one.
    fn maybe_sample(&mut self) -> (r: Result<Option<HostSample>, CodecError>)
        ensures
            match take_maybe_sample(old(self).rest()) {
                Ok((v, rest)) => r == Ok::<Option<HostSample>, CodecError>(v) && final(self).rest() == rest,
                Err(e) => r == Err::<Option<HostSample>, CodecError>(e),
            },
    {
        match self.mark() {
            Ok(some) => if some {
                match self.sample() {
                    Ok(x) => Ok(Some(x)),
                    Err(e) => Err(e),
                }
            } else {
                Ok(None)
            },
            Err(e) => Err(e),
        }
    }

    /// Reads a list.
    fn sessions(&mut self) -> (r: Result<Vec<SessionInfo>, CodecError>)
        ensures
            match take_sessions(old(self).rest()) {
                Ok((v, rest)) => r matches Ok(w) && sessions_view(w@) == v && final(self).rest() == rest,
                Err(e) => r == Err::<Vec<SessionInfo>, CodecError>(e),
            },
    {
        let n: u64 = match self.size() {
            Ok(n) => n,
            Err(e) => {
                return Err(e);
            },
        };
        let mut out: Vec<SessionInfo> = Vec::new();
        let ghost goal = take_sessions(old(self).rest());
        proof {
            assert(sessions_view(out@) =~= Seq::<SessionView>::empty());
        }
        let mut i: u64 = 0;
        while i < n
            invariant
                i <= n,
                goal == take_sessions(old(self).rest()),
                goal == take_sessions_on(sessions_view(out@), (n - i) as nat, self.rest()),
            decreases n - i,
        {
            let ghost had = sessions_view(out@);
            let x = match self.session() {
                Ok(v) => v,
                Err(e) => {
                    return Err(e);
                },
            };
            out.push(x);
            proof {
                assert(sessions_view(out@) =~= had.push(session_view(x)));
            }
            i += 1;
        }
        Ok(out)
    }

    /// Reads a list.
    fn blobs(&mut self) -> (r: Result<Vec<Vec<u8>>, CodecError>)
        ensures
            match take_blobs(old(self).rest()) {
                Ok((v, rest)) => r matches Ok(w) && blobs_view(w@) == v && final(self).rest() == rest,
                Err(e) => r == Err::<Vec<Vec<u8>>, CodecError>(e),
            },
    {
        let n: u64 = match self.size() {
            Ok(n) => n,
            Err(e) => {
                return Err(e);
            },
        };
        let mut out: Vec<Vec<u8>> = Vec::new();
        let ghost goal = take_blobs(old(self).rest());
        proof {
            assert(blobs_view(out@) =~= Seq::<Seq<u8>>::empty());
        }
        let mut i: u64 = 0;
        while i < n
            invariant
                i <= n,
                goal == take_blobs(old(self).rest()),
                goal == take_blobs_on(blobs_view(out@), (n - i) as nat, self.rest()),
            decreases n - i,
        {
            let ghost had = blobs_view(out@);
            let x = match self.blob() {
                Ok(v) => v,
                Err(e) => {
                    return Err(e);
                },
            };
            out.push(x);
            proof {
                assert(blobs_view(out@) =~= had.push(x@));
            }
            i += 1;
        }
        Ok(out)
    }

    /// Reads a list.
    fn smalls(&mut self) -> (r: Result<Vec<u16>, CodecError>)
        ensures
            match take_smalls(old(self).rest()) {
                Ok((v, rest)) => r matches Ok(w) && w@ == v && final(self).rest() == rest,
                Err(e) => r == Err::<Vec<u16>, CodecError>(e),
            },
    {
        let n: u64 = match self.size() {
            Ok(n) => n,
            Err(e) => {
                return Err(e);
            },
        };
        let mut out: Vec<u16> = Vec::new();
        let ghost goal = take_smalls(old(self).rest());
        proof {
            assert(out@ =~= Seq::<u16>::empty());
        }
        let mut i: u64 = 0;
        while i < n
            invariant
                i <= n,
                goal == take_smalls(old(self).rest()),
                goal == take_smalls_on(out@, (n - i) as nat, self.rest()),
            decreases n - i,
        {
            let ghost had = out@;
            let x: u16 = match self.small() {
                Ok(v) => v,
                Err(e) => {
                    return Err(e);
                },
            };
            out.push(x);
            proof {
                assert(out@ =~= had.push(x));
            }
            i += 1;
        }
        Ok(out)
    }

}

impl<'a> Cursor<'a> {
    /// Reads the fields of `Hello`.
    fn hello_frame(&mut self) -> (r: Result<Frame, CodecError>)
        ensures
            match take_hello_frame(old(self).rest()) {
                Ok((v, rest)) => r matches Ok(w) && frame_view(w) == v && final(self).rest() == rest,
                Err(e) => r == Err::<Frame, CodecError>(e),
            },
    {
        let proto_version: u32 = match self.word() {
            Ok(v) => v,
            Err(e) => {
                return Err(e);
            },
        };
        let kind = match self.kind() {
            Ok(v) => v,
            Err(e) => {
                return Err(e);
            },
        };
        Ok(Frame::Hello { proto_version, kind })
    }

    /// Reads the fields of `HelloAck`.
    fn hello_ack_frame(&mut self) -> (r: Result<Frame, CodecError>)
        ensures
            match take_hello_ack_frame(old(self).rest()) {
                Ok((v, rest)) => r matches Ok(w) && frame_view(w) == v && final(self).rest() == rest,
                Err(e) => r == Err::<Frame, CodecError>(e),
            },
    {
        let proto_version: u32 = match self.word() {
            Ok(v) => v,
            Err(e) => {
                return Err(e);
            },
        };
        let daemon_version = match self.text() {
            Ok(v) => v,
            Err(e) => {
                return Err(e);
            },
        };
        Ok(Frame::HelloAck { proto_version, daemon_version })
    }

    /// Reads the fields of `SessionList`.
    fn session_list_frame(&mut self) -> (r: Result<Frame, CodecError>)
        ensures
            match take_session_list_frame(old(self).rest()) {
                Ok((v, rest)) => r matches Ok(w) && frame_view(w) == v && final(self).rest() == rest,
                Err(e) => r == Err::<Frame, CodecError>(e),
            },
    {
        let sessions = match self.sessions() {
            Ok(v) => v,
            Err(e) => {
                return Err(e);
            },
        };
        Ok(Frame::SessionList { sessions })
    }

    /// Reads the fields of `Create`.
    fn create_frame(&mut self) -> (r: Result<Frame, CodecError>)
        ensures
            match take_create_frame(old(self).rest()) {
                Ok((v, rest)) => r matches Ok(w) && frame_view(w) == v && final(self).rest() == rest,
                Err(e) => r == Err::<Frame, CodecError>(e),
            },
    {
        let name = match self.maybe_text() {
            Ok(v) => v,
            Err(e) => {
                return Err(e);
            },
        };
        let cmd = match self.maybe_text() {
            Ok(v) => v,
            Err(e) => {
                return Err(e);
            },
        };
        let cwd = match self.maybe_text() {
            Ok(v) => v,
            Err(e) => {
                return Err(e);
            },
        };
        Ok(Frame::Create { name, cmd, cwd })
    }

    /// Reads the fields of `Created`.
    fn created_frame(&mut self) -> (r: Result<Frame, CodecError>)
        ensures
            match take_created_frame(old(self).rest()) {
                Ok((v, rest)) => r matches Ok(w) && frame_view(w) == v && final(self).rest() == rest,
                Err(e) => r == Err::<Frame, CodecError>(e),
            },
    {
        let name = match self.text() {
            Ok(v) => v,
            Err(e) => {
                return Err(e);
            },
        };
        Ok(Frame::Created { name })
    }

    /// Reads the fields of `Kill`.
    fn kill_frame(&mut self) -> (r: Result<Frame, CodecError>)
        ensures
            match take_kill_frame(old(self).rest()) {
                Ok((v, rest)) => r matches Ok(w) && frame_view(w) == v && final(self).rest() == rest,
                Err(e) => r == Err::<Frame, CodecError>(e),
            },
    {
        let name = match self.text() {
            Ok(v) => v,
            Err(e) => {
                return Err(e);
            },
        };
        Ok(Frame::Kill { name })
    }

    /// Reads the fields of `Rename`.
    fn rename_frame(&mut self) -> (r: Result<Frame, CodecError>)
        ensures
            match take_rename_frame(old(self).rest()) {
                Ok((v, rest)) => r matches Ok(w) && frame_view(w) == v && final(self).rest() == rest,
                Err(e) => r == Err::<Frame, CodecError>(e),
            },
    {
        let name = match self.text() {
            Ok(v) => v,
            Err(e) => {
                return Err(e);
            },
        };
        let new_name = match self.text() {
            Ok(v) => v,
            Err(e) => {
                return Err(e);
            },
        };
        Ok(Frame::Rename { name, new_name })
    }

    /// Reads the fields of `Attach`.
    fn attach_frame(&mut self) -> (r: Result<Frame, CodecError>)
        ensures
            match take_attach_frame(old(self).rest()) {
                Ok((v, rest)) => r matches Ok(w) && frame_view(w) == v && final(self).rest() == rest,
                Err(e) => r == Err::<Frame, CodecError>(e),
            },
    {
        let name = match self.text() {
            Ok(v) => v,
            Err(e) => {
                return Err(e);
            },
        };
        let cols: u16 = match self.small() {
            Ok(v) => v,
            Err(e) => {
                return Err(e);
            },
        };
        let rows: u16 = match self.small() {
            Ok(v) => v,
            Err(e) => {
                return Err(e);
            },
        };
        let view_id: u64 = match self.long() {
            Ok(v) => v,
            Err(e) => {
                return Err(e);
            },
        };
        let appearance = match self.appearance() {
            Ok(v) => v,
            Err(e) => {
                return Err(e);
            },
        };
        let read_only = match self.flag() {
            Ok(v) => v,
            Err(e) => {
                return Err(e);
            },
        };
        Ok(Frame::Attach { name, cols, rows, view_id, appearance, read_only })
    }

    /// Reads the fields of `Snapshot`.
    fn snapshot_frame(&mut self) -> (r: Result<Frame, CodecError>)
        ensures
            match take_snapshot_frame(old(self).rest()) {
                Ok((v, rest)) => r matches Ok(w) && frame_view(w) == v && final(self).rest() == rest,
                Err(e) => r == Err::<Frame, CodecError>(e),
            },
    {
        let vt = match self.blob() {
            Ok(v) => v,
            Err(e) => {
                return Err(e);
            },
        };
        Ok(Frame::Snapshot { vt })
    }

    /// Reads the fields of `Output`.
    fn output_frame(&mut self) -> (r: Result<Frame, CodecError>)
        ensures
            match take_output_frame(old(self).rest()) {
                Ok((v, rest)) => r matches Ok(w) && frame_view(w) == v && final(self).rest() == rest,
                Err(e) => r == Err::<Frame, CodecError>(e),
            },
    {
        let bytes = match self.blob() {
            Ok(v) => v,
            Err(e) => {
                return Err(e);
            },
        };
        Ok(Frame::Output { bytes })
    }

    /// Reads the fields of `Input`.
    fn input_frame(&mut self) -> (r: Result<Frame, CodecError>)
        ensures
            match take_input_frame(old(self).rest()) {
                Ok((v, rest)) => r matches Ok(w) && frame_view(w) == v && final(self).rest() == rest,
                Err(e) => r == Err::<Frame, CodecError>(e),
            },
    {
        let bytes = match self.blob() {
            Ok(v) => v,
            Err(e) => {
                return Err(e);
            },
        };
        Ok(Frame::Input { bytes })
    }

    /// Reads the fields of `Resize`.
    fn resize_frame(&mut self) -> (r: Result<Frame, CodecError>)
        ensures
            match take_resize_frame(old(self).rest()) {
                Ok((v, rest)) => r matches Ok(w) && frame_view(w) == v && final(self).rest() == rest,
                Err(e) => r == Err::<Frame, CodecError>(e),
            },
    {
        let cols: u16 = match self.small() {
            Ok(v) => v,
            Err(e) => {
                return Err(e);
            },
        };
        let rows: u16 = match self.small() {
            Ok(v) => v,
            Err(e) => {
                return Err(e);
            },
        };
        Ok(Frame::Resize { cols, rows })
    }

    /// Reads the fields of `FetchHistory`.
    fn fetch_history_frame(&mut self) -> (r: Result<Frame, CodecError>)
        ensures
            match take_fetch_history_frame(old(self).rest()) {
                Ok((v, rest)) => r matches Ok(w) && frame_view(w) == v && final(self).rest() == rest,
                Err(e) => r == Err::<Frame, CodecError>(e),
            },
    {
        let start: u32 = match self.word() {
            Ok(v) => v,
            Err(e) => {
                return Err(e);
            },
        };
        let count: u32 = match self.word() {
            Ok(v) => v,
            Err(e) => {
                return Err(e);
            },
        };
        Ok(Frame::FetchHistory { start, count })
    }

    /// Reads the fields of `History`.
    fn history_frame(&mut self) -> (r: Result<Frame, CodecError>)
        ensures
            match take_history_frame(old(self).rest()) {
                Ok((v, rest)) => r matches Ok(w) && frame_view(w) == v && final(self).rest() == rest,
                Err(e) => r == Err::<Frame, CodecError>(e),
            },
    {
        let total_rows: u32 = match self.word() {
            Ok(v) => v,
            Err(e) => {
                return Err(e);
            },
        };
        let start: u32 = match self.word() {
            Ok(v) => v,
            Err(e) => {
                return Err(e);
            },
        };
        let rows = match self.blobs() {
            Ok(v) => v,
            Err(e) => {
                return Err(e);
            },
        };
        Ok(Frame::History { total_rows, start, rows })
    }

    /// Reads the fields of `SendInput`.
    fn send_input_frame(&mut self) -> (r: Result<Frame, CodecError>)
        ensures
            match take_send_input_frame(old(self).rest()) {
                Ok((v, rest)) => r matches Ok(w) && frame_view(w) == v && final(self).rest() == rest,
                Err(e) => r == Err::<Frame, CodecError>(e),
            },
    {
        let name = match self.text() {
            Ok(v) => v,
            Err(e) => {
                return Err(e);
            },
        };
        let bytes = match self.blob() {
            Ok(v) => v,
            Err(e) => {
                return Err(e);
            },
        };
        let enter = match self.flag() {
            Ok(v) => v,
            Err(e) => {
                return Err(e);
            },
        };
        Ok(Frame::SendInput { name, bytes, enter })
    }

    /// Reads the fields of `Peek`.
    fn peek_frame(&mut self) -> (r: Result<Frame, CodecError>)
        ensures
            match take_peek_frame(old(self).rest()) {
                Ok((v, rest)) => r matches Ok(w) && frame_view(w) == v && final(self).rest() == rest,
                Err(e) => r == Err::<Frame, CodecError>(e),
            },
    {
        let name = match self.text() {
            Ok(v) => v,
            Err(e) => {
                return Err(e);
            },
        };
        let scrollback = match self.scrollback() {
            Ok(v) => v,
            Err(e) => {
                return Err(e);
            },
        };
        Ok(Frame::Peek { name, scrollback })
    }

    /// Reads the fields of `PeekReply`.
    fn peek_reply_frame(&mut self) -> (r: Result<Frame, CodecError>)
        ensures
            match take_peek_reply_frame(old(self).rest()) {
                Ok((v, rest)) => r matches Ok(w) && frame_view(w) == v && final(self).rest() == rest,
                Err(e) => r == Err::<Frame, CodecError>(e),
            },
    {
        let cols: u16 = match self.small() {
            Ok(v) => v,
            Err(e) => {
                return Err(e);
            },
        };
        let rows: u16 = match self.small() {
            Ok(v) => v,
            Err(e) => {
                return Err(e);
            },
        };
        let cursor_col: u16 = match self.small() {
            Ok(v) => v,
            Err(e) => {
                return Err(e);
            },
        };
        let cursor_row: u16 = match self.small() {
            Ok(v) => v,
            Err(e) => {
                return Err(e);
            },
        };
        let title = match self.text() {
            Ok(v) => v,
            Err(e) => {
                return Err(e);
            },
        };
        let screen = match self.blob() {
            Ok(v) => v,
            Err(e) => {
                return Err(e);
            },
        };
        Ok(Frame::PeekReply { cols, rows, cursor_col, cursor_row, title, screen })
    }

    /// Reads the fields of `Inspect`.
    fn inspect_frame(&mut self) -> (r: Result<Frame, CodecError>)
        ensures
            match take_inspect_frame(old(self).rest()) {
                Ok((v, rest)) => r matches Ok(w) && frame_view(w) == v && final(self).rest() == rest,
                Err(e) => r == Err::<Frame, CodecError>(e),
            },
    {
        let name = match self.text() {
            Ok(v) => v,
            Err(e) => {
                return Err(e);
            },
        };
        Ok(Frame::Inspect { name })
    }

    /// Reads the fields of `InspectReply`.
    fn inspect_reply_frame(&mut self) -> (r: Result<Frame, CodecError>)
        ensures
            match take_inspect_reply_frame(old(self).rest()) {
                Ok((v, rest)) => r matches Ok(w) && frame_view(w) == v && final(self).rest() == rest,
                Err(e) => r == Err::<Frame, CodecError>(e),
            },
    {
        let info = match self.session() {
            Ok(v) => v,
            Err(e) => {
                return Err(e);
            },
        };
        let child_pid: u32 = match self.word() {
            Ok(v) => v,
            Err(e) => {
                return Err(e);
            },
        };
        let alt_screen = match self.flag() {
            Ok(v) => v,
            Err(e) => {
                return Err(e);
            },
        };
        let scrollback_rows: u32 = match self.word() {
            Ok(v) => v,
            Err(e) => {
                return Err(e);
            },
        };
        let mouse_tracking = match self.flag() {
            Ok(v) => v,
            Err(e) => {
                return Err(e);
            },
        };
        let mouse_modes = match self.smalls() {
            Ok(v) => v,
            Err(e) => {
                return Err(e);
            },
        };
        let cursor_col: u16 = match self.small() {
            Ok(v) => v,
            Err(e) => {
                return Err(e);
            },
        };
        let cursor_row: u16 = match self.small() {
            Ok(v) => v,
            Err(e) => {
                return Err(e);
            },
        };
        let cursor_visible = match self.flag() {
            Ok(v) => v,
            Err(e) => {
                return Err(e);
            },
        };
        Ok(Frame::InspectReply { info, child_pid, alt_screen, scrollback_rows, mouse_tracking, mouse_modes, cursor_col, cursor_row, cursor_visible })
    }

    /// Reads the fields of `Follow`.
    fn follow_frame(&mut self) -> (r: Result<Frame, CodecError>)
        ensures
            match take_follow_frame(old(self).rest()) {
                Ok((v, rest)) => r matches Ok(w) && frame_view(w) == v && final(self).rest() == rest,
                Err(e) => r == Err::<Frame, CodecError>(e),
            },
    {
        let name = match self.text() {
            Ok(v) => v,
            Err(e) => {
                return Err(e);
            },
        };
        Ok(Frame::Follow { name })
    }

    /// Reads the fields of `Unfollow`.
    fn unfollow_frame(&mut self) -> (r: Result<Frame, CodecError>)
        ensures
            match take_unfollow_frame(old(self).rest()) {
                Ok((v, rest)) => r matches Ok(w) && frame_view(w) == v && final(self).rest() == rest,
                Err(e) => r == Err::<Frame, CodecError>(e),
            },
    {
        let name = match self.text() {
            Ok(v) => v,
            Err(e) => {
                return Err(e);
            },
        };
        Ok(Frame::Unfollow { name })
    }

    /// Reads the fields of `FollowStatus`.
    fn follow_status_frame(&mut self) -> (r: Result<Frame, CodecError>)
        ensures
            match take_follow_status_frame(old(self).rest()) {
                Ok((v, rest)) => r matches Ok(w) && frame_view(w) == v && final(self).rest() == rest,
                Err(e) => r == Err::<Frame, CodecError>(e),
            },
    {
        let running = match self.flag() {
            Ok(v) => v,
            Err(e) => {
                return Err(e);
            },
        };
        let state = match self.state() {
            Ok(v) => v,
            Err(e) => {
                return Err(e);
            },
        };
        let idle_ms: u64 = match self.long() {
            Ok(v) => v,
            Err(e) => {
                return Err(e);
            },
        };
        let exit = match self.maybe_exit() {
            Ok(v) => v,
            Err(e) => {
                return Err(e);
            },
        };
        Ok(Frame::FollowStatus { running, state, idle_ms, exit })
    }

    /// Reads the fields of `ViewRevoked`.
    fn view_revoked_frame(&mut self) -> (r: Result<Frame, CodecError>)
        ensures
            match take_view_revoked_frame(old(self).rest()) {
                Ok((v, rest)) => r matches Ok(w) && frame_view(w) == v && final(self).rest() == rest,
                Err(e) => r == Err::<Frame, CodecError>(e),
            },
    {
        let name = match self.text() {
            Ok(v) => v,
            Err(e) => {
                return Err(e);
            },
        };
        let view_id: u64 = match self.long() {
            Ok(v) => v,
            Err(e) => {
                return Err(e);
            },
        };
        Ok(Frame::ViewRevoked { name, view_id })
    }

    /// Reads the fields of `ViewRenamed`.
    fn view_renamed_frame(&mut self) -> (r: Result<Frame, CodecError>)
        ensures
            match take_view_renamed_frame(old(self).rest()) {
                Ok((v, rest)) => r matches Ok(w) && frame_view(w) == v && final(self).rest() == rest,
                Err(e) => r == Err::<Frame, CodecError>(e),
            },
    {
        let old_name = match self.text() {
            Ok(v) => v,
            Err(e) => {
                return Err(e);
            },
        };
        let new_name = match self.text() {
            Ok(v) => v,
            Err(e) => {
                return Err(e);
            },
        };
        let view_id: u64 = match self.long() {
            Ok(v) => v,
            Err(e) => {
                return Err(e);
            },
        };
        Ok(Frame::ViewRenamed { old_name, new_name, view_id })
    }

    /// Reads the fields of `Error`.
    fn error_frame(&mut self) -> (r: Result<Frame, CodecError>)
        ensures
            match take_error_frame(old(self).rest()) {
                Ok((v, rest)) => r matches Ok(w) && frame_view(w) == v && final(self).rest() == rest,
                Err(e) => r == Err::<Frame, CodecError>(e),
            },
    {
        let code: u32 = match self.word() {
            Ok(v) => v,
            Err(e) => {
                return Err(e);
            },
        };
        let msg = match self.text() {
            Ok(v) => v,
            Err(e) => {
                return Err(e);
            },
        };
        Ok(Frame::Error { code, msg })
    }

    /// Reads the fields of `HostMetricsReply`.
    fn host_metrics_reply_frame(&mut self) -> (r: Result<Frame, CodecError>)
        ensures
            match take_host_metrics_reply_frame(old(self).rest()) {
                Ok((v, rest)) => r matches Ok(w) && frame_view(w) == v && final(self).rest() == rest,
                Err(e) => r == Err::<Frame, CodecError>(e),
            },
    {
        let sample = match self.maybe_sample() {
            Ok(v) => v,
            Err(e) => {
                return Err(e);
            },
        };
        Ok(Frame::HostMetricsReply { sample })
    }

    /// Reads a frame.
    pub fn frame(&mut self) -> (r: Result<Frame, CodecError>)
        ensures
            match take_frame(old(self).rest()) {
                Ok((v, rest)) => r matches Ok(w) && frame_view(w) == v && final(self).rest() == rest,
                Err(e) => r == Err::<Frame, CodecError>(e),
            },
    {
        let i: u32 = match self.word() {
            Ok(i) => i,
            Err(e) => {
                return Err(e);
            },
        };
        if i == 0 {
            self.hello_frame()
        } else if i == 1 {
            self.hello_ack_frame()
        } else if i == 2 {
            Ok(Frame::ListSessions)
        } else if i == 3 {
            self.session_list_frame()
        } else if i == 4 {
            self.create_frame()
        } else if i == 5 {
            self.created_frame()
        } else if i == 6 {
            self.kill_frame()
        } else if i == 7 {
            self.rename_frame()
        } else if i == 8 {
            self.attach_frame()
        } else if i == 9 {
            self.snapshot_frame()
        } else if i == 10 {
            self.output_frame()
        } else if i == 11 {
            self.input_frame()
        } else if i == 12 {
            self.resize_frame()
        } else if i == 13 {
            Ok(Frame::Detach)
        } else if i == 14 {
            self.fetch_history_frame()
        } else if i == 15 {
            self.history_frame()
        } else if i == 16 {
            Ok(Frame::Refresh)
        } else if i == 17 {
            self.send_input_frame()
        } else if i == 18 {
            Ok(Frame::Ack)
        } else if i == 19 {
            self.peek_frame()
        } else if i == 20 {
            self.peek_reply_frame()
        } else if i == 21 {
            self.inspect_frame()
        } else if i == 22 {
            self.inspect_reply_frame()
        } else if i == 23 {
            self.follow_frame()
        } else if i == 24 {
            self.unfollow_frame()
        } else if i == 25 {
            self.follow_status_frame()
        } else if i == 26 {
            self.view_revoked_frame()
        } else if i == 27 {
            self.view_renamed_frame()
        } else if i == 28 {
            self.error_frame()
        } else if i == 29 {
            Ok(Frame::HostMetrics)
        } else if i == 30 {
            self.host_metrics_reply_frame()
        } else {
            Err(CodecError::UnknownVariant)
        }
    }
}

} // verus!
