//! asd wire protocol.
//!
//! A frame on the wire is a little-endian 32-bit length and that many bytes of
//! payload; a payload over 4 MiB is a protocol error. The protocol does not run
//! multi-version: a version mismatch is answered with an error and a disconnect.
use crate::text;
use vstd::prelude::*;
use vstd::string::*;

pub mod code;
pub mod codec;
pub mod format;
pub mod frames;
pub mod paths;
pub mod replies;
pub mod roundtrip;
pub mod wire;

verus! {

/// Protocol version. Carried once in each direction; any inequality is rejected.
pub const PROTO_VERSION: u32 = 17;

/// Output-quiescence threshold, in milliseconds. A session is idle once its pty
/// has produced no output for this long, and running otherwise.
pub const IDLE_SETTLE_MS: u64 = 2000;

/// Per-frame cap: 4 MiB, without the length prefix.
pub const MAX_FRAME_LEN: usize = 4 * 1024 * 1024;

/// What the program in a session is doing, as the daemon reads it off the
/// rendered screen.
#[derive(Debug, Clone, Copy, PartialEq, Eq, Structural)]
pub enum AgentState {
    /// Busy on a turn of its own.
    Working,
    /// Stopped, waiting for a person.
    Blocked,
    /// Ready for input, with nothing pending.
    Idle,
    /// Nothing recognized. Never a claim that something is finished.
    Unknown,
}

impl Default for AgentState {
    fn default() -> (r: Self)
        ensures
            r == AgentState::Unknown,
    {
        AgentState::Unknown
    }
}

/// The lowercase form of an ASCII capital; any other character as it is.
pub open spec fn lowered(c: char) -> char {
    if 'A' <= c <= 'Z' {
        ((c as u8 + 32) as u8) as char
    } else {
        c
    }
}

/// A text with its ASCII capitals in lowercase.
pub open spec fn lowercase(s: Seq<char>) -> Seq<char> {
    s.map_values(|c: char| lowered(c))
}

/// A text with its ASCII capitals in lowercase.
fn to_lowercase(s: &str) -> (r: String)
    ensures
        r@ == lowercase(s@),
{
    let chars = text::chars_of(s);
    let mut out = String::new();
    let mut i: usize = 0;
    while i < chars.len()
        invariant
            i <= chars.len(),
            chars@ == s@,
            out@ == lowercase(s@).take(i as int),
        decreases chars.len() - i,
    {
        let c: char = chars[i];
        let d: char = if 'A' <= c && c <= 'Z' {
            (c as u8 + 32) as char
        } else {
            c
        };
        out.push(d);
        i += 1;
        assert(out@ =~= lowercase(s@).take(i as int));
    }
    assert(out@ =~= lowercase(s@));
    out
}

/// A text as it is quoted in messages.
pub uninterp spec fn quoted(s: Seq<char>) -> Seq<char>;

/// The standard library's `Debug` for `str`, named `quoted`.
#[verifier::external_body]
fn quote(s: &str) -> (r: String)
    ensures
        r@ == quoted(s@),
{
    format!("{s:?}")
}

impl AgentState {
    /// The state's name.
    pub open spec fn name(self) -> Seq<char> {
        match self {
            AgentState::Working => "working"@,
            AgentState::Blocked => "blocked"@,
            AgentState::Idle => "idle"@,
            AgentState::Unknown => "unknown"@,
        }
    }

    /// The lowercase name, for display and for arguments.
    pub fn as_str(self) -> (r: &'static str)
        ensures
            r@ == self.name(),
    {
        match self {
            AgentState::Working => "working",
            AgentState::Blocked => "blocked",
            AgentState::Idle => "idle",
            AgentState::Unknown => "unknown",
        }
    }

    /// Whether a text names the state, whatever its case and the blanks around
    /// it.
    pub open spec fn named_by(self, s: Seq<char>) -> bool {
        lowercase(text::trimmed(s)) == self.name()
    }

    /// The state a text names; the message says what was asked for otherwise.
    pub fn from_name(s: &str) -> (r: Result<Self, String>)
        ensures
            match r {
                Ok(state) => state.named_by(s@),
                Err(e) => (forall|state: AgentState| !#[trigger] state.named_by(s@)) && e@
                    == "unknown state "@ + quoted(lowercase(text::trimmed(s@)))
                    + " (want working, blocked, idle, or unknown)"@,
            },
    {
        let kept = text::trim(s);
        let name = to_lowercase(kept.as_str());
        if text::same(name.as_str(), "working") {
            Ok(AgentState::Working)
        } else if text::same(name.as_str(), "blocked") {
            Ok(AgentState::Blocked)
        } else if text::same(name.as_str(), "idle") {
            Ok(AgentState::Idle)
        } else if text::same(name.as_str(), "unknown") {
            Ok(AgentState::Unknown)
        } else {
            let shown = quote(name.as_str());
            Err(
                text::join3(
                    "unknown state ",
                    shown.as_str(),
                    " (want working, blocked, idle, or unknown)",
                ),
            )
        }
    }
}

/// Law: no two states have the same name, so a text names at most one.
pub proof fn law_names_differ(a: AgentState, b: AgentState)
    requires
        a.name() == b.name(),
    ensures
        a == b,
{
    reveal_strlit("working");
    reveal_strlit("blocked");
    reveal_strlit("idle");
    reveal_strlit("unknown");
    assert("working"@[0] == 'w' && "blocked"@[0] == 'b' && "idle"@[0] == 'i' && "unknown"@[0]
        == 'u');
}

/// Client kind, self-reported during the handshake.
#[derive(Debug, Clone, Copy, PartialEq, Eq, Structural)]
pub enum ClientKind {
    Gui,
    Cli,
    /// Remote proxy.
    Proxy,
    /// The terminal UI; only one may hold a session's interactive view.
    Tui,
}

/// Metadata for a single session.
#[derive(Debug, Clone, PartialEq, Eq)]
pub struct SessionInfo {
    pub name: String,
    /// The command running in the session's terminal now.
    pub command: String,
    /// The terminal title as set by the session. Empty when never set.
    pub title: String,
    /// Creation time, Unix epoch milliseconds.
    pub created_ms: u64,
    /// Milliseconds since the session last produced output.
    pub idle_ms: u64,
    /// Whether the session is actively producing output.
    pub running: bool,
    /// What the program on the screen is doing, where the daemon recognizes it.
    pub state: AgentState,
    pub attached_clients: u32,
    /// The session child's process id, or 0 before it is known.
    pub pid: u32,
    pub cols: u16,
    pub rows: u16,
}

/// How much of a session's history a peek should put above the live screen.
#[derive(Debug, Clone, Copy, PartialEq, Eq, Structural)]
pub enum Scrollback {
    /// The live screen only.
    ScreenOnly,
    /// Every line the session still retains.
    All,
    /// At most this many lines above the screen.
    Lines(u32),
}

/// One RGB color reported by a terminal client.
#[derive(Debug, Clone, Copy, PartialEq, Eq, Structural)]
pub struct TerminalColor {
    pub r: u8,
    pub g: u8,
    pub b: u8,
}

/// The host terminal's default colors, where it answered the probes for them.
#[derive(Debug, Clone, Copy, PartialEq, Eq, Structural)]
pub struct TerminalAppearance {
    pub foreground: Option<TerminalColor>,
    pub background: Option<TerminalColor>,
}

impl Default for TerminalAppearance {
    fn default() -> (r: Self)
        ensures
            r == (TerminalAppearance { foreground: None, background: None }),
    {
        TerminalAppearance { foreground: None, background: None }
    }
}

/// How a session's child ended.
#[derive(Debug, Clone, PartialEq, Eq)]
pub struct SessionExit {
    pub code: u32,
    /// The signal that ended it, where one did.
    pub signal: Option<String>,
}

/// One reading of the host's load.
#[derive(Debug, Clone, Copy, PartialEq, Eq, Structural)]
pub struct HostSample {
    pub cpu_pct: u8,
    pub mem_used_bytes: u64,
    pub mem_total_bytes: u64,
    pub net_rx_bps: u64,
    pub net_tx_bps: u64,
    /// How old the reading is.
    pub sampled_age_ms: u64,
}

/// All frames in the current protocol.
///
/// Each side sends its handshake once after connecting, the client first. After
/// `Attach` the daemon replies with `Snapshot`, then streams `Output`.
#[derive(Debug, Clone, PartialEq, Eq)]
#[allow(inconsistent_fields)]
pub enum Frame {
    Hello { proto_version: u32, kind: ClientKind },
    HelloAck { proto_version: u32, daemon_version: String },
    ListSessions,
    SessionList { sessions: Vec<SessionInfo> },
    /// The daemon picks what is omitted; a directory it cannot enter fails the
    /// create.
    Create { name: Option<String>, cmd: Option<String>, cwd: Option<String> },
    Created { name: String },
    /// Terminate a session. There is no success reply.
    Kill { name: String },
    Rename { name: String, new_name: String },
    Attach {
        name: String,
        cols: u16,
        rows: u16,
        /// Identity of this view attempt; zero for a shared client.
        view_id: u64,
        appearance: TerminalAppearance,
        /// Whether the client only watches.
        read_only: bool,
    },
    /// A dump of the screen, for attach and for recovery.
    Snapshot { vt: Vec<u8> },
    /// Raw pty output.
    Output { bytes: Vec<u8> },
    /// Encoded keystrokes.
    Input { bytes: Vec<u8> },
    Resize { cols: u16, rows: u16 },
    Detach,
    /// Request the rows `start..start + count`, row 0 being the oldest line.
    FetchHistory { start: u32, count: u32 },
    History { total_rows: u32, start: u32, rows: Vec<Vec<u8>> },
    /// Request a fresh `Snapshot`.
    Refresh,
    /// Write to a session by name; `enter` adds a carriage return behind.
    SendInput { name: String, bytes: Vec<u8>, enter: bool },
    Ack,
    Peek { name: String, scrollback: Scrollback },
    PeekReply {
        cols: u16,
        rows: u16,
        cursor_col: u16,
        cursor_row: u16,
        title: String,
        screen: Vec<u8>,
    },
    Inspect { name: String },
    InspectReply {
        info: SessionInfo,
        child_pid: u32,
        alt_screen: bool,
        scrollback_rows: u32,
        mouse_tracking: bool,
        mouse_modes: Vec<u16>,
        cursor_col: u16,
        cursor_row: u16,
        cursor_visible: bool,
    },
    /// Stream a session's output on this connection.
    Follow { name: String },
    Unfollow { name: String },
    FollowStatus { running: bool, state: AgentState, idle_ms: u64, exit: Option<SessionExit> },
    /// Another terminal UI took this session's exclusive view.
    ViewRevoked { name: String, view_id: u64 },
    ViewRenamed { old_name: String, new_name: String, view_id: u64 },
    Error { code: u32, msg: String },
    /// Request a reading of the host's load.
    HostMetrics,
    HostMetricsReply { sample: Option<HostSample> },
}

/// Law: a state is known by its name in capitals and small letters alike.
pub proof fn law_state_is_known_by_its_name(state: AgentState, s: Seq<char>)
    requires
        text::trimmed(s) == s,
        s.len() == state.name().len(),
        forall|i: int|
            0 <= i < s.len() ==> (#[trigger] s[i] == state.name()[i] || s[i] as int + 32
                == state.name()[i] as int),
    ensures
        state.named_by(s),
{
    reveal_strlit("working");
    reveal_strlit("blocked");
    reveal_strlit("idle");
    reveal_strlit("unknown");
    let name = state.name();
    assert forall|i: int| 0 <= i < s.len() implies lowered(#[trigger] s[i]) == name[i] by {
        assert('a' <= name[i] <= 'z');
    }
    assert(lowercase(s) =~= name);
}

} // verus!
