//! One host's connection: what is said to the daemon, what its answers mean, and
//! which of them reach the terminal.
//!
//! The connection is driven by events and answers each with what is to be done,
//! in order; writing, reading and the terminal itself are left to whoever runs
//! it.
use crate::gui::model::{HostId, HostState, StateView};
use crate::gui::vt::{KeyEvent, KeyPress, RenderSnapshot};
use crate::proto::code;
use crate::proto::frames;
use crate::proto::frames::FrameView;
use crate::proto::{ClientKind, Frame, SessionInfo, TerminalAppearance, PROTO_VERSION};
use crate::text;
use vstd::prelude::*;
use vstd::string::*;

verus! {

/// Scrollback kept by each attached terminal.
pub const SCROLLBACK: usize = 10_000;

/// How often each host's session list is asked for again, in milliseconds.
pub const LIST_INTERVAL_MS: u64 = 1500;

/// What the supervisor tells a single host.
#[derive(Debug, Clone, PartialEq, Eq)]
#[allow(inconsistent_fields)]
pub enum HostCmd {
    /// Attach to a session, or switch to it, with a view of this size.
    Attach { name: String, cols: u16, rows: u16 },
    /// Stop viewing the current session; stay connected for the list.
    Detach,
    Key(KeyEvent),
    Resize { cols: u16, rows: u16 },
    /// Create a session; the daemon names it.
    Create,
    Kill { name: String },
    /// Set the scrollback offset; 0 follows live output.
    Scroll(usize),
    /// Disconnect and end.
    Shutdown,
}

/// What the supervisor tells a single host, by view.
#[allow(inconsistent_fields)]
pub enum HostCmdView {
    Attach { name: Seq<char>, cols: u16, rows: u16 },
    Detach,
    Key(KeyPress),
    Resize { cols: u16, rows: u16 },
    Create,
    Kill { name: Seq<char> },
    Scroll(usize),
    Shutdown,
}

impl View for HostCmd {
    type V = HostCmdView;

    open spec fn view(&self) -> HostCmdView {
        match self {
            HostCmd::Attach { name, cols, rows } => HostCmdView::Attach {
                name: name@,
                cols: *cols,
                rows: *rows,
            },
            HostCmd::Detach => HostCmdView::Detach,
            HostCmd::Key(k) => HostCmdView::Key(k@),
            HostCmd::Resize { cols, rows } => HostCmdView::Resize { cols: *cols, rows: *rows },
            HostCmd::Create => HostCmdView::Create,
            HostCmd::Kill { name } => HostCmdView::Kill { name: name@ },
            HostCmd::Scroll(n) => HostCmdView::Scroll(*n),
            HostCmd::Shutdown => HostCmdView::Shutdown,
        }
    }
}

/// What a host tells the window, with the host's id.
#[derive(Debug, Clone, PartialEq, Eq)]
#[allow(inconsistent_fields)]
pub enum UiEvent {
    State { host: HostId, state: HostState },
    Sessions { host: HostId, sessions: Vec<SessionInfo> },
    /// A session that was asked for exists now.
    Created { host: HostId, name: String },
    /// A session's screen.
    Frame {
        host: HostId,
        /// The session this is the screen of; a window that has moved on drops it.
        name: String,
        snap: Box<RenderSnapshot>,
        /// Whether the program in the session is tracking the mouse.
        session_wants_mouse: bool,
        /// The absolute row of the viewport's top, 0 being the oldest line of the
        /// scrollback.
        base: usize,
    },
    SessionEnded { host: HostId, name: String, msg: String },
}

/// What a host tells the window, by view.
#[allow(inconsistent_fields)]
pub enum UiEventView {
    State { host: HostId, state: StateView },
    Sessions { host: HostId, sessions: Seq<SessionInfo> },
    Created { host: HostId, name: Seq<char> },
    Frame {
        host: HostId,
        name: Seq<char>,
        snap: RenderSnapshot,
        session_wants_mouse: bool,
        base: usize,
    },
    SessionEnded { host: HostId, name: Seq<char>, msg: Seq<char> },
}

impl View for UiEvent {
    type V = UiEventView;

    open spec fn view(&self) -> UiEventView {
        match self {
            UiEvent::State { host, state } => UiEventView::State { host: *host, state: state@ },
            UiEvent::Sessions { host, sessions } => UiEventView::Sessions {
                host: *host,
                sessions: sessions@,
            },
            UiEvent::Created { host, name } => UiEventView::Created { host: *host, name: name@ },
            UiEvent::Frame { host, name, snap, session_wants_mouse, base } => UiEventView::Frame {
                host: *host,
                name: name@,
                snap: **snap,
                session_wants_mouse: *session_wants_mouse,
                base: *base,
            },
            UiEvent::SessionEnded { host, name, msg } => UiEventView::SessionEnded {
                host: *host,
                name: name@,
                msg: msg@,
            },
        }
    }
}

/// What happens to a connection.
#[derive(Debug)]
#[allow(inconsistent_fields)]
pub enum ConnEvent {
    /// It is time to ask for the session list.
    Tick,
    /// The daemon said something.
    Received(Frame),
    /// The daemon closed the connection, or what it sent cannot be read.
    Closed,
    /// The supervisor said something.
    Told(HostCmd),
    /// The supervisor is gone.
    Untold,
    /// The terminal encoded a key.
    Encoded(Vec<u8>),
    /// The terminal was read, with this many rows of scrollback.
    Shown { snap: Box<RenderSnapshot>, wants_mouse: bool, scrollback_rows: usize },
}

/// What happens to a connection, by view.
#[allow(inconsistent_fields)]
pub enum EventView {
    Tick,
    Received(Frame),
    Closed,
    Told(HostCmdView),
    Untold,
    Encoded(Seq<u8>),
    Shown { snap: RenderSnapshot, wants_mouse: bool, scrollback_rows: usize },
}

impl View for ConnEvent {
    type V = EventView;

    open spec fn view(&self) -> EventView {
        match self {
            ConnEvent::Tick => EventView::Tick,
            ConnEvent::Received(f) => EventView::Received(*f),
            ConnEvent::Closed => EventView::Closed,
            ConnEvent::Told(c) => EventView::Told(c@),
            ConnEvent::Untold => EventView::Untold,
            ConnEvent::Encoded(b) => EventView::Encoded(b@),
            ConnEvent::Shown { snap, wants_mouse, scrollback_rows } => EventView::Shown {
                snap: **snap,
                wants_mouse: *wants_mouse,
                scrollback_rows: *scrollback_rows,
            },
        }
    }
}

/// What is to be done for a connection.
#[derive(Debug)]
#[allow(inconsistent_fields)]
pub enum Action {
    /// Send a frame. Where that fails and a reason is given, the connection ends
    /// with the reason, and what would come behind is not done.
    Write { frame: Frame, or_end: Option<&'static str> },
    /// Tell the window.
    Emit(UiEvent),
    /// Make a new terminal of this size, in place of any there is.
    Open { cols: u16, rows: u16 },
    /// Drop the terminal.
    Drop,
    /// Hand bytes to the terminal, and drop what it answers.
    Feed(Vec<u8>),
    /// Give the terminal another size.
    Fit { cols: u16, rows: u16 },
    /// Have the terminal encode a key.
    Encode(KeyEvent),
    /// Scroll the terminal to this offset and read it.
    Show { scroll: usize },
    /// End the connection, with the reason where it ends abnormally.
    End(Option<String>),
}

/// What is to be done for a connection, by view.
#[allow(inconsistent_fields)]
pub enum ActionView {
    Write { frame: FrameView, or_end: Option<Seq<char>> },
    Emit(UiEventView),
    Open { cols: u16, rows: u16 },
    Drop,
    Feed(Seq<u8>),
    Fit { cols: u16, rows: u16 },
    Encode(KeyPress),
    Show { scroll: usize },
    End(Option<Seq<char>>),
}

impl View for Action {
    type V = ActionView;

    open spec fn view(&self) -> ActionView {
        match self {
            Action::Write { frame, or_end } => ActionView::Write {
                frame: frames::frame_view(*frame),
                or_end: match or_end {
                    Some(s) => Some(s@),
                    None => None,
                },
            },
            Action::Emit(e) => ActionView::Emit(e@),
            Action::Open { cols, rows } => ActionView::Open { cols: *cols, rows: *rows },
            Action::Drop => ActionView::Drop,
            Action::Feed(b) => ActionView::Feed(b@),
            Action::Fit { cols, rows } => ActionView::Fit { cols: *cols, rows: *rows },
            Action::Encode(k) => ActionView::Encode(k@),
            Action::Show { scroll } => ActionView::Show { scroll: *scroll },
            Action::End(s) => ActionView::End(
                match s {
                    Some(t) => Some(t@),
                    None => None,
                },
            ),
        }
    }
}

/// What is to be done, by view.
pub open spec fn actions(v: Seq<Action>) -> Seq<ActionView> {
    v.map_values(|a: Action| a@)
}

/// One host's connection. A terminal exists exactly while a session is attached.
#[derive(Debug)]
pub struct Connection {
    pub id: HostId,
    /// Whether the handshake is behind.
    pub up: bool,
    /// The session on view.
    pub attached: Option<String>,
    /// Attaches asked for whose screen has not arrived yet. While there are any,
    /// output belongs to a session already left; while there is more than one, an
    /// arriving screen belongs to an attach that was superseded.
    pub pending_attach: usize,
    /// The scrollback offset; 0 follows live output.
    pub scroll: usize,
}

/// One host's connection, by view.
#[verifier::ext_equal]
pub struct ConnectionState {
    pub id: HostId,
    pub up: bool,
    pub attached: Option<Seq<char>>,
    pub pending_attach: usize,
    pub scroll: usize,
}

impl View for Connection {
    type V = ConnectionState;

    open spec fn view(&self) -> ConnectionState {
        ConnectionState {
            id: self.id,
            up: self.up,
            attached: match self.attached {
                Some(n) => Some(n@),
                None => None,
            },
            pending_attach: self.pending_attach,
            scroll: self.scroll,
        }
    }
}

/// A frame to be sent whatever comes of it.
pub open spec fn try_write(frame: FrameView) -> ActionView {
    ActionView::Write { frame, or_end: None }
}

/// A frame that must be sent.
pub open spec fn must_write(frame: FrameView, reason: Seq<char>) -> ActionView {
    ActionView::Write { frame, or_end: Some(reason) }
}

/// At least one.
pub open spec fn one_or(n: u16) -> u16 {
    if n == 0 {
        1
    } else {
        n
    }
}

/// What opens a connection: the handshake.
pub open spec fn greeting() -> Seq<ActionView> {
    seq![
        must_write(
            FrameView::Hello { proto_version: PROTO_VERSION, kind: ClientKind::Gui },
            "handshake write failed"@,
        ),
    ]
}

impl ConnectionState {
    /// The answer to the first frame: the daemon greets back, or the connection
    /// ends.
    pub open spec fn greeted(self, frame: Frame) -> (ConnectionState, Seq<ActionView>) {
        match frame {
            Frame::HelloAck { .. } => (
                ConnectionState { up: true, ..self },
                seq![ActionView::Emit(UiEventView::State { host: self.id, state: StateView::Up })],
            ),
            Frame::Error { code, msg } => (
                self,
                seq![
                    ActionView::End(
                        Some(
                            "handshake rejected ("@ + text::decimal_text(code as nat) + "): "@
                                + msg@,
                        ),
                    ),
                ],
            ),
            _ => (self, seq![ActionView::End(Some("no handshake ack"@))]),
        }
    }

    /// The answer to a frame behind the handshake.
    pub open spec fn received(self, frame: Frame) -> (ConnectionState, Seq<ActionView>) {
        match frame {
            Frame::SessionList { sessions } => (
                self,
                seq![
                    ActionView::Emit(
                        UiEventView::Sessions { host: self.id, sessions: sessions@ },
                    ),
                ],
            ),
            Frame::Snapshot { vt } => if self.pending_attach > 1 {
                (
                    ConnectionState {
                        pending_attach: (self.pending_attach - 1) as usize,
                        ..self
                    },
                    Seq::empty(),
                )
            } else {
                (ConnectionState { pending_attach: 0, ..self }, self.fed(vt@))
            },
            Frame::Output { bytes } => (
                self,
                if self.pending_attach > 0 {
                    Seq::empty()
                } else {
                    self.fed(bytes@)
                },
            ),
            Frame::Created { name } => (
                self,
                seq![
                    ActionView::Emit(UiEventView::Created { host: self.id, name: name@ }),
                    try_write(FrameView::ListSessions),
                ],
            ),
            Frame::Error { code, msg } => if code == code::SESSION_EXITED {
                match self.attached {
                    Some(name) => if self.pending_attach == 0 {
                        (
                            ConnectionState { attached: None, ..self },
                            seq![
                                ActionView::Drop,
                                ActionView::Emit(
                                    UiEventView::SessionEnded { host: self.id, name, msg: msg@ },
                                ),
                            ],
                        )
                    } else {
                        (self, Seq::empty())
                    },
                    None => (self, Seq::empty()),
                }
            } else if code == code::NO_SUCH_SESSION && self.pending_attach > 0 {
                (
                    ConnectionState {
                        pending_attach: (self.pending_attach - 1) as usize,
                        ..self
                    },
                    Seq::empty(),
                )
            } else {
                (self, Seq::empty())
            },
            _ => (self, Seq::empty()),
        }
    }

    /// Bytes for the terminal, and its screen read; nothing without a terminal.
    pub open spec fn fed(self, bytes: Seq<u8>) -> Seq<ActionView> {
        if self.attached is Some {
            seq![ActionView::Feed(bytes), ActionView::Show { scroll: self.scroll }]
        } else {
            Seq::empty()
        }
    }

    /// Leaving the session on view, if there is one.
    pub open spec fn left(self) -> Seq<ActionView> {
        if self.attached is Some {
            seq![try_write(FrameView::Detach)]
        } else {
            Seq::empty()
        }
    }

    /// The answer to the supervisor.
    pub open spec fn told(self, cmd: HostCmdView) -> (ConnectionState, Seq<ActionView>) {
        match cmd {
            HostCmdView::Attach { name, cols, rows } => (
                ConnectionState {
                    attached: Some(name),
                    pending_attach: (self.pending_attach + 1) as usize,
                    scroll: 0,
                    ..self
                },
                self.left() + seq![
                    ActionView::Open { cols: one_or(cols), rows: one_or(rows) },
                    must_write(
                        FrameView::Attach {
                            name,
                            cols,
                            rows,
                            view_id: 0,
                            appearance: TerminalAppearance { foreground: None, background: None },
                            read_only: false,
                        },
                        "attach write failed"@,
                    ),
                ],
            ),
            HostCmdView::Detach => (
                ConnectionState { attached: None, ..self },
                self.left() + seq![ActionView::Drop],
            ),
            HostCmdView::Key(k) => (
                self,
                if self.attached is Some {
                    seq![ActionView::Encode(k)]
                } else {
                    Seq::empty()
                },
            ),
            HostCmdView::Resize { cols, rows } => (
                self,
                if self.attached is Some {
                    seq![
                        ActionView::Fit { cols: one_or(cols), rows: one_or(rows) },
                        must_write(FrameView::Resize { cols, rows }, "resize write failed"@),
                        ActionView::Show { scroll: self.scroll },
                    ]
                } else {
                    Seq::empty()
                },
            ),
            HostCmdView::Create => (
                self,
                seq![
                    must_write(
                        FrameView::Create { name: None, cmd: None, cwd: None },
                        "create write failed"@,
                    ),
                ],
            ),
            HostCmdView::Kill { name } => (
                self,
                seq![
                    must_write(FrameView::Kill { name }, "kill write failed"@),
                    try_write(FrameView::ListSessions),
                ],
            ),
            HostCmdView::Scroll(lines) => (
                ConnectionState { scroll: lines, ..self },
                if self.attached is Some {
                    seq![ActionView::Show { scroll: lines }]
                } else {
                    Seq::empty()
                },
            ),
            HostCmdView::Shutdown => (self, self.left() + seq![ActionView::End(None)]),
        }
    }

    /// The answer to an event. Before the daemon has greeted back, only its answer
    /// counts.
    pub open spec fn stepped(self, event: EventView) -> (ConnectionState, Seq<ActionView>) {
        match event {
            EventView::Received(frame) if !self.up => self.greeted(frame),
            EventView::Closed if !self.up => (
                self,
                seq![ActionView::End(Some("no handshake ack"@))],
            ),
            _ if !self.up => (self, Seq::empty()),
            EventView::Tick => (
                self,
                seq![must_write(FrameView::ListSessions, "list write failed"@)],
            ),
            EventView::Received(frame) => self.received(frame),
            EventView::Closed => (
                self,
                seq![ActionView::End(Some("connection closed"@))],
            ),
            EventView::Told(cmd) => self.told(cmd),
            EventView::Untold => self.told(HostCmdView::Shutdown),
            EventView::Encoded(bytes) => (
                self,
                if bytes.len() > 0 {
                    seq![must_write(FrameView::Input { bytes }, "input write failed"@)]
                } else {
                    Seq::empty()
                },
            ),
            EventView::Shown { snap, wants_mouse, scrollback_rows } => (
                self,
                seq![
                    ActionView::Emit(
                        UiEventView::Frame {
                            host: self.id,
                            name: match self.attached {
                                Some(n) => n,
                                None => Seq::empty(),
                            },
                            snap,
                            session_wants_mouse: wants_mouse,
                            base: if scrollback_rows < self.scroll {
                                0
                            } else {
                                (scrollback_rows - self.scroll) as usize
                            },
                        },
                    ),
                ],
            ),
        }
    }
}

/// A size of at least one.
fn at_least_one(n: u16) -> (r: u16)
    ensures
        r == one_or(n),
{
    if n == 0 {
        1
    } else {
        n
    }
}

proof fn lemma_actions_push(v: Seq<Action>, a: Action)
    ensures
        actions(v.push(a)) == actions(v).push(a@),
{
    assert(actions(v.push(a)) =~= actions(v).push(a@));
}

/// Nothing to do.
fn nothing() -> (r: Vec<Action>)
    ensures
        actions(r@) == Seq::<ActionView>::empty(),
{
    let v: Vec<Action> = Vec::new();
    assert(actions(v@) =~= Seq::empty());
    v
}

/// One thing to do.
fn only(a: Action) -> (r: Vec<Action>)
    ensures
        actions(r@) == seq![a@],
{
    let mut v: Vec<Action> = Vec::new();
    v.push(a);
    assert(actions(v@) =~= seq![a@]);
    v
}

/// Two things to do.
fn both(a: Action, b: Action) -> (r: Vec<Action>)
    ensures
        actions(r@) == seq![a@, b@],
{
    let mut v: Vec<Action> = Vec::new();
    v.push(a);
    v.push(b);
    assert(actions(v@) =~= seq![a@, b@]);
    v
}

impl Connection {
    /// A connection whose handshake is ahead, and how it opens.
    pub fn new(id: HostId) -> (r: (Connection, Vec<Action>))
        ensures
            r.0@ == (ConnectionState {
                id,
                up: false,
                attached: None,
                pending_attach: 0,
                scroll: 0,
            }),
            actions(r.1@) == greeting(),
    {
        let conn = Connection { id, up: false, attached: None, pending_attach: 0, scroll: 0 };
        let hello = only(
            Action::Write {
                frame: Frame::Hello { proto_version: PROTO_VERSION, kind: ClientKind::Gui },
                or_end: Some("handshake write failed"),
            },
        );
        (conn, hello)
    }

    /// The first frame.
    fn greet(&mut self, frame: Frame) -> (r: Vec<Action>)
        ensures
            (final(self)@, actions(r@)) == old(self)@.greeted(frame),
    {
        match frame {
            Frame::HelloAck { .. } => {
                self.up = true;
                only(Action::Emit(UiEvent::State { host: self.id, state: HostState::Up }))
            },
            Frame::Error { code, msg } => {
                let number = text::decimal(code as u64);
                let mut reason = text::join3("handshake rejected (", number.as_str(), "): ");
                reason.append(msg.as_str());
                only(Action::End(Some(reason)))
            },
            _ => only(Action::End(Some("no handshake ack".to_owned()))),
        }
    }

    /// Bytes for the terminal, if there is one.
    fn feed(&self, bytes: Vec<u8>) -> (r: Vec<Action>)
        ensures
            actions(r@) == self@.fed(bytes@),
    {
        if self.attached.is_some() {
            both(Action::Feed(bytes), Action::Show { scroll: self.scroll })
        } else {
            nothing()
        }
    }

    /// A frame behind the handshake.
    fn receive(&mut self, frame: Frame) -> (r: Vec<Action>)
        ensures
            (final(self)@, actions(r@)) == old(self)@.received(frame),
    {
        match frame {
            Frame::SessionList { sessions } => only(
                Action::Emit(UiEvent::Sessions { host: self.id, sessions }),
            ),
            Frame::Snapshot { vt } => {
                if self.pending_attach > 1 {
                    self.pending_attach = self.pending_attach - 1;
                    return nothing();
                }
                self.pending_attach = 0;
                self.feed(vt)
            },
            Frame::Output { bytes } => {
                if self.pending_attach > 0 {
                    return nothing();
                }
                self.feed(bytes)
            },
            Frame::Created { name } => both(
                Action::Emit(UiEvent::Created { host: self.id, name }),
                Action::Write { frame: Frame::ListSessions, or_end: None },
            ),
            Frame::Error { code, msg } => {
                if code == code::SESSION_EXITED {
                    if self.pending_attach == 0 {
                        if let Some(name) = self.attached.take() {
                            return both(
                                Action::Drop,
                                Action::Emit(UiEvent::SessionEnded { host: self.id, name, msg }),
                            );
                        }
                    }
                } else if code == code::NO_SUCH_SESSION && self.pending_attach > 0 {
                    self.pending_attach = self.pending_attach - 1;
                }
                nothing()
            },
            _ => nothing(),
        }
    }

    /// The answer to the supervisor.
    fn tell(&mut self, cmd: HostCmd) -> (r: Vec<Action>)
        requires
            cmd is Attach ==> old(self)@.pending_attach < usize::MAX,
        ensures
            (final(self)@, actions(r@)) == old(self)@.told(cmd@),
    {
        match cmd {
            HostCmd::Attach { name, cols, rows } => {
                let mut todo = self.leave();
                let ghost t0 = todo@;
                let open = Action::Open { cols: at_least_one(cols), rows: at_least_one(rows) };
                let attach = Action::Write {
                    frame: Frame::Attach {
                        name: name.clone(),
                        cols,
                        rows,
                        view_id: 0,
                        appearance: TerminalAppearance { foreground: None, background: None },
                        read_only: false,
                    },
                    or_end: Some("attach write failed"),
                };
                proof {
                    lemma_actions_push(t0, open);
                    lemma_actions_push(t0.push(open), attach);
                }
                todo.push(open);
                todo.push(attach);
                self.scroll = 0;
                self.pending_attach = self.pending_attach + 1;
                self.attached = Some(name);
                assert(actions(todo@) =~= actions(t0) + seq![open@, attach@]);
                todo
            },
            HostCmd::Detach => {
                let mut todo = self.leave();
                proof {
                    lemma_actions_push(todo@, Action::Drop);
                }
                let ghost t0 = todo@;
                todo.push(Action::Drop);
                self.attached = None;
                assert(actions(todo@) =~= actions(t0) + seq![ActionView::Drop]);
                todo
            },
            HostCmd::Key(ev) => {
                if self.attached.is_some() {
                    only(Action::Encode(ev))
                } else {
                    nothing()
                }
            },
            HostCmd::Resize { cols, rows } => {
                if self.attached.is_some() {
                    let mut todo = both(
                        Action::Fit { cols: at_least_one(cols), rows: at_least_one(rows) },
                        Action::Write {
                            frame: Frame::Resize { cols, rows },
                            or_end: Some("resize write failed"),
                        },
                    );
                    let ghost t0 = todo@;
                    let show = Action::Show { scroll: self.scroll };
                    proof {
                        lemma_actions_push(t0, show);
                    }
                    todo.push(show);
                    assert(actions(todo@) =~= self@.told(cmd@).1);
                    todo
                } else {
                    nothing()
                }
            },
            HostCmd::Create => only(
                Action::Write {
                    frame: Frame::Create { name: None, cmd: None, cwd: None },
                    or_end: Some("create write failed"),
                },
            ),
            HostCmd::Kill { name } => both(
                Action::Write { frame: Frame::Kill { name }, or_end: Some("kill write failed") },
                Action::Write { frame: Frame::ListSessions, or_end: None },
            ),
            HostCmd::Scroll(lines) => {
                self.scroll = lines;
                if self.attached.is_some() {
                    only(Action::Show { scroll: lines })
                } else {
                    nothing()
                }
            },
            HostCmd::Shutdown => {
                let mut todo = self.leave();
                proof {
                    lemma_actions_push(todo@, Action::End(None));
                }
                let ghost t0 = todo@;
                todo.push(Action::End(None));
                assert(actions(todo@) =~= actions(t0) + seq![ActionView::End(None)]);
                todo
            },
        }
    }

    /// Leaving the session on view, if there is one.
    fn leave(&self) -> (r: Vec<Action>)
        ensures
            actions(r@) == self@.left(),
    {
        if self.attached.is_some() {
            only(Action::Write { frame: Frame::Detach, or_end: None })
        } else {
            nothing()
        }
    }

    /// What is to be done about an event.
    pub fn step(&mut self, event: ConnEvent) -> (r: Vec<Action>)
        requires
            event matches ConnEvent::Told(HostCmd::Attach { .. }) ==> old(self)@.pending_attach
                < usize::MAX,
        ensures
            (final(self)@, actions(r@)) == old(self)@.stepped(event@),
    {
        if !self.up {
            return match event {
                ConnEvent::Received(frame) => self.greet(frame),
                ConnEvent::Closed => only(Action::End(Some("no handshake ack".to_owned()))),
                _ => nothing(),
            };
        }
        match event {
            ConnEvent::Tick => only(
                Action::Write { frame: Frame::ListSessions, or_end: Some("list write failed") },
            ),
            ConnEvent::Received(frame) => self.receive(frame),
            ConnEvent::Closed => only(Action::End(Some("connection closed".to_owned()))),
            ConnEvent::Told(cmd) => self.tell(cmd),
            ConnEvent::Untold => self.tell(HostCmd::Shutdown),
            ConnEvent::Encoded(bytes) => {
                if bytes.len() > 0 {
                    only(
                        Action::Write {
                            frame: Frame::Input { bytes },
                            or_end: Some("input write failed"),
                        },
                    )
                } else {
                    nothing()
                }
            },
            ConnEvent::Shown { snap, wants_mouse, scrollback_rows } => {
                let base: usize = if scrollback_rows < self.scroll {
                    0
                } else {
                    scrollback_rows - self.scroll
                };
                let name = match &self.attached {
                    Some(n) => n.clone(),
                    None => String::new(),
                };
                only(
                    Action::Emit(
                        UiEvent::Frame {
                            host: self.id,
                            name,
                            snap,
                            session_wants_mouse: wants_mouse,
                            base,
                        },
                    ),
                )
            },
        }
    }
}

/// The state and what is done after a run of screens from the daemon.
pub open spec fn after_screens(c: ConnectionState, screens: Seq<Vec<u8>>) -> (
    ConnectionState,
    Seq<ActionView>,
)
    decreases screens.len(),
{
    if screens.len() == 0 {
        (c, Seq::empty())
    } else {
        let (before, done) = after_screens(c, screens.drop_last());
        let (after, more) = before.received(Frame::Snapshot { vt: screens.last() });
        (after, done + more)
    }
}

proof fn lemma_superseded(c: ConnectionState, screens: Seq<Vec<u8>>)
    requires
        screens.len() < c.pending_attach,
    ensures
        after_screens(c, screens) == (
            ConnectionState {
                pending_attach: (c.pending_attach - screens.len()) as usize,
                ..c
            },
            Seq::<ActionView>::empty(),
        ),
    decreases screens.len(),
{
    if screens.len() > 0 {
        lemma_superseded(c, screens.drop_last());
        assert(Seq::<ActionView>::empty() + Seq::<ActionView>::empty() =~= Seq::<
            ActionView,
        >::empty());
    }
}

/// Law: however often the session was switched before the daemon answered, of
/// the screens that come in turn only the last is shown.
pub proof fn law_only_the_last_screen_is_shown(c: ConnectionState, screens: Seq<Vec<u8>>)
    requires
        c.attached is Some,
        screens.len() == c.pending_attach,
        screens.len() > 0,
    ensures
        after_screens(c, screens) == (
            ConnectionState { pending_attach: 0, ..c },
            seq![
                ActionView::Feed(screens.last()@),
                ActionView::Show { scroll: c.scroll },
            ],
        ),
{
    lemma_superseded(c, screens.drop_last());
    let (before, done) = after_screens(c, screens.drop_last());
    let more = before.received(Frame::Snapshot { vt: screens.last() }).1;
    assert(done + more =~= more);
}

/// Law: output that comes before an attach is answered belongs to a session
/// already left, and is dropped.
pub proof fn law_output_of_a_left_session_is_dropped(c: ConnectionState, bytes: Vec<u8>)
    requires
        c.pending_attach > 0,
    ensures
        c.received(Frame::Output { bytes }) == (c, Seq::<ActionView>::empty()),
{
}

/// Law: an exit that comes before an attach is answered belongs to a session
/// already left, and does not end the new one.
pub proof fn law_exit_of_a_left_session_is_dropped(c: ConnectionState, msg: String)
    requires
        c.pending_attach > 0,
    ensures
        c.received(Frame::Error { code: code::SESSION_EXITED, msg }) == (
            c,
            Seq::<ActionView>::empty(),
        ),
{
}

/// Law: an attach that the daemon refuses leaves as many screens to wait for as
/// there were before it.
pub proof fn law_refused_attach_is_forgotten(
    c: ConnectionState,
    name: Seq<char>,
    cols: u16,
    rows: u16,
    msg: String,
)
    requires
        c.pending_attach < usize::MAX,
    ensures
        c.told(HostCmdView::Attach { name, cols, rows }).0.received(
            Frame::Error { code: code::NO_SUCH_SESSION, msg },
        ).0.pending_attach == c.pending_attach,
{
}

/// Whether an action needs the terminal.
pub open spec fn needs_terminal(a: ActionView) -> bool {
    a is Feed || a is Fit || a is Encode || a is Show
}

/// Law: with no session on view, nothing reaches the terminal.
pub proof fn law_no_terminal_without_a_session(c: ConnectionState, event: EventView, i: int)
    requires
        c.attached is None,
        0 <= i < c.stepped(event).1.len(),
    ensures
        !needs_terminal(c.stepped(event).1[i]),
{
}

/// Law: until the daemon has greeted back, no frame does more than end the
/// connection or bring it up, and only a greeting brings it up.
pub proof fn law_nothing_before_the_greeting(c: ConnectionState, frame: Frame)
    requires
        !c.up,
    ensures
        ({
            let (after, todo) = c.stepped(EventView::Received(frame));
            &&& after == ConnectionState { up: frame is HelloAck, ..c }
            &&& todo.len() == 1
            &&& frame is HelloAck ==> todo[0] == ActionView::Emit(
                UiEventView::State { host: c.id, state: StateView::Up },
            )
            &&& !(frame is HelloAck) ==> todo[0] is End
        }),
{
}

/// The state and what is done after a run of events.
pub open spec fn after_events(c: ConnectionState, events: Seq<EventView>) -> (
    ConnectionState,
    Seq<ActionView>,
)
    decreases events.len(),
{
    if events.len() == 0 {
        (c, Seq::empty())
    } else {
        let (before, done) = after_events(c, events.drop_last());
        let (after, more) = before.stepped(events.last());
        (after, done + more)
    }
}

/// Law: until the daemon has greeted back, no frame is written behind the one that
/// opens the connection, whatever happens; the connection can only end.
pub proof fn law_the_handshake_comes_first(c: ConnectionState, events: Seq<EventView>)
    requires
        !c.up,
        !after_events(c, events).0.up,
    ensures
        after_events(c, events).0 == c,
        forall|i: int|
            0 <= i < after_events(c, events).1.len() ==> #[trigger] after_events(
                c,
                events,
            ).1[i] is End,
    decreases events.len(),
{
    if events.len() > 0 {
        let (before, done) = after_events(c, events.drop_last());
        let (after, more) = before.stepped(events.last());
        law_the_handshake_comes_first(c, events.drop_last());
        assert forall|i: int| 0 <= i < (done + more).len() implies #[trigger] (done + more)[i]
            is End by {
            if i < done.len() {
                assert((done + more)[i] == done[i]);
            }
        }
    }
}

/// Law: switching to another session leaves the one on view first, and starts
/// at the bottom.
pub proof fn law_switch_detaches_first(
    c: ConnectionState,
    name: Seq<char>,
    cols: u16,
    rows: u16,
)
    requires
        c.attached is Some,
    ensures
        ({
            let (after, todo) = c.told(HostCmdView::Attach { name, cols, rows });
            todo[0] == try_write(FrameView::Detach) && after.attached == Some(name) && after.scroll
                == 0
        }),
{
}

/// Law: what the daemon says is passed on to the window under the host's id: its
/// list of sessions, and the name of one it created, after which the list is asked
/// for anew. Nothing changes by it.
pub proof fn law_daemon_is_heard(c: ConnectionState, sessions: Vec<SessionInfo>, name: String)
    requires
        c.up,
    ensures
        c.stepped(EventView::Received(Frame::SessionList { sessions })) == (
            c,
            seq![ActionView::Emit(UiEventView::Sessions { host: c.id, sessions: sessions@ })],
        ),
        c.stepped(EventView::Received(Frame::Created { name })) == (
            c,
            seq![
                ActionView::Emit(UiEventView::Created { host: c.id, name: name@ }),
                ActionView::Write { frame: FrameView::ListSessions, or_end: None },
            ],
        ),
{
}

/// Law: with a session on view whose screen has come, every output is shown: it
/// goes to the terminal, whose screen is read at the same scroll.
pub proof fn law_output_is_shown(c: ConnectionState, bytes: Vec<u8>)
    requires
        c.up,
        c.attached is Some,
        c.pending_attach == 0,
    ensures
        c.stepped(EventView::Received(Frame::Output { bytes })) == (
            c,
            seq![ActionView::Feed(bytes@), ActionView::Show { scroll: c.scroll }],
        ),
{
}

/// Law: the exit of the session on view ends it: its terminal is dropped and the
/// window is told which session ended, and why.
pub proof fn law_exit_ends_the_session(c: ConnectionState, name: Seq<char>, msg: String)
    requires
        c.up,
        c.attached == Some(name),
        c.pending_attach == 0,
    ensures
        ({
            let (after, todo) = c.stepped(
                EventView::Received(Frame::Error { code: code::SESSION_EXITED, msg }),
            );
            &&& after.attached is None && after.up && after.pending_attach == 0
            &&& todo == seq![
                ActionView::Drop,
                ActionView::Emit(UiEventView::SessionEnded { host: c.id, name, msg: msg@ }),
            ]
        }),
{
}

/// Law: what the terminal shows is passed on with the session's name and the row its
/// top stands on: so many rows above the last screen as the view is scrolled up.
pub proof fn law_screen_is_passed_on(
    c: ConnectionState,
    name: Seq<char>,
    snap: RenderSnapshot,
    wants_mouse: bool,
    scrollback_rows: usize,
)
    requires
        c.up,
        c.attached == Some(name),
    ensures
        ({
            let (after, todo) = c.stepped(
                EventView::Shown { snap, wants_mouse, scrollback_rows },
            );
            &&& after == c
            &&& todo.len() == 1
            &&& todo[0] matches ActionView::Emit(UiEventView::Frame {
                host,
                name: of,
                snap: shown,
                session_wants_mouse,
                base,
            }) && {
                &&& host == c.id && of == name && shown == snap
                &&& session_wants_mouse == wants_mouse
                &&& scrollback_rows >= c.scroll ==> base + c.scroll == scrollback_rows
                &&& scrollback_rows < c.scroll ==> base == 0
            }
        }),
{
}

/// Law: a key goes to the terminal to be encoded, and what comes of it to the
/// session, unless nothing does.
pub proof fn law_key_becomes_input(c: ConnectionState, k: KeyPress, bytes: Seq<u8>)
    requires
        c.up,
        c.attached is Some,
    ensures
        c.stepped(EventView::Told(HostCmdView::Key(k))) == (c, seq![ActionView::Encode(k)]),
        c.stepped(EventView::Encoded(bytes)).0 == c,
        bytes.len() > 0 ==> c.stepped(EventView::Encoded(bytes)).1 == seq![
            ActionView::Write {
                frame: FrameView::Input { bytes },
                or_end: Some("input write failed"@),
            },
        ],
        bytes.len() == 0 ==> c.stepped(EventView::Encoded(bytes)).1.len() == 0,
{
}

/// Law: attaching asks the daemon for the session by its name, at the pane's size,
/// and opens a terminal of that size, or of one cell where it is smaller; it starts
/// at the bottom and waits for one more screen. Leaving drops the terminal and still
/// waits for the screens that were asked for.
pub proof fn law_attach_and_leave(c: ConnectionState, name: Seq<char>, cols: u16, rows: u16)
    requires
        c.up,
        c.pending_attach < usize::MAX,
    ensures
        ({
            let (after, todo) = c.stepped(
                EventView::Told(HostCmdView::Attach { name, cols, rows }),
            );
            let n = todo.len() as int;
            &&& after.attached == Some(name) && after.scroll == 0
            &&& after.pending_attach == c.pending_attach + 1
            &&& n >= 2
            &&& todo[n - 2] matches ActionView::Open { cols: wide, rows: high } && (cols > 0
                ==> wide == cols) && (rows > 0 ==> high == rows) && (cols == 0 ==> wide == 1)
                && (rows == 0 ==> high == 1)
            &&& todo[n - 1] matches ActionView::Write {
                frame: FrameView::Attach { name: asked, cols: w, rows: h, read_only, .. },
                or_end,
            } && asked == name && w == cols && h == rows && !read_only && or_end is Some
            &&& c.attached is None ==> n == 2
        }),
        ({
            let (after, todo) = c.stepped(EventView::Told(HostCmdView::Detach));
            &&& after == ConnectionState { attached: None, ..c }
            &&& todo.len() > 0 && todo.last() == ActionView::Drop
            &&& c.attached is Some ==> todo == seq![
                ActionView::Write { frame: FrameView::Detach, or_end: None },
                ActionView::Drop,
            ]
            &&& c.attached is None ==> todo == seq![ActionView::Drop]
        }),
        ({
            let (after, todo) = c.stepped(EventView::Told(HostCmdView::Shutdown));
            &&& todo.len() > 0 && todo.last() == ActionView::End(None)
            &&& c.attached is Some ==> todo[0] == ActionView::Write {
                frame: FrameView::Detach,
                or_end: None,
            }
        }),
{
    assert(c.stepped(EventView::Told(HostCmdView::Detach)).1 =~= c.left() + seq![ActionView::Drop]);
    if c.attached is Some {
        assert(c.left() + seq![ActionView::Drop] =~= seq![
            ActionView::Write { frame: FrameView::Detach, or_end: None },
            ActionView::Drop,
        ]);
    } else {
        assert(c.left() + seq![ActionView::Drop] =~= seq![ActionView::Drop]);
    }
}

/// Law: the other commands are passed on to the daemon as they are: a new size with
/// the terminal fitted to it and shown again, a new session, the end of one with the
/// list asked for anew. Scrolling shows the terminal at the new offset, and the
/// clock asks for the list.
pub proof fn law_commands_are_passed_on(
    c: ConnectionState,
    cols: u16,
    rows: u16,
    name: Seq<char>,
    lines: usize,
)
    requires
        c.up,
        c.attached is Some,
    ensures
        ({
            let (after, todo) = c.stepped(EventView::Told(HostCmdView::Resize { cols, rows }));
            &&& after == c && todo.len() == 3
            &&& todo[0] matches ActionView::Fit { cols: wide, rows: high } && (cols > 0 ==> wide
                == cols) && (rows > 0 ==> high == rows) && wide > 0 && high > 0
            &&& todo[1] matches ActionView::Write {
                frame: FrameView::Resize { cols: w, rows: h },
                ..
            } && w == cols && h == rows
            &&& todo[2] == ActionView::Show { scroll: c.scroll }
        }),
        ({
            let (after, todo) = c.stepped(EventView::Told(HostCmdView::Create));
            &&& after == c && todo.len() == 1
            &&& todo[0] matches ActionView::Write { frame: FrameView::Create { .. }, or_end }
                && or_end is Some
        }),
        ({
            let (after, todo) = c.stepped(EventView::Told(HostCmdView::Kill { name }));
            &&& after == c && todo.len() == 2
            &&& todo[0] matches ActionView::Write { frame: FrameView::Kill { name: n }, .. } && n
                == name
            &&& todo[1] == ActionView::Write { frame: FrameView::ListSessions, or_end: None }
        }),
        c.stepped(EventView::Told(HostCmdView::Scroll(lines))) == (
            ConnectionState { scroll: lines, ..c },
            seq![ActionView::Show { scroll: lines }],
        ),
        ({
            let (after, todo) = c.stepped(EventView::Tick);
            &&& after == c && todo.len() == 1
            &&& todo[0] matches ActionView::Write { frame: FrameView::ListSessions, or_end }
                && or_end is Some
        }),
        c.stepped(EventView::Closed).1 == seq![ActionView::End(Some("connection closed"@))],
{
}

/// Law: a connection whose supervisor is gone leaves the session on view and ends, as
/// one that was told to.
pub proof fn law_untold_is_told_to_end(c: ConnectionState)
    requires
        c.up,
    ensures
        ({
            let todo = c.stepped(EventView::Untold).1;
            &&& todo.len() > 0 && todo.last() == ActionView::End(None)
            &&& c.attached is Some ==> todo[0] == (ActionView::Write {
                frame: FrameView::Detach,
                or_end: None,
            })
            &&& todo == c.stepped(EventView::Told(HostCmdView::Shutdown)).1
        }),
{
}

} // verus!
