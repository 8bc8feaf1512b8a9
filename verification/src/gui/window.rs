//! A window on a single session: one connection, and a key that renews it.
use crate::gui::key;
use crate::gui::key::{map_key, Key, KeyView, Modifiers};
use crate::gui::vt::{KeyEvent, KeyPress, Mods, RenderSnapshot};
use crate::text;
use vstd::prelude::*;
use vstd::string::*;

verus! {

/// How the session stands.
#[derive(Debug, Clone, PartialEq, Eq)]
pub enum Status {
    Connecting,
    Live,
    Ended(String),
    Disconnected(String),
}

/// How the session stands, by view.
pub enum StatusView {
    Connecting,
    Live,
    Ended(Seq<char>),
    Disconnected(Seq<char>),
}

impl View for Status {
    type V = StatusView;

    open spec fn view(&self) -> StatusView {
        match self {
            Status::Connecting => StatusView::Connecting,
            Status::Live => StatusView::Live,
            Status::Ended(s) => StatusView::Ended(s@),
            Status::Disconnected(s) => StatusView::Disconnected(s@),
        }
    }
}

impl StatusView {
    /// Whether the connection is over.
    pub open spec fn over(self) -> bool {
        self is Ended || self is Disconnected
    }
}

/// What the connection tells the window.
#[derive(Debug, Clone, PartialEq, Eq)]
pub enum WorkerEvent {
    Frame(Box<RenderSnapshot>),
    SessionEnded(String),
    Disconnected(String),
}

impl WorkerEvent {
    /// Whether nothing comes behind.
    pub fn is_last(&self) -> (r: bool)
        ensures
            r == !(self is Frame),
    {
        match self {
            WorkerEvent::Frame(_) => false,
            _ => true,
        }
    }
}

/// What the window is told.
#[derive(Debug, Clone, PartialEq, Eq)]
#[allow(inconsistent_fields)]
pub enum Message {
    /// The connection is there to be told things.
    Connected,
    Worker(WorkerEvent),
    /// A key went down.
    Pressed { key: Key, modifiers: Modifiers },
    /// A release, or a change of modifiers.
    OtherKey,
    /// The window has room for this many columns and rows.
    Resized { cols: u16, rows: u16 },
}

/// What the window is told, by view.
#[allow(inconsistent_fields)]
pub enum MessageView {
    Connected,
    Frame(RenderSnapshot),
    SessionEnded(Seq<char>),
    Disconnected(Seq<char>),
    Pressed { key: KeyView, modifiers: Modifiers },
    OtherKey,
    Resized { cols: u16, rows: u16 },
}

impl View for Message {
    type V = MessageView;

    open spec fn view(&self) -> MessageView {
        match self {
            Message::Connected => MessageView::Connected,
            Message::Worker(WorkerEvent::Frame(s)) => MessageView::Frame(**s),
            Message::Worker(WorkerEvent::SessionEnded(m)) => MessageView::SessionEnded(m@),
            Message::Worker(WorkerEvent::Disconnected(m)) => MessageView::Disconnected(m@),
            Message::Pressed { key, modifiers } => MessageView::Pressed {
                key: key@,
                modifiers: *modifiers,
            },
            Message::OtherKey => MessageView::OtherKey,
            Message::Resized { cols, rows } => MessageView::Resized { cols: *cols, rows: *rows },
        }
    }
}

/// What a message asks for.
#[derive(Debug, Clone, PartialEq, Eq)]
#[allow(inconsistent_fields)]
pub enum Request {
    /// Forget what was painted.
    Repaint,
    /// Tell the connection of a key.
    Key(KeyEvent),
    /// Tell the connection of the window's size.
    Resize { cols: u16, rows: u16 },
}

/// What a message asks for, by view.
#[allow(inconsistent_fields)]
pub enum RequestView {
    Repaint,
    Key(KeyPress),
    Resize { cols: u16, rows: u16 },
}

impl View for Request {
    type V = RequestView;

    open spec fn view(&self) -> RequestView {
        match self {
            Request::Repaint => RequestView::Repaint,
            Request::Key(k) => RequestView::Key(k@),
            Request::Resize { cols, rows } => RequestView::Resize { cols: *cols, rows: *rows },
        }
    }
}

/// The window.
#[derive(Debug)]
pub struct Window {
    /// How often the connection was renewed.
    pub generation: u64,
    /// The size a new connection is opened with.
    pub cols: u16,
    pub rows: u16,
    /// Whether the connection can be told things.
    pub linked: bool,
    pub frame: Option<RenderSnapshot>,
    pub status: Status,
    /// The window's own size.
    pub live_cols: u16,
    pub live_rows: u16,
}

/// The window, by view.
pub struct WindowView {
    pub generation: u64,
    pub cols: u16,
    pub rows: u16,
    pub linked: bool,
    pub frame: Option<RenderSnapshot>,
    pub status: StatusView,
    pub live_cols: u16,
    pub live_rows: u16,
}

impl View for Window {
    type V = WindowView;

    open spec fn view(&self) -> WindowView {
        WindowView {
            generation: self.generation,
            cols: self.cols,
            rows: self.rows,
            linked: self.linked,
            frame: self.frame,
            status: self.status@,
            live_cols: self.live_cols,
            live_rows: self.live_rows,
        }
    }
}

/// A request by view, where there is one.
pub open spec fn request_view(r: Option<Request>) -> Option<RequestView> {
    match r {
        Some(v) => Some(v@),
        None => None,
    }
}

impl WindowView {
    /// A new connection, of the window's size.
    pub open spec fn renewed(self) -> WindowView {
        WindowView {
            generation: (self.generation + 1) as u64,
            cols: self.live_cols,
            rows: self.live_rows,
            status: StatusView::Connecting,
            frame: None,
            linked: false,
            ..self
        }
    }

    /// What a key that went down comes to: once the connection is over, `r`
    /// renews it and other keys do nothing.
    pub open spec fn pressed(self, key: KeyView, modifiers: Modifiers) -> (
        WindowView,
        Option<RequestView>,
    ) {
        if self.status.over() {
            if key == KeyView::Character("r"@) {
                (self.renewed(), Some(RequestView::Repaint))
            } else {
                (self, None)
            }
        } else {
            (
                self,
                match key::mapped(key, modifiers.mods()) {
                    Some(p) => if self.linked {
                        Some(RequestView::Key(p))
                    } else {
                        None
                    },
                    None => None,
                },
            )
        }
    }

    /// What a message changes and asks for.
    pub open spec fn updated(self, m: MessageView) -> (WindowView, Option<RequestView>) {
        match m {
            MessageView::Connected => (WindowView { linked: true, ..self }, None),
            MessageView::Frame(snap) => (
                WindowView { frame: Some(snap), status: StatusView::Live, ..self },
                Some(RequestView::Repaint),
            ),
            MessageView::SessionEnded(msg) => (
                WindowView { status: StatusView::Ended(msg), linked: false, ..self },
                None,
            ),
            MessageView::Disconnected(msg) => (
                WindowView { status: StatusView::Disconnected(msg), linked: false, ..self },
                None,
            ),
            MessageView::Pressed { key, modifiers } => self.pressed(key, modifiers),
            MessageView::OtherKey => (self, None),
            MessageView::Resized { cols, rows } => if cols == self.live_cols && rows
                == self.live_rows {
                (self, None)
            } else {
                (
                    WindowView { live_cols: cols, live_rows: rows, ..self },
                    if self.linked {
                        Some(RequestView::Resize { cols, rows })
                    } else {
                        None
                    },
                )
            },
        }
    }
}

/// Whether a key is the one that renews the connection.
fn is_renewal(key: &Key) -> (r: bool)
    ensures
        r == (key@ == KeyView::Character("r"@)),
{
    match key {
        Key::Character(s) => text::same(s.as_str(), "r"),
        _ => false,
    }
}

impl Window {
    /// A window of this size, whose connection is being opened.
    pub fn new(cols: u16, rows: u16) -> (r: Window)
        ensures
            r@ == (WindowView {
                generation: 0,
                cols,
                rows,
                linked: false,
                frame: None,
                status: StatusView::Connecting,
                live_cols: cols,
                live_rows: rows,
            }),
    {
        Window {
            generation: 0,
            cols,
            rows,
            linked: false,
            frame: None,
            status: Status::Connecting,
            live_cols: cols,
            live_rows: rows,
        }
    }

    /// Open a new connection, of the window's size.
    pub fn reconnect(&mut self)
        requires
            old(self)@.generation < u64::MAX,
        ensures
            final(self)@ == old(self)@.renewed(),
    {
        self.generation = self.generation + 1;
        self.cols = self.live_cols;
        self.rows = self.live_rows;
        self.status = Status::Connecting;
        self.frame = None;
        self.linked = false;
    }

    /// Whether the connection is over.
    fn over(&self) -> (r: bool)
        ensures
            r == self@.status.over(),
    {
        match self.status {
            Status::Ended(_) | Status::Disconnected(_) => true,
            _ => false,
        }
    }

    /// Take in a message: what it changes, and what it asks for.
    pub fn update(&mut self, message: Message) -> (r: Option<Request>)
        requires
            old(self)@.generation < u64::MAX,
        ensures
            (final(self)@, request_view(r)) == old(self)@.updated(message@),
    {
        match message {
            Message::Connected => {
                self.linked = true;
                None
            },
            Message::Worker(WorkerEvent::Frame(snap)) => {
                self.frame = Some(*snap);
                self.status = Status::Live;
                Some(Request::Repaint)
            },
            Message::Worker(WorkerEvent::SessionEnded(msg)) => {
                self.status = Status::Ended(msg);
                self.linked = false;
                None
            },
            Message::Worker(WorkerEvent::Disconnected(msg)) => {
                self.status = Status::Disconnected(msg);
                self.linked = false;
                None
            },
            Message::Pressed { key, modifiers } => {
                if self.over() {
                    if is_renewal(&key) {
                        self.reconnect();
                        return Some(Request::Repaint);
                    }
                    return None;
                }
                match map_key(&key, modifiers) {
                    Some(ev) => if self.linked {
                        Some(Request::Key(ev))
                    } else {
                        None
                    },
                    None => None,
                }
            },
            Message::OtherKey => None,
            Message::Resized { cols, rows } => {
                if cols == self.live_cols && rows == self.live_rows {
                    return None;
                }
                self.live_cols = cols;
                self.live_rows = rows;
                if self.linked {
                    Some(Request::Resize { cols, rows })
                } else {
                    None
                }
            },
        }
    }

    /// Whether a connection is kept: a session that ended is not tried again by
    /// itself.
    pub fn keeps_connection(&self) -> (r: bool)
        ensures
            r == !(self@.status is Ended),
    {
        match self.status {
            Status::Ended(_) => false,
            _ => true,
        }
    }

    /// What the window shows in place of the terminal once the connection is
    /// over.
    pub fn note(&self) -> (r: Option<String>)
        ensures
            match self@.status {
                StatusView::Disconnected(msg) => r matches Some(s) && s@ == "[disconnected: "@ + msg
                    + "]  —  press r to reconnect"@,
                StatusView::Ended(msg) => r matches Some(s) && s@ == "[session ended: "@ + msg
                    + "]  —  press r to reconnect"@,
                _ => r is None,
            },
    {
        match &self.status {
            Status::Disconnected(msg) => Some(
                text::join3("[disconnected: ", msg.as_str(), "]  —  press r to reconnect"),
            ),
            Status::Ended(msg) => Some(
                text::join3("[session ended: ", msg.as_str(), "]  —  press r to reconnect"),
            ),
            _ => None,
        }
    }
}

/// Law: once the connection is over, `r` opens a new one of the window's size,
/// and no key is sent anywhere.
pub proof fn law_over_until_renewed(w: WindowView, key: KeyView, modifiers: Modifiers)
    requires
        w.status.over(),
        w.generation < u64::MAX,
    ensures
        ({
            let (after, todo) = w.updated(MessageView::Pressed { key, modifiers });
            &&& !(todo matches Some(RequestView::Key(_)))
            &&& key == KeyView::Character("r"@) ==> after.status is Connecting && after.generation
                == w.generation + 1 && after.cols == w.live_cols && after.rows == w.live_rows
            &&& key != KeyView::Character("r"@) ==> after == w
        }),
{
}

/// Law: a screen is shown as it comes, and the session is live from then on.
pub proof fn law_window_shows_the_screen(w: WindowView, snap: RenderSnapshot)
    ensures
        ({
            let (after, todo) = w.updated(MessageView::Frame(snap));
            &&& after.frame == Some(snap) && after.status is Live
            &&& after.linked == w.linked && after.live_cols == w.live_cols && after.live_rows
                == w.live_rows && after.generation == w.generation
            &&& todo == Some(RequestView::Repaint)
        }),
{
}

/// Law: the end of the session, or of the connection, is kept with its reason; the
/// last screen stays, and nothing more is sent until there is a new connection.
pub proof fn law_window_is_told_of_the_end(w: WindowView, msg: Seq<char>, cols: u16, rows: u16)
    ensures
        w.updated(MessageView::SessionEnded(msg)).0.status == StatusView::Ended(msg),
        w.updated(MessageView::Disconnected(msg)).0.status == StatusView::Disconnected(msg),
        w.updated(MessageView::SessionEnded(msg)).0.frame == w.frame,
        w.updated(MessageView::Disconnected(msg)).0.frame == w.frame,
        w.updated(MessageView::SessionEnded(msg)).1 is None,
        w.updated(MessageView::Disconnected(msg)).1 is None,
        w.updated(MessageView::SessionEnded(msg)).0.updated(
            MessageView::Resized { cols, rows },
        ).1 is None,
        w.updated(MessageView::Disconnected(msg)).0.updated(
            MessageView::Resized { cols, rows },
        ).1 is None,
        w.updated(MessageView::Connected).0.linked,
{
}

/// Law: while the connection lasts, a key is sent as the terminal's press for it,
/// and a new size is remembered and sent; the same size again is not.
pub proof fn law_window_sends_keys_and_sizes(
    w: WindowView,
    key: KeyView,
    modifiers: Modifiers,
    cols: u16,
    rows: u16,
)
    requires
        w.linked,
        w.status is Live || w.status is Connecting,
    ensures
        ({
            let mods = Mods {
                shift: modifiers.shift,
                ctrl: modifiers.control,
                alt: modifiers.alt,
                super_key: modifiers.logo,
            };
            let (after, todo) = w.updated(MessageView::Pressed { key, modifiers });
            &&& after == w
            &&& key::mapped(key, mods) matches Some(p) ==> todo == Some(RequestView::Key(p))
            &&& key::mapped(key, mods) is None ==> todo is None
        }),
        ({
            let (after, todo) = w.updated(MessageView::Resized { cols, rows });
            &&& after.live_cols == cols && after.live_rows == rows
            &&& after.cols == w.cols && after.rows == w.rows && after.frame == w.frame
            &&& (cols, rows) != (w.live_cols, w.live_rows) ==> todo == Some(
                RequestView::Resize { cols, rows },
            )
            &&& (cols, rows) == (w.live_cols, w.live_rows) ==> todo is None
        }),
{
}

/// Law: renewing forgets the old connection: nothing is shown of it and nothing is
/// sent until the new one is there.
pub proof fn law_renewal_starts_afresh(w: WindowView)
    requires
        w.generation < u64::MAX,
    ensures
        w.renewed().frame is None,
        !w.renewed().linked,
        w.renewed().status is Connecting,
        w.renewed().live_cols == w.live_cols && w.renewed().live_rows == w.live_rows,
        w.renewed().cols == w.live_cols && w.renewed().rows == w.live_rows,
        w.renewed().generation == w.generation + 1,
{
}

} // verus!
