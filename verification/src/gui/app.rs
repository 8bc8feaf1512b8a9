//! The window: what each message changes, and what it asks for.
use crate::gui::conn::{UiEvent, UiEventView};
use crate::gui::key;
use crate::gui::key::{Key, KeyView, Modifiers};
use crate::gui::model;
use crate::gui::model::{
    HostId, HostView, KindView, Model, ModelView, RemoteSpec, RemoteView, StateView, LOCAL_ID,
};
use crate::gui::render;
use crate::gui::render::GuiSelection;
use crate::gui::settings;
use crate::gui::settings::{
    ConnectionView, FormView, SettingsMsg, SettingsMsgView, SettingsPage, SshConnection, SshForm,
};
use crate::gui::vt;
use crate::gui::vt::{KeyEvent, KeyPress, Mods, RenderSnapshot};
use crate::proto::SessionInfo;
use crate::text;
use vstd::prelude::*;
use vstd::string::*;

verus! {

/// How far the window scrolls back at most.
pub const MAX_SCROLL: usize = 100_000;

/// What the window asks of the supervisor.
#[derive(Debug, Clone, PartialEq, Eq)]
#[allow(inconsistent_fields)]
pub enum AppCmd {
    AddRemote { id: HostId, remote: RemoteSpec },
    RemoveHost { id: HostId },
    SetActive { host: HostId, name: String, cols: u16, rows: u16 },
    Key(KeyEvent),
    Resize { cols: u16, rows: u16 },
    Create { host: HostId },
    Kill { host: HostId, name: String },
    /// Set the terminal's scrollback offset; 0 follows live output.
    Scroll(usize),
}

/// What the window asks of the supervisor, by view.
#[allow(inconsistent_fields)]
pub enum AppCmdView {
    AddRemote { id: HostId, remote: RemoteView },
    RemoveHost { id: HostId },
    SetActive { host: HostId, name: Seq<char>, cols: u16, rows: u16 },
    Key(KeyPress),
    Resize { cols: u16, rows: u16 },
    Create { host: HostId },
    Kill { host: HostId, name: Seq<char> },
    Scroll(usize),
}

impl View for AppCmd {
    type V = AppCmdView;

    open spec fn view(&self) -> AppCmdView {
        match self {
            AppCmd::AddRemote { id, remote } => AppCmdView::AddRemote { id: *id, remote: remote@ },
            AppCmd::RemoveHost { id } => AppCmdView::RemoveHost { id: *id },
            AppCmd::SetActive { host, name, cols, rows } => AppCmdView::SetActive {
                host: *host,
                name: name@,
                cols: *cols,
                rows: *rows,
            },
            AppCmd::Key(k) => AppCmdView::Key(k@),
            AppCmd::Resize { cols, rows } => AppCmdView::Resize { cols: *cols, rows: *rows },
            AppCmd::Create { host } => AppCmdView::Create { host: *host },
            AppCmd::Kill { host, name } => AppCmdView::Kill { host: *host, name: name@ },
            AppCmd::Scroll(n) => AppCmdView::Scroll(*n),
        }
    }
}

/// How the session on view stands. With none on view the pane shows a hint
/// whatever this says.
#[derive(Debug, Clone, PartialEq, Eq)]
pub enum Status {
    Live,
    Ended(String),
    Disconnected(String),
}

/// How the session on view stands, by view.
pub enum StatusView {
    Live,
    Ended(Seq<char>),
    Disconnected(Seq<char>),
}

impl View for Status {
    type V = StatusView;

    open spec fn view(&self) -> StatusView {
        match self {
            Status::Live => StatusView::Live,
            Status::Ended(s) => StatusView::Ended(s@),
            Status::Disconnected(s) => StatusView::Disconnected(s@),
        }
    }
}

/// What the keyboard does.
#[derive(Debug, Clone, PartialEq, Eq)]
#[allow(inconsistent_fields)]
pub enum Keyboard {
    /// A key goes down: the key with every modifier but control applied, and what
    /// it types.
    Pressed { key: Key, modifiers: Modifiers, text: Option<String> },
    /// A release, or a change of modifiers.
    Other,
}

/// What the window is told.
#[derive(Debug, Clone, PartialEq, Eq)]
#[allow(inconsistent_fields)]
pub enum Message {
    /// The supervisor started, and can be asked things.
    Supervisor,
    Ui(UiEvent),
    Select(HostId, String),
    NewSession(HostId),
    Kill(HostId, String),
    RemoveHost(HostId),
    /// Open or close the menu of saved connections.
    ToggleConnectMenu,
    /// Connect the saved connection at this place in the list.
    ConnectSaved(usize),
    /// Open the settings on the connections page.
    OpenConnections,
    /// Restart every host's connection.
    Reconnect,
    Keyboard(Keyboard),
    /// The pane has room for this many columns and rows.
    Resized { cols: u16, rows: u16 },
    /// The time, in milliseconds since the epoch.
    Tick(u64),
    /// The wheel turned; positive is up.
    MouseScroll(i32),
    /// The button went down where the pointer is.
    MousePress,
    /// The pointer moved to a cell.
    MouseMove { col: u16, row: u16 },
    /// The button went up: the selection is copied.
    MouseRelease,
    /// An input method composed a text.
    ImeCommit(String),
    ToggleSettings,
    Settings(SettingsMsg),
}

/// What the keyboard does, by view.
#[allow(inconsistent_fields)]
pub enum KeyboardView {
    Pressed { key: KeyView, modifiers: Modifiers, text: Option<Seq<char>> },
    Other,
}

/// What the window is told, by view.
#[allow(inconsistent_fields)]
pub enum MessageView {
    Supervisor,
    Ui(UiEventView),
    Select(HostId, Seq<char>),
    NewSession(HostId),
    Kill(HostId, Seq<char>),
    RemoveHost(HostId),
    ToggleConnectMenu,
    ConnectSaved(usize),
    OpenConnections,
    Reconnect,
    Keyboard(KeyboardView),
    Resized { cols: u16, rows: u16 },
    Tick(u64),
    MouseScroll(i32),
    MousePress,
    MouseMove { col: u16, row: u16 },
    MouseRelease,
    ImeCommit(Seq<char>),
    ToggleSettings,
    Settings(SettingsMsgView),
}

impl View for Keyboard {
    type V = KeyboardView;

    open spec fn view(&self) -> KeyboardView {
        match self {
            Keyboard::Pressed { key, modifiers, text } => KeyboardView::Pressed {
                key: key@,
                modifiers: *modifiers,
                text: vt::text_view(*text),
            },
            Keyboard::Other => KeyboardView::Other,
        }
    }
}

impl View for Message {
    type V = MessageView;

    open spec fn view(&self) -> MessageView {
        match self {
            Message::Supervisor => MessageView::Supervisor,
            Message::Ui(e) => MessageView::Ui(e@),
            Message::Select(h, n) => MessageView::Select(*h, n@),
            Message::NewSession(h) => MessageView::NewSession(*h),
            Message::Kill(h, n) => MessageView::Kill(*h, n@),
            Message::RemoveHost(h) => MessageView::RemoveHost(*h),
            Message::ToggleConnectMenu => MessageView::ToggleConnectMenu,
            Message::ConnectSaved(i) => MessageView::ConnectSaved(*i),
            Message::OpenConnections => MessageView::OpenConnections,
            Message::Reconnect => MessageView::Reconnect,
            Message::Keyboard(k) => MessageView::Keyboard(k@),
            Message::Resized { cols, rows } => MessageView::Resized { cols: *cols, rows: *rows },
            Message::Tick(t) => MessageView::Tick(*t),
            Message::MouseScroll(d) => MessageView::MouseScroll(*d),
            Message::MousePress => MessageView::MousePress,
            Message::MouseMove { col, row } => MessageView::MouseMove { col: *col, row: *row },
            Message::MouseRelease => MessageView::MouseRelease,
            Message::ImeCommit(s) => MessageView::ImeCommit(s@),
            Message::ToggleSettings => MessageView::ToggleSettings,
            Message::Settings(m) => MessageView::Settings(m@),
        }
    }
}

/// What a message asks for.
#[derive(Debug, Clone, PartialEq, Eq)]
pub enum Effect {
    /// Tell the supervisor.
    Send(AppCmd),
    /// Forget what was painted of the terminal.
    Repaint,
    /// Write the saved connections to the settings file.
    Save,
    /// Put a text on the clipboard.
    Copy(String),
}

/// What a message asks for, by view.
pub enum EffectView {
    Send(AppCmdView),
    Repaint,
    Save,
    Copy(Seq<char>),
}

impl View for Effect {
    type V = EffectView;

    open spec fn view(&self) -> EffectView {
        match self {
            Effect::Send(c) => EffectView::Send(c@),
            Effect::Repaint => EffectView::Repaint,
            Effect::Save => EffectView::Save,
            Effect::Copy(s) => EffectView::Copy(s@),
        }
    }
}

/// What messages ask for, by view.
pub open spec fn effects(v: Seq<Effect>) -> Seq<EffectView> {
    v.map_values(|e: Effect| e@)
}

/// The window.
#[derive(Debug)]
pub struct App {
    pub model: Model,
    /// The screen of the session on view, once it has arrived.
    pub frame: Option<RenderSnapshot>,
    pub status: Status,
    pub live_cols: u16,
    pub live_rows: u16,
    /// Whether the menu of saved connections is open.
    pub connect_menu_open: bool,
    pub now_ms: u64,
    /// The scrollback offset; 0 follows live output.
    pub scroll: usize,
    /// The absolute row of the viewport's top.
    pub frame_base: usize,
    /// The drag selection, while there is one.
    pub selection: Option<GuiSelection>,
    /// Whether the program in the session is tracking the mouse.
    pub session_wants_mouse: bool,
    /// The cell the pointer was last over.
    pub pointer: Option<(u16, u16)>,
    /// Whether the supervisor can be asked things.
    pub linked: bool,
    /// How often the supervisor was restarted.
    pub generation: u64,
    /// A session to put on view once the local host lists it.
    pub preferred: Option<String>,
    pub show_settings: bool,
    pub settings_page: SettingsPage,
    pub settings_form: Option<SshForm>,
    pub saved_ssh: Vec<SshConnection>,
}

/// The window, by view.
#[verifier::ext_equal]
pub struct AppView {
    pub model: ModelView,
    pub frame: Option<RenderSnapshot>,
    pub status: StatusView,
    pub live_cols: u16,
    pub live_rows: u16,
    pub connect_menu_open: bool,
    pub now_ms: u64,
    pub scroll: usize,
    pub frame_base: usize,
    pub selection: Option<GuiSelection>,
    pub session_wants_mouse: bool,
    pub pointer: Option<(u16, u16)>,
    pub linked: bool,
    pub generation: u64,
    pub preferred: Option<Seq<char>>,
    pub show_settings: bool,
    pub settings_page: SettingsPage,
    pub settings_form: Option<FormView>,
    pub saved_ssh: Seq<ConnectionView>,
}

/// A form by view, where there is one.
pub open spec fn maybe_form(f: Option<SshForm>) -> Option<FormView> {
    match f {
        Some(v) => Some(v@),
        None => None,
    }
}

impl View for App {
    type V = AppView;

    open spec fn view(&self) -> AppView {
        AppView {
            model: self.model@,
            frame: self.frame,
            status: self.status@,
            live_cols: self.live_cols,
            live_rows: self.live_rows,
            connect_menu_open: self.connect_menu_open,
            now_ms: self.now_ms,
            scroll: self.scroll,
            frame_base: self.frame_base,
            selection: self.selection,
            session_wants_mouse: self.session_wants_mouse,
            pointer: self.pointer,
            linked: self.linked,
            generation: self.generation,
            preferred: vt::text_view(self.preferred),
            show_settings: self.show_settings,
            settings_page: self.settings_page,
            settings_form: maybe_form(self.settings_form),
            saved_ssh: settings::connections_view(self.saved_ssh@),
        }
    }
}

/// What asking the supervisor comes to: nothing while there is none.
pub open spec fn asked(linked: bool, cmd: AppCmdView) -> Seq<EffectView> {
    if linked {
        seq![EffectView::Send(cmd)]
    } else {
        Seq::empty()
    }
}

/// Asking for the remotes among the hosts, in order.
pub open spec fn asked_remotes(linked: bool, hosts: Seq<HostView>) -> Seq<EffectView>
    decreases hosts.len(),
{
    if hosts.len() == 0 {
        Seq::empty()
    } else {
        asked_remotes(linked, hosts.drop_last()) + match hosts.last().kind {
            KindView::Ssh(remote) => asked(
                linked,
                AppCmdView::AddRemote { id: hosts.last().id, remote },
            ),
            KindView::Local => Seq::empty(),
        }
    }
}

/// The presses of composed characters, in order; control codes type nothing.
pub open spec fn asked_typed(linked: bool, chars: Seq<char>, mods: Mods) -> Seq<EffectView>
    decreases chars.len(),
{
    if chars.len() == 0 {
        Seq::empty()
    } else {
        asked_typed(linked, chars.drop_last(), mods) + match key::composed(chars.last(), mods) {
            Some(p) => asked(linked, AppCmdView::Key(p)),
            None => Seq::empty(),
        }
    }
}

/// Whether a session of this name is in a list.
pub open spec fn lists(sessions: Seq<SessionInfo>, name: Seq<char>) -> bool {
    exists|i: int| 0 <= i < sessions.len() && (#[trigger] sessions[i]).name@ == name
}

/// The scrollback offset after the wheel turned, within its bounds.
pub open spec fn wheeled(scroll: usize, delta: i32) -> usize {
    if delta > 0 {
        if scroll + delta > MAX_SCROLL {
            MAX_SCROLL
        } else {
            (scroll + delta) as usize
        }
    } else if scroll + delta < 0 {
        0
    } else {
        (scroll + delta) as usize
    }
}

impl AppView {
    /// What always holds of the window.
    pub open spec fn wf(self) -> bool {
        &&& self.model.wf()
        &&& self.scroll <= MAX_SCROLL
        &&& self.frame_base + u16::MAX <= usize::MAX
    }

    /// The messages that stay within the machine's numbers.
    pub open spec fn takes(self, m: MessageView) -> bool {
        match m {
            MessageView::Ui(UiEventView::Frame { base, .. }) => base + u16::MAX <= usize::MAX,
            MessageView::ConnectSaved(_) => self.model.next_id < u64::MAX,
            MessageView::Reconnect => self.generation < u64::MAX,
            MessageView::MouseScroll(delta) => delta > i32::MIN,
            _ => true,
        }
    }

    /// Asking the supervisor.
    pub open spec fn ask(self, cmd: AppCmdView) -> Seq<EffectView> {
        asked(self.linked, cmd)
    }

    /// Putting a session on view, from its bottom, with nothing of the last one
    /// left.
    pub open spec fn attached(self, host: HostId, name: Seq<char>) -> (AppView, Seq<EffectView>) {
        (
            AppView {
                model: self.model.with_active(host, name),
                status: StatusView::Live,
                scroll: 0,
                selection: None,
                frame: None,
                ..self
            },
            seq![EffectView::Repaint] + self.ask(
                AppCmdView::SetActive { host, name, cols: self.live_cols, rows: self.live_rows },
            ),
        )
    }

    /// A supervisor that started is told of the remotes and the session on view.
    pub open spec fn supervised(self) -> (AppView, Seq<EffectView>) {
        let s = AppView { linked: true, ..self };
        (
            s,
            asked_remotes(true, s.model.hosts) + match s.model.active {
                Some((host, name)) => s.ask(
                    AppCmdView::SetActive { host, name, cols: s.live_cols, rows: s.live_rows },
                ),
                None => Seq::empty(),
            },
        )
    }

    /// The local host listed its sessions while none was on view: the preferred
    /// one if it is there, else the first.
    pub open spec fn populated(self, sessions: Seq<SessionInfo>) -> (AppView, Seq<EffectView>) {
        let s = AppView { model: self.model.with_sessions(LOCAL_ID, sessions), ..self };
        if sessions.len() == 0 || !s.knows_local() {
            (s, Seq::empty())
        } else {
            let pick = match self.preferred {
                Some(p) => if lists(sessions, p) {
                    p
                } else {
                    sessions[0].name@
                },
                None => sessions[0].name@,
            };
            AppView { preferred: None, ..s }.attached(LOCAL_ID, pick)
        }
    }

    /// Whether the local host is in the list.
    pub open spec fn knows_local(self) -> bool {
        exists|i: int|
            0 <= i < self.model.hosts.len() && (#[trigger] self.model.hosts[i]).id == LOCAL_ID
    }

    /// A host says something.
    pub open spec fn informed(self, e: UiEventView) -> (AppView, Seq<EffectView>) {
        match e {
            UiEventView::State { host, state } => (
                AppView {
                    model: self.model.with_state(host, state),
                    status: match state {
                        StateView::Down(msg) => if self.model.active_on(host) {
                            StatusView::Disconnected(msg)
                        } else {
                            self.status
                        },
                        _ => self.status,
                    },
                    ..self
                },
                Seq::empty(),
            ),
            UiEventView::Sessions { host, sessions } => if self.model.active is None && host
                == LOCAL_ID {
                self.populated(sessions)
            } else {
                (
                    AppView { model: self.model.with_sessions(host, sessions), ..self },
                    Seq::empty(),
                )
            },
            UiEventView::Created { host, name } => self.attached(host, name),
            UiEventView::Frame { host, name, snap, session_wants_mouse, base } => if self.model.is_active(
                host,
                name,
            ) {
                (
                    AppView {
                        session_wants_mouse,
                        frame_base: base,
                        frame: Some(snap),
                        status: StatusView::Live,
                        ..self
                    },
                    seq![EffectView::Repaint],
                )
            } else {
                (self, Seq::empty())
            },
            UiEventView::SessionEnded { host, name, msg } => (
                if self.model.is_active(host, name) {
                    AppView { status: StatusView::Ended(msg), ..self }
                } else {
                    self
                },
                Seq::empty(),
            ),
        }
    }

    /// Connecting a saved connection, unless it is in the list already.
    pub open spec fn connected(self, i: usize) -> (AppView, Seq<EffectView>) {
        let s = AppView { connect_menu_open: false, ..self };
        if i < s.saved_ssh.len() && !s.model.has_remote(
            s.saved_ssh[i as int].user,
            s.saved_ssh[i as int].host,
            s.saved_ssh[i as int].port,
        ) {
            let c = s.saved_ssh[i as int];
            let remote = RemoteView {
                user: c.user,
                host: c.host,
                port: c.port,
                auth: c.auth,
                name: c.name,
            };
            (
                AppView { model: s.model.with_remote(remote), ..s },
                s.ask(AppCmdView::AddRemote { id: s.model.next_id, remote }),
            )
        } else {
            (s, Seq::empty())
        }
    }

    /// Typing returns to the bottom and drops the selection.
    pub open spec fn returned(self) -> (AppView, Seq<EffectView>) {
        (
            AppView { scroll: 0, selection: None, ..self },
            if self.scroll != 0 {
                self.ask(AppCmdView::Scroll(0))
            } else {
                Seq::empty()
            },
        )
    }

    /// A key went down: what the terminal encodes of it, else what it types.
    pub open spec fn pressed(self, k: KeyView, mods: Mods, text: Option<Seq<char>>) -> (
        AppView,
        Seq<EffectView>,
    ) {
        if self.model.active is None {
            (self, Seq::empty())
        } else {
            let (s, back) = self.returned();
            (
                s,
                back + match key::mapped(k, mods) {
                    Some(p) => self.ask(AppCmdView::Key(p)),
                    None => match text {
                        Some(t) => asked_typed(self.linked, t, mods),
                        None => Seq::empty(),
                    },
                },
            )
        }
    }

    /// An input method composed a text.
    pub open spec fn composed(self, text: Seq<char>) -> (AppView, Seq<EffectView>) {
        if self.model.active is None {
            (self, Seq::empty())
        } else {
            let (s, back) = self.returned();
            (
                s,
                back + asked_typed(
                    self.linked,
                    text,
                    Mods { shift: false, ctrl: false, alt: false, super_key: false },
                ),
            )
        }
    }

    /// The pane got another size.
    pub open spec fn resized(self, cols: u16, rows: u16) -> (AppView, Seq<EffectView>) {
        if cols == self.live_cols && rows == self.live_rows {
            (self, Seq::empty())
        } else {
            (
                AppView { live_cols: cols, live_rows: rows, ..self },
                self.ask(AppCmdView::Resize { cols, rows }),
            )
        }
    }

    /// The wheel turned.
    pub open spec fn scrolled(self, delta: i32) -> (AppView, Seq<EffectView>) {
        let to = wheeled(self.scroll, delta);
        if self.model.active is None || to == self.scroll {
            (self, Seq::empty())
        } else {
            (AppView { scroll: to, ..self }, self.ask(AppCmdView::Scroll(to)))
        }
    }

    /// A place in the scrollback for a cell of the viewport.
    pub open spec fn spot(self, cell: (u16, u16)) -> (u16, usize) {
        (cell.0, (self.frame_base + cell.1) as usize)
    }

    /// The button went down: a selection starts where the pointer is.
    pub open spec fn grabbed(self) -> AppView {
        match self.pointer {
            Some(cell) => if self.model.active is Some {
                AppView {
                    selection: Some(
                        GuiSelection { anchor: self.spot(cell), head: self.spot(cell) },
                    ),
                    ..self
                }
            } else {
                self
            },
            None => self,
        }
    }

    /// The pointer moved, with the end of the selection where there is one.
    pub open spec fn dragged(self, cell: (u16, u16)) -> AppView {
        AppView {
            pointer: Some(cell),
            selection: match self.selection {
                Some(sel) => Some(GuiSelection { anchor: sel.anchor, head: self.spot(cell) }),
                None => None,
            },
            ..self
        }
    }

    /// The button went up: what is selected is copied.
    pub open spec fn released(self) -> (AppView, Seq<EffectView>) {
        (
            AppView { selection: None, ..self },
            match (self.selection, self.frame) {
                (Some(sel), Some(snap)) => {
                    let text = render::selection_text(snap, sel, self.frame_base);
                    if text.len() > 0 {
                        seq![EffectView::Copy(text)]
                    } else {
                        Seq::empty()
                    }
                },
                _ => Seq::empty(),
            },
        )
    }

    /// The form with a change to it, where one is open.
    pub open spec fn with_form(self, f: Option<FormView>) -> AppView {
        AppView { settings_form: f, ..self }
    }

    /// Saving the form, where it can be saved: over the connection it edits if
    /// that is still there, else behind the others.
    pub open spec fn form_saved(self) -> (AppView, Seq<EffectView>) {
        match self.settings_form {
            Some(form) => match form.connection() {
                Some(c) => (
                    AppView {
                        saved_ssh: match form.index {
                            Some(i) => if i < self.saved_ssh.len() {
                                self.saved_ssh.update(i as int, c)
                            } else {
                                self.saved_ssh.push(c)
                            },
                            None => self.saved_ssh.push(c),
                        },
                        settings_form: None,
                        ..self
                    },
                    seq![EffectView::Save],
                ),
                None => (self, Seq::empty()),
            },
            None => (self, Seq::empty()),
        }
    }

    /// The user does something in the settings panel.
    pub open spec fn configured(self, m: SettingsMsgView) -> (AppView, Seq<EffectView>) {
        match m {
            SettingsMsgView::Close => (
                AppView { show_settings: false, settings_form: None, ..self },
                Seq::empty(),
            ),
            SettingsMsgView::Nav(page) => (
                AppView { settings_page: page, settings_form: None, ..self },
                Seq::empty(),
            ),
            SettingsMsgView::AddConnection => (
                self.with_form(Some(settings::blank_form())),
                Seq::empty(),
            ),
            SettingsMsgView::EditConnection(i) => (
                if i < self.saved_ssh.len() {
                    self.with_form(Some(settings::form_of(self.saved_ssh[i as int], i)))
                } else {
                    self
                },
                Seq::empty(),
            ),
            SettingsMsgView::DeleteConnection(i) => if i < self.saved_ssh.len() {
                (
                    AppView { saved_ssh: self.saved_ssh.remove(i as int), ..self },
                    seq![EffectView::Save],
                )
            } else {
                (self, Seq::empty())
            },
            SettingsMsgView::SaveConnection => self.form_saved(),
            SettingsMsgView::CancelEdit => (self.with_form(None), Seq::empty()),
            _ => (
                self.with_form(
                    match self.settings_form {
                        Some(f) => Some(edited(f, m)),
                        None => None,
                    },
                ),
                Seq::empty(),
            ),
        }
    }

    /// What a message changes and asks for.
    pub open spec fn updated(self, m: MessageView) -> (AppView, Seq<EffectView>) {
        match m {
            MessageView::Supervisor => self.supervised(),
            MessageView::Ui(e) => self.informed(e),
            MessageView::Select(host, name) => if self.model.is_active(host, name) {
                (self, Seq::empty())
            } else {
                self.attached(host, name)
            },
            MessageView::NewSession(host) => (self, self.ask(AppCmdView::Create { host })),
            MessageView::Kill(host, name) => (self, self.ask(AppCmdView::Kill { host, name })),
            MessageView::RemoveHost(id) => (
                AppView { model: self.model.without(id), ..self },
                self.ask(AppCmdView::RemoveHost { id }),
            ),
            MessageView::ToggleConnectMenu => (
                AppView { connect_menu_open: !self.connect_menu_open, ..self },
                Seq::empty(),
            ),
            MessageView::ConnectSaved(i) => self.connected(i),
            MessageView::OpenConnections => (
                AppView {
                    connect_menu_open: false,
                    show_settings: true,
                    settings_page: SettingsPage::Connections,
                    ..self
                },
                Seq::empty(),
            ),
            MessageView::Reconnect => (
                AppView {
                    generation: (self.generation + 1) as u64,
                    model: self.model.all_connecting(),
                    ..self
                },
                Seq::empty(),
            ),
            MessageView::Keyboard(KeyboardView::Pressed { key, modifiers, text }) => self.pressed(
                key,
                modifiers.mods(),
                text,
            ),
            MessageView::Keyboard(KeyboardView::Other) => (self, Seq::empty()),
            MessageView::Resized { cols, rows } => self.resized(cols, rows),
            MessageView::Tick(now) => (AppView { now_ms: now, ..self }, Seq::empty()),
            MessageView::MouseScroll(delta) => self.scrolled(delta),
            MessageView::MousePress => (self.grabbed(), Seq::empty()),
            MessageView::MouseMove { col, row } => (self.dragged((col, row)), Seq::empty()),
            MessageView::MouseRelease => self.released(),
            MessageView::ImeCommit(text) => self.composed(text),
            MessageView::ToggleSettings => (
                AppView {
                    show_settings: !self.show_settings,
                    settings_form: if self.show_settings {
                        None
                    } else {
                        self.settings_form
                    },
                    ..self
                },
                Seq::empty(),
            ),
            MessageView::Settings(m) => self.configured(m),
        }
    }
}

/// The form after something was typed into it or chosen.
pub open spec fn edited(f: FormView, m: SettingsMsgView) -> FormView {
    match m {
        SettingsMsgView::FormName(s) => FormView { name: s, ..f },
        SettingsMsgView::FormHost(s) => FormView { host: s, ..f },
        SettingsMsgView::FormUser(s) => FormView { user: s, ..f },
        SettingsMsgView::FormPort(s) => FormView { port: s, ..f },
        SettingsMsgView::FormAuthKind(k) => FormView { auth_kind: k, ..f },
        SettingsMsgView::FormPassword(s) => FormView { password: s, ..f },
        SettingsMsgView::FormKeyPath(s) => FormView { key_path: s, ..f },
        SettingsMsgView::FormPassphrase(s) => FormView { passphrase: s, ..f },
        _ => f,
    }
}

} // verus!
