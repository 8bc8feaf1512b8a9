//! The window's answer to each message.
use crate::gui::app;
use crate::gui::app::{
    App, AppCmd, AppCmdView, AppView, Effect, EffectView, Keyboard, Message, Status, StatusView,
    MAX_SCROLL,
};
use crate::gui::conn::UiEvent;
use crate::gui::key;
use crate::gui::key::{map_ime_char, map_key, Key, Modifiers};
use crate::gui::model;
use crate::gui::model::{HostId, HostKind, HostState, Model, RemoteSpec, LOCAL_ID};
use crate::gui::render::{abs_row, extract_selection_text, GuiSelection};
use crate::gui::settings;
use crate::gui::settings::{SettingsConfig, SettingsMsg, SettingsPage, SshForm};
use crate::gui::vt;
use crate::proto::SessionInfo;
use crate::text;
use vstd::prelude::*;
use vstd::string::*;

verus! {

proof fn lemma_effects_push(v: Seq<Effect>, e: Effect)
    ensures
        app::effects(v.push(e)) == app::effects(v).push(e@),
{
    assert(app::effects(v.push(e)) =~= app::effects(v).push(e@));
}

/// Nothing to ask for.
fn nothing() -> (r: Vec<Effect>)
    ensures
        app::effects(r@) == Seq::<EffectView>::empty(),
{
    let v: Vec<Effect> = Vec::new();
    assert(app::effects(v@) =~= Seq::empty());
    v
}

/// One thing to ask for.
fn only(e: Effect) -> (r: Vec<Effect>)
    ensures
        app::effects(r@) == seq![e@],
{
    let mut v: Vec<Effect> = Vec::new();
    v.push(e);
    assert(app::effects(v@) =~= seq![e@]);
    v
}

impl App {
    /// A window with room for this many columns and rows, at this time, before
    /// its supervisor has started.
    pub fn new(
        preferred: Option<String>,
        cols: u16,
        rows: u16,
        now_ms: u64,
        config: SettingsConfig,
    ) -> (r: App)
        ensures
            r@ == (AppView {
                model: model::local_only(),
                frame: None,
                status: StatusView::Live,
                live_cols: cols,
                live_rows: rows,
                connect_menu_open: false,
                now_ms,
                scroll: 0,
                frame_base: 0,
                selection: None,
                session_wants_mouse: false,
                pointer: None,
                linked: false,
                generation: 0,
                preferred: vt::text_view(preferred),
                show_settings: false,
                settings_page: SettingsPage::General,
                settings_form: None,
                saved_ssh: settings::connections_view(config.ssh_connections@),
            }),
            r@.wf(),
    {
        App {
            model: Model::with_local(),
            frame: None,
            status: Status::Live,
            live_cols: cols,
            live_rows: rows,
            connect_menu_open: false,
            now_ms,
            scroll: 0,
            frame_base: 0,
            selection: None,
            session_wants_mouse: false,
            pointer: None,
            linked: false,
            generation: 0,
            preferred,
            show_settings: false,
            settings_page: SettingsPage::General,
            settings_form: None,
            saved_ssh: config.ssh_connections,
        }
    }

    /// The window's title.
    pub fn title(&self) -> (r: String)
        ensures
            r@ == match self@.model.active {
                Some((_, name)) => "asd — "@ + name,
                None => "asd"@,
            },
    {
        match &self.model.active {
            Some((_, name)) => text::join2("asd — ", name.as_str()),
            None => "asd".to_owned(),
        }
    }

    /// Ask the supervisor, while there is one.
    fn send(&self, cmd: AppCmd, todo: &mut Vec<Effect>)
        ensures
            app::effects(final(todo)@) == app::effects(old(todo)@) + self@.ask(cmd@),
    {
        if self.linked {
            let e = Effect::Send(cmd);
            proof {
                lemma_effects_push(todo@, e);
            }
            todo.push(e);
        }
        assert(app::effects(todo@) =~= app::effects(old(todo)@) + self@.ask(cmd@));
    }

    /// What asking the supervisor comes to.
    fn ask(&self, cmd: AppCmd) -> (r: Vec<Effect>)
        ensures
            app::effects(r@) == self@.ask(cmd@),
    {
        let mut todo = nothing();
        self.send(cmd, &mut todo);
        assert(app::effects(todo@) =~= self@.ask(cmd@));
        todo
    }

    /// Put a session on view.
    fn attach(&mut self, host: HostId, name: String) -> (r: Vec<Effect>)
        requires
            old(self)@.wf(),
        ensures
            (final(self)@, app::effects(r@)) == old(self)@.attached(host, name@),
            final(self)@.wf(),
    {
        let cols: u16 = self.live_cols;
        let rows: u16 = self.live_rows;
        self.model.select(host, name.clone());
        self.status = Status::Live;
        self.scroll = 0;
        self.selection = None;
        self.frame = None;
        let mut todo = only(Effect::Repaint);
        self.send(AppCmd::SetActive { host, name, cols, rows }, &mut todo);
        todo
    }

    /// Tell a supervisor that started of the remotes and the session on view.
    fn supervise(&mut self) -> (r: Vec<Effect>)
        requires
            old(self)@.wf(),
        ensures
            (final(self)@, app::effects(r@)) == old(self)@.supervised(),
            final(self)@.wf(),
    {
        self.linked = true;
        let mut todo = nothing();
        let ghost hosts = self@.model.hosts;
        let mut i: usize = 0;
        assert(hosts.take(0) =~= Seq::empty());
        while i < self.model.hosts.len()
            invariant
                i <= self.model.hosts.len(),
                self.linked,
                hosts == self@.model.hosts,
                app::effects(todo@) == app::asked_remotes(true, hosts.take(i as int)),
            decreases self.model.hosts.len() - i,
        {
            proof {
                assert(hosts.take(i + 1).drop_last() =~= hosts.take(i as int));
                assert(hosts.take(i + 1).last() == self.model.hosts@[i as int]@);
            }
            let ghost before = app::effects(todo@);
            match &self.model.hosts[i].kind {
                HostKind::Ssh(remote) => {
                    let cmd = AppCmd::AddRemote {
                        id: self.model.hosts[i].id,
                        remote: remote.copy(),
                    };
                    self.send(cmd, &mut todo);
                },
                HostKind::Local => {
                    assert(before =~= before + Seq::<EffectView>::empty());
                },
            }
            i += 1;
        }
        assert(hosts.take(i as int) =~= hosts);
        let ghost before = app::effects(todo@);
        match &self.model.active {
            Some((host, name)) => {
                let cmd = AppCmd::SetActive {
                    host: *host,
                    name: name.clone(),
                    cols: self.live_cols,
                    rows: self.live_rows,
                };
                self.send(cmd, &mut todo);
            },
            None => {
                assert(before =~= before + Seq::<EffectView>::empty());
            },
        }
        todo
    }

    /// The session to put on view, given the local host's sessions.
    fn pick(preferred: Option<String>, sessions: &Vec<SessionInfo>) -> (r: String)
        requires
            sessions@.len() > 0,
        ensures
            r@ == match vt::text_view(preferred) {
                Some(p) => if app::lists(sessions@, p) {
                    p
                } else {
                    sessions@[0].name@
                },
                None => sessions@[0].name@,
            },
    {
        if let Some(p) = &preferred {
            let mut i: usize = 0;
            while i < sessions.len()
                invariant
                    i <= sessions.len(),
                    vt::text_view(preferred) == Some(p@),
                    forall|k: int| 0 <= k < i ==> (#[trigger] sessions@[k]).name@ != p@,
                decreases sessions.len() - i,
            {
                if text::same(sessions[i].name.as_str(), p.as_str()) {
                    assert(app::lists(sessions@, p@));
                    return p.clone();
                }
                i += 1;
            }
        }
        sessions[0].name.clone()
    }

    /// Take in a host's sessions.
    fn list(&mut self, host: HostId, sessions: Vec<SessionInfo>) -> (r: Vec<Effect>)
        requires
            old(self)@.wf(),
        ensures
            (final(self)@, app::effects(r@)) == old(self)@.informed(
                crate::gui::conn::UiEventView::Sessions { host, sessions: sessions@ },
            ),
            final(self)@.wf(),
    {
        let ghost before = self@;
        let ghost given = sessions@;
        self.model.set_sessions(host, sessions);
        if self.model.active.is_none() && host == LOCAL_ID {
            let ghost s = self@;
            let ghost hosts = self@.model.hosts;
            match self.model.host(LOCAL_ID) {
                Some(h) => {
                    proof {
                        let i = choose|i: int| 0 <= i < hosts.len() && #[trigger] hosts[i] == h@;
                        assert(hosts[i].id == LOCAL_ID);
                        assert(before.model.hosts[i].id == LOCAL_ID);
                        assert(h.sessions@ == given);
                    }
                    if h.sessions.len() > 0 {
                        let preferred = match &self.preferred {
                            Some(p) => Some(p.clone()),
                            None => None,
                        };
                        let name = App::pick(preferred, &h.sessions);
                        self.preferred = None;
                        return self.attach(LOCAL_ID, name);
                    }
                },
                None => {},
            }
        }
        nothing()
    }

    /// Take in what a host says.
    fn inform(&mut self, event: UiEvent) -> (r: Vec<Effect>)
        requires
            old(self)@.wf(),
            event matches UiEvent::Frame { base, .. } ==> base + u16::MAX <= usize::MAX,
        ensures
            (final(self)@, app::effects(r@)) == old(self)@.informed(event@),
            final(self)@.wf(),
    {
        match event {
            UiEvent::State { host, state } => {
                let viewed = match &self.model.active {
                    Some((h, _)) => *h == host,
                    None => false,
                };
                if viewed {
                    if let HostState::Down(msg) = &state {
                        self.status = Status::Disconnected(msg.clone());
                    }
                }
                self.model.set_state(host, state);
                nothing()
            },
            UiEvent::Sessions { host, sessions } => self.list(host, sessions),
            UiEvent::Created { host, name } => self.attach(host, name),
            UiEvent::Frame { host, name, snap, session_wants_mouse, base } => {
                if self.model.is_active(host, name.as_str()) {
                    self.session_wants_mouse = session_wants_mouse;
                    self.frame_base = base;
                    self.frame = Some(*snap);
                    self.status = Status::Live;
                    only(Effect::Repaint)
                } else {
                    nothing()
                }
            },
            UiEvent::SessionEnded { host, name, msg } => {
                if self.model.is_active(host, name.as_str()) {
                    self.status = Status::Ended(msg);
                }
                nothing()
            },
        }
    }

    /// Connect a saved connection.
    fn connect(&mut self, i: usize) -> (r: Vec<Effect>)
        requires
            old(self)@.wf(),
            old(self)@.model.next_id < u64::MAX,
        ensures
            (final(self)@, app::effects(r@)) == old(self)@.connected(i),
            final(self)@.wf(),
    {
        self.connect_menu_open = false;
        if i < self.saved_ssh.len() {
            let c = &self.saved_ssh[i];
            assert(self@.saved_ssh[i as int] == c@);
            if !self.model.has_remote(c.user.as_str(), c.host.as_str(), c.port) {
                let remote = RemoteSpec {
                    user: c.user.clone(),
                    host: c.host.clone(),
                    port: c.port,
                    auth: c.auth.copy(),
                    name: c.name.clone(),
                };
                let copy = remote.copy();
                let id: HostId = self.model.add_remote(remote);
                return self.ask(AppCmd::AddRemote { id, remote: copy });
            }
        }
        nothing()
    }

    /// Go back to the bottom, without a selection.
    fn return_to_bottom(&mut self) -> (r: Vec<Effect>)
        requires
            old(self)@.wf(),
        ensures
            (final(self)@, app::effects(r@)) == old(self)@.returned(),
            final(self)@.wf(),
    {
        let mut todo = nothing();
        if self.scroll != 0 {
            self.scroll = 0;
            self.send(AppCmd::Scroll(0), &mut todo);
            assert(app::effects(todo@) =~= self@.ask(AppCmdView::Scroll(0)));
        }
        self.selection = None;
        todo
    }

    /// Send the presses of composed characters.
    fn type_text(&self, chars: &str, mods: Modifiers, todo: &mut Vec<Effect>)
        ensures
            app::effects(final(todo)@) == app::effects(old(todo)@) + app::asked_typed(
                self.linked,
                chars@,
                mods.mods(),
            ),
    {
        let ghost before = app::effects(todo@);
        let typed = text::chars_of(chars);
        let mut i: usize = 0;
        assert(chars@.take(0) =~= Seq::empty());
        assert(before =~= before + Seq::<EffectView>::empty());
        while i < typed.len()
            invariant
                i <= typed.len(),
                typed@ == chars@,
                app::effects(todo@) == before + app::asked_typed(
                    self.linked,
                    chars@.take(i as int),
                    mods.mods(),
                ),
            decreases typed.len() - i,
        {
            proof {
                assert(chars@.take(i + 1).drop_last() =~= chars@.take(i as int));
                assert(chars@.take(i + 1).last() == typed@[i as int]);
            }
            let ghost sofar = app::asked_typed(self.linked, chars@.take(i as int), mods.mods());
            match map_ime_char(typed[i], mods) {
                Some(ev) => {
                    let ghost more = self@.ask(AppCmdView::Key(ev@));
                    self.send(AppCmd::Key(ev), todo);
                    assert(before + sofar + more =~= before + (sofar + more));
                },
                None => {
                    assert(before + sofar =~= before + (sofar + Seq::<EffectView>::empty()));
                },
            }
            i += 1;
        }
        assert(chars@.take(i as int) =~= chars@);
    }

    /// A key went down.
    fn press(&mut self, key: &Key, modifiers: Modifiers, text: Option<String>) -> (r: Vec<Effect>)
        requires
            old(self)@.wf(),
        ensures
            (final(self)@, app::effects(r@)) == old(self)@.pressed(
                key@,
                modifiers.mods(),
                vt::text_view(text),
            ),
            final(self)@.wf(),
    {
        if self.model.active.is_none() {
            return nothing();
        }
        let mut todo = self.return_to_bottom();
        match map_key(key, modifiers) {
            Some(ev) => {
                self.send(AppCmd::Key(ev), &mut todo);
            },
            None => {
                let ghost before = app::effects(todo@);
                match &text {
                    Some(t) => {
                        self.type_text(t.as_str(), modifiers, &mut todo);
                    },
                    None => {
                        assert(before =~= before + Seq::<EffectView>::empty());
                    },
                }
            },
        }
        todo
    }

    /// An input method composed a text.
    fn compose(&mut self, text: &str) -> (r: Vec<Effect>)
        requires
            old(self)@.wf(),
        ensures
            (final(self)@, app::effects(r@)) == old(self)@.composed(text@),
            final(self)@.wf(),
    {
        if self.model.active.is_none() {
            return nothing();
        }
        let mut todo = self.return_to_bottom();
        self.type_text(text, Modifiers::empty(), &mut todo);
        todo
    }

    /// The wheel turned.
    fn wheel(&mut self, delta: i32) -> (r: Vec<Effect>)
        requires
            old(self)@.wf(),
            delta > i32::MIN,
        ensures
            (final(self)@, app::effects(r@)) == old(self)@.scrolled(delta),
            final(self)@.wf(),
    {
        if self.model.active.is_none() {
            return nothing();
        }
        let to: usize = if delta > 0 {
            let up: usize = self.scroll + delta as usize;
            if up > MAX_SCROLL {
                MAX_SCROLL
            } else {
                up
            }
        } else {
            let down: usize = (-delta) as usize;
            if self.scroll < down {
                0
            } else {
                self.scroll - down
            }
        };
        if to == self.scroll {
            return nothing();
        }
        self.scroll = to;
        self.ask(AppCmd::Scroll(to))
    }

    /// The button went up.
    fn release(&mut self) -> (r: Vec<Effect>)
        requires
            old(self)@.wf(),
        ensures
            (final(self)@, app::effects(r@)) == old(self)@.released(),
            final(self)@.wf(),
    {
        let selected = self.selection;
        self.selection = None;
        if let Some(sel) = selected {
            if let Some(snap) = &self.frame {
                let copied = extract_selection_text(snap, sel, self.frame_base);
                if !copied.as_str().is_empty() {
                    return only(Effect::Copy(copied));
                }
            }
        }
        nothing()
    }

    /// Save the form, where it can be saved.
    fn save_form(&mut self) -> (r: Vec<Effect>)
        requires
            old(self)@.wf(),
        ensures
            (final(self)@, app::effects(r@)) == old(self)@.form_saved(),
            final(self)@.wf(),
    {
        let ghost before = self@;
        let (index, made) = match &self.settings_form {
            Some(form) => (form.index, form.into_connection()),
            None => (None, None),
        };
        match made {
            Some(c) => {
                let ghost saved = self.saved_ssh@;
                match index {
                    Some(i) => {
                        if i < self.saved_ssh.len() {
                            self.saved_ssh.set(i, c);
                        } else {
                            self.saved_ssh.push(c);
                        }
                    },
                    None => {
                        self.saved_ssh.push(c);
                    },
                }
                self.settings_form = None;
                assert(self@ =~= before.form_saved().0);
                only(Effect::Save)
            },
            None => nothing(),
        }
    }

    /// Change the form, where one is open.
    fn edit_form(&mut self, m: SettingsMsg)
        requires
            old(self)@.wf(),
            m is FormName || m is FormHost || m is FormUser || m is FormPort || m is FormAuthKind
                || m is FormPassword || m is FormKeyPath || m is FormPassphrase,
        ensures
            final(self)@ == old(self)@.configured(m@).0,
            old(self)@.configured(m@).1 == Seq::<EffectView>::empty(),
            final(self)@.wf(),
    {
        if let Some(mut f) = self.settings_form.take() {
            match m {
                SettingsMsg::FormName(s) => {
                    f.name = s;
                },
                SettingsMsg::FormHost(s) => {
                    f.host = s;
                },
                SettingsMsg::FormUser(s) => {
                    f.user = s;
                },
                SettingsMsg::FormPort(s) => {
                    f.port = s;
                },
                SettingsMsg::FormAuthKind(k) => {
                    f.auth_kind = k;
                },
                SettingsMsg::FormPassword(s) => {
                    f.password = s;
                },
                SettingsMsg::FormKeyPath(s) => {
                    f.key_path = s;
                },
                SettingsMsg::FormPassphrase(s) => {
                    f.passphrase = s;
                },
                _ => {},
            }
            self.settings_form = Some(f);
        }
    }

    /// The user does something in the settings panel.
    fn configure(&mut self, m: SettingsMsg) -> (r: Vec<Effect>)
        requires
            old(self)@.wf(),
        ensures
            (final(self)@, app::effects(r@)) == old(self)@.configured(m@),
            final(self)@.wf(),
    {
        match m {
            SettingsMsg::Close => {
                self.show_settings = false;
                self.settings_form = None;
                nothing()
            },
            SettingsMsg::Nav(page) => {
                self.settings_page = page;
                self.settings_form = None;
                nothing()
            },
            SettingsMsg::AddConnection => {
                self.settings_form = Some(SshForm::default());
                nothing()
            },
            SettingsMsg::EditConnection(i) => {
                if i < self.saved_ssh.len() {
                    assert(self@.saved_ssh[i as int] == self.saved_ssh@[i as int]@);
                    self.settings_form = Some(SshForm::from_conn(&self.saved_ssh[i], i));
                }
                nothing()
            },
            SettingsMsg::DeleteConnection(i) => {
                if i < self.saved_ssh.len() {
                    let ghost before = self@;
                    self.saved_ssh.remove(i);
                    assert(self@.saved_ssh =~= before.saved_ssh.remove(i as int));
                    only(Effect::Save)
                } else {
                    nothing()
                }
            },
            SettingsMsg::SaveConnection => self.save_form(),
            SettingsMsg::CancelEdit => {
                self.settings_form = None;
                nothing()
            },
            _ => {
                self.edit_form(m);
                nothing()
            },
        }
    }

    /// Take in a message: what it changes, and what it asks for in turn.
    pub fn update(&mut self, message: Message) -> (r: Vec<Effect>)
        requires
            old(self)@.wf(),
            old(self)@.takes(message@),
        ensures
            (final(self)@, app::effects(r@)) == old(self)@.updated(message@),
            final(self)@.wf(),
    {
        match message {
            Message::Supervisor => self.supervise(),
            Message::Ui(event) => self.inform(event),
            Message::Select(host, name) => {
                if self.model.is_active(host, name.as_str()) {
                    nothing()
                } else {
                    self.attach(host, name)
                }
            },
            Message::NewSession(host) => self.ask(AppCmd::Create { host }),
            Message::Kill(host, name) => self.ask(AppCmd::Kill { host, name }),
            Message::RemoveHost(id) => {
                self.model.remove_host(id);
                self.ask(AppCmd::RemoveHost { id })
            },
            Message::ToggleConnectMenu => {
                self.connect_menu_open = !self.connect_menu_open;
                nothing()
            },
            Message::ConnectSaved(i) => self.connect(i),
            Message::OpenConnections => {
                self.connect_menu_open = false;
                self.show_settings = true;
                self.settings_page = SettingsPage::Connections;
                nothing()
            },
            Message::Reconnect => {
                self.generation = self.generation + 1;
                self.model.reset_states();
                nothing()
            },
            Message::Keyboard(Keyboard::Pressed { key, modifiers, text }) => self.press(
                &key,
                modifiers,
                text,
            ),
            Message::Keyboard(Keyboard::Other) => nothing(),
            Message::Resized { cols, rows } => {
                if cols == self.live_cols && rows == self.live_rows {
                    nothing()
                } else {
                    self.live_cols = cols;
                    self.live_rows = rows;
                    self.ask(AppCmd::Resize { cols, rows })
                }
            },
            Message::Tick(now) => {
                self.now_ms = now;
                nothing()
            },
            Message::MouseScroll(delta) => self.wheel(delta),
            Message::MousePress => {
                if self.model.active.is_some() {
                    if let Some((col, row)) = self.pointer {
                        let spot = (col, abs_row(self.frame_base, row as usize));
                        self.selection = Some(GuiSelection { anchor: spot, head: spot });
                    }
                }
                nothing()
            },
            Message::MouseMove { col, row } => {
                self.pointer = Some((col, row));
                if let Some(sel) = self.selection {
                    let spot = (col, abs_row(self.frame_base, row as usize));
                    self.selection = Some(GuiSelection { anchor: sel.anchor, head: spot });
                }
                nothing()
            },
            Message::MouseRelease => self.release(),
            Message::ImeCommit(text) => self.compose(text.as_str()),
            Message::ToggleSettings => {
                self.show_settings = !self.show_settings;
                if !self.show_settings {
                    self.settings_form = None;
                }
                nothing()
            },
            Message::Settings(m) => self.configure(m),
        }
    }
}

} // verus!
