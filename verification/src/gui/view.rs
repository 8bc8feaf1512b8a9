//! What the window shows around the terminal, as plain values.
use crate::gui::app::{App, AppView, Status, StatusView};
use crate::gui::model::{Host, HostState, HostView, KindView, Model, ModelView, StateView, LOCAL_ID};
use crate::proto::SessionInfo;
use crate::text;
use vstd::prelude::*;
use vstd::string::*;

verus! {

/// What makes a word plural.
pub open spec fn plural_of(n: nat) -> Seq<char> {
    if n == 1 {
        ""@
    } else {
        "s"@
    }
}

/// What makes a word plural.
pub fn plural(n: usize) -> (r: &'static str)
    ensures
        r@ == plural_of(n as nat),
        n == 1 ==> r@ == ""@,
        n != 1 ==> r@ == "s"@,
{
    if n == 1 {
        ""
    } else {
        "s"
    }
}

/// The line below the brand: how many sessions on how many hosts.
pub fn brand_tag(model: &Model) -> (r: String)
    requires
        model@.sessions_upto(model@.hosts.len()) <= usize::MAX,
    ensures
        r@ == ({
            let sessions = model@.sessions_upto(model@.hosts.len());
            let hosts = model@.hosts.len();
            text::decimal_text(sessions) + " session"@ + plural_of(sessions) + " · "@
                + text::decimal_text(hosts) + " host"@ + plural_of(hosts)
        }),
{
    let total: usize = model.total_sessions();
    let hosts: usize = model.hosts.len();
    let mut s = text::decimal(total as u64);
    s.append(" session");
    s.append(plural(total));
    s.append(" · ");
    let n = text::decimal(hosts as u64);
    s.append(n.as_str());
    s.append(" host");
    s.append(plural(hosts));
    s
}

/// The colour of a host's dot.
#[derive(Debug, Clone, Copy, PartialEq, Eq, Structural)]
pub enum Dot {
    /// Up and well.
    Fine,
    /// The local accent, while it connects.
    Local,
    /// Something is wrong.
    Alert,
}

/// The line above a host's sessions.
#[derive(Debug, Clone, PartialEq, Eq)]
pub struct HostHead {
    pub dot: Dot,
    /// How the connection stands, or how many sessions there are.
    pub right: String,
    /// Whether `right` tells how the connection stands.
    pub tagged: bool,
    /// Whether the host can be taken out of the list.
    pub removable: bool,
}

/// The line above a host's sessions.
pub fn host_head(host: &Host) -> (r: HostHead)
    ensures
        r.removable == (host@.kind is Ssh),
        r.tagged == !(host@.state is Up),
        match host@.state {
            StateView::Up => r.dot == Dot::Fine && r.right@ == text::decimal_text(
                host@.sessions.len(),
            ),
            StateView::Connecting => r.dot == Dot::Local && r.right@ == "connecting"@,
            StateView::Down(_) => r.dot == Dot::Alert && r.right@ == "offline"@,
        },
{
    let removable = host.is_remote();
    match &host.state {
        HostState::Up => HostHead {
            dot: Dot::Fine,
            right: text::decimal(host.sessions.len() as u64),
            tagged: false,
            removable,
        },
        HostState::Connecting => HostHead {
            dot: Dot::Local,
            right: "connecting".to_owned(),
            tagged: true,
            removable,
        },
        HostState::Down(_) => HostHead {
            dot: Dot::Alert,
            right: "offline".to_owned(),
            tagged: true,
            removable,
        },
    }
}

/// A session's line in the sidebar.
#[derive(Debug, Clone, PartialEq, Eq)]
pub struct SessionRow {
    pub name: String,
    /// Whether the session is the one on view.
    pub selected: bool,
    /// Whether anyone is attached.
    pub filled: bool,
    /// How many are attached, where there is more than one.
    pub peers: Option<u32>,
}

/// A session's line in the sidebar.
pub fn session_row(model: &Model, host: &Host, session: &SessionInfo) -> (r: SessionRow)
    ensures
        r.name@ == session.name@,
        r.selected == model@.is_active(host@.id, session.name@),
        r.filled == (session.attached_clients > 0),
        r.peers == (if session.attached_clients > 1 {
            Some(session.attached_clients)
        } else {
            None
        }),
{
    SessionRow {
        name: session.name.clone(),
        selected: model.is_active(host.id, session.name.as_str()),
        filled: session.attached_clients > 0,
        peers: if session.attached_clients > 1 {
            Some(session.attached_clients)
        } else {
            None
        },
    }
}

/// Whether the local daemon is up.
pub open spec fn local_up(m: ModelView) -> bool {
    exists|i: int|
        0 <= i < m.hosts.len() && (#[trigger] m.hosts[i]).id == LOCAL_ID && m.hosts[i].state is Up
}

/// The foot of the sidebar, and whether the daemon is up.
pub fn sidebar_foot(model: &Model) -> (r: (bool, &'static str))
    requires
        model@.wf(),
    ensures
        r.0 == local_up(model@),
        r.1@ == (if r.0 {
            "daemon up · proto v1"@
        } else {
            "daemon down · click to reconnect"@
        }),
{
    let up = match model.host(LOCAL_ID) {
        Some(h) => {
            let ghost hosts = model@.hosts;
            let ghost seen = h@;
            let is_up = match h.state {
                HostState::Up => true,
                _ => false,
            };
            proof {
                let i = choose|i: int| 0 <= i < hosts.len() && #[trigger] hosts[i] == seen;
                assert(hosts[i].id == LOCAL_ID);
                if local_up(model@) {
                    let k = choose|k: int|
                        0 <= k < hosts.len() && (#[trigger] hosts[k]).id == LOCAL_ID
                            && hosts[k].state is Up;
                    assert(k == i);
                }
            }
            is_up
        },
        None => false,
    };
    if up {
        (true, "daemon up · proto v1")
    } else {
        (false, "daemon down · click to reconnect")
    }
}

/// What the terminal pane shows.
#[derive(Debug, Clone, PartialEq, Eq)]
pub enum Pane {
    /// A note in place of a terminal.
    Note(String),
    /// The terminal.
    Terminal,
}

/// The note of the pane, where it shows one. While no session is on view that is a
/// hint, whatever became of the last one; else it is why there is nothing to see.
pub open spec fn note(s: AppView) -> Option<Seq<char>> {
    if s.model.active is None {
        Some("Select a session, or connect a host to start."@)
    } else {
        match s.status {
            StatusView::Disconnected(msg) => Some("connection lost: "@ + msg),
            StatusView::Ended(msg) => Some("session ended: "@ + msg),
            StatusView::Live => None,
        }
    }
}

/// What the terminal pane shows.
pub fn terminal_pane(app: &App) -> (r: Pane)
    ensures
        match r {
            Pane::Note(s) => note(app@) == Some(s@),
            Pane::Terminal => note(app@) is None,
        },
        r is Terminal <==> app@.model.active is Some && app@.status is Live,
        app@.model.active is None ==> (r matches Pane::Note(s) && s@
            == "Select a session, or connect a host to start."@),
        app@.model.active is Some ==> match app@.status {
            StatusView::Disconnected(msg) => r matches Pane::Note(s) && s@ == "connection lost: "@
                + msg,
            StatusView::Ended(msg) => r matches Pane::Note(s) && s@ == "session ended: "@ + msg,
            StatusView::Live => true,
        },
{
    if app.model.active.is_none() {
        return Pane::Note("Select a session, or connect a host to start.".to_owned());
    }
    match &app.status {
        Status::Disconnected(msg) => Pane::Note(text::join2("connection lost: ", msg.as_str())),
        Status::Ended(msg) => Pane::Note(text::join2("session ended: ", msg.as_str())),
        Status::Live => Pane::Terminal,
    }
}

/// How a host is called in the sidebar: the name of its connection, or where it
/// is.
pub open spec fn label_of(h: HostView) -> Seq<char> {
    match h.kind {
        KindView::Local => "local"@,
        KindView::Ssh(s) => s.name,
    }
}

/// How a host is called in the sidebar.
pub fn host_label(host: &Host) -> (r: String)
    ensures
        r@ == label_of(host@),
        host@.kind is Local ==> r@ == "local"@,
        host@.kind matches KindView::Ssh(s) ==> r@ == s.name,
{
    match &host.kind {
        crate::gui::model::HostKind::Local => "local".to_owned(),
        crate::gui::model::HostKind::Ssh(s) => s.name.clone(),
    }
}

/// The size of the terminal, as its header shows it.
pub fn size_text(app: &App) -> (r: String)
    ensures
        r@ == text::decimal_text(app@.live_cols as nat) + " × "@ + text::decimal_text(
            app@.live_rows as nat,
        ),
{
    let cols = text::decimal(app.live_cols as u64);
    let rows = text::decimal(app.live_rows as u64);
    text::join3(cols.as_str(), " × ", rows.as_str())
}

} // verus!
