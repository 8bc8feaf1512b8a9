//! What the window does about each thing that happens, told in terms of what the
//! user sees and what the daemon is sent.
use crate::gui::app;
use crate::gui::app::{
    AppCmdView, AppView, EffectView, KeyboardView, MessageView, StatusView, MAX_SCROLL,
};
use crate::gui::conn::UiEventView;
use crate::gui::key;
use crate::gui::key::{KeyView, Modifiers};
use crate::gui::model::{HostId, KindView, RemoteView, StateView, LOCAL_ID};
use crate::gui::render;
use crate::gui::settings::{AuthKind, ConnectionView, SettingsMsgView, SettingsPage};
use crate::gui::vt;
use crate::gui::vt::{KeyPress, Mods, RenderSnapshot};
use crate::proto::SessionInfo;
use vstd::prelude::*;

verus! {

/// What is sent for these commands: each of them, in order, once there is a
/// supervisor, and nothing before.
pub open spec fn sent(linked: bool, cmds: Seq<AppCmdView>) -> Seq<EffectView> {
    if linked {
        cmds.map_values(|c: AppCmdView| EffectView::Send(c))
    } else {
        Seq::empty()
    }
}

proof fn lemma_one(linked: bool, c: AppCmdView)
    ensures
        app::asked(linked, c) == sent(linked, seq![c]),
        sent(linked, Seq::empty()) == Seq::<EffectView>::empty(),
{
    assert(app::asked(linked, c) =~= sent(linked, seq![c]));
    assert(sent(linked, Seq::empty()) =~= Seq::<EffectView>::empty());
}

proof fn lemma_one_more(linked: bool, cmds: Seq<AppCmdView>, c: AppCmdView)
    ensures
        sent(linked, cmds.push(c)) == sent(linked, cmds) + app::asked(linked, c),
{
    if linked {
        assert(sent(linked, cmds.push(c)) =~= sent(linked, cmds) + app::asked(linked, c));
    } else {
        assert(sent(linked, cmds) + app::asked(linked, c) =~= Seq::<EffectView>::empty());
    }
}

/// Law: a screen of the session on view is shown: it is what the pane holds from
/// then on, the session is live, and the pane is painted anew.
pub proof fn law_screen_is_shown(
    s: AppView,
    host: HostId,
    name: Seq<char>,
    snap: RenderSnapshot,
    session_wants_mouse: bool,
    base: usize,
)
    requires
        s.model.active == Some((host, name)),
    ensures
        ({
            let (after, todo) = s.updated(
                MessageView::Ui(UiEventView::Frame { host, name, snap, session_wants_mouse, base }),
            );
            &&& after.frame == Some(snap)
            &&& after.frame_base == base
            &&& after.session_wants_mouse == session_wants_mouse
            &&& after.status == StatusView::Live
            &&& after.model == s.model && after.scroll == s.scroll && after.selection
                == s.selection && after.saved_ssh == s.saved_ssh && after.live_cols == s.live_cols
                && after.live_rows == s.live_rows
            &&& todo == seq![EffectView::Repaint]
        }),
{
}

/// Law: the end of the session on view is shown with its reason; that of another
/// changes nothing. The screen and the list of hosts stay.
pub proof fn law_session_end_is_shown(s: AppView, host: HostId, name: Seq<char>, msg: Seq<char>)
    ensures
        ({
            let (after, todo) = s.updated(
                MessageView::Ui(UiEventView::SessionEnded { host, name, msg }),
            );
            &&& s.model.active == Some((host, name)) ==> after.status == StatusView::Ended(msg)
            &&& s.model.active != Some((host, name)) ==> after == s
            &&& after.model == s.model && after.frame == s.frame
            &&& todo.len() == 0
        }),
{
}

/// Law: what a host says of itself is kept with that host, and nothing is changed
/// of another.
pub proof fn law_host_is_kept_up_to_date(
    s: AppView,
    host: HostId,
    state: StateView,
    sessions: Seq<SessionInfo>,
    i: int,
)
    requires
        0 <= i < s.model.hosts.len(),
    ensures
        ({
            let one = s.updated(MessageView::Ui(UiEventView::State { host, state })).0;
            let two = s.updated(MessageView::Ui(UiEventView::Sessions { host, sessions })).0;
            let h = s.model.hosts[i];
            &&& one.model.hosts.len() == s.model.hosts.len()
            &&& two.model.hosts.len() == s.model.hosts.len()
            &&& one.model.hosts[i].id == h.id && two.model.hosts[i].id == h.id
            &&& one.model.hosts[i].kind == h.kind && two.model.hosts[i].kind == h.kind
            &&& one.model.hosts[i].sessions == h.sessions
            &&& two.model.hosts[i].state == h.state
            &&& one.model.hosts[i].state == (if h.id == host {
                state
            } else {
                h.state
            })
            &&& two.model.hosts[i].sessions == (if h.id == host {
                sessions
            } else {
                h.sessions
            })
            &&& one.model.active == s.model.active && one.model.next_id == s.model.next_id
            &&& two.model.next_id == s.model.next_id
        }),
{
}

/// Law: the first list of the local host puts a session on view where none is: the
/// one that was asked for if it is listed, else the first. Any other list leaves
/// the pane alone.
pub proof fn law_first_list_picks_a_session(
    s: AppView,
    host: HostId,
    sessions: Seq<SessionInfo>,
    i: int,
)
    requires
        exists|k: int|
            0 <= k < s.model.hosts.len() && (#[trigger] s.model.hosts[k]).id == LOCAL_ID,
    ensures
        ({
            let (after, todo) = s.updated(
                MessageView::Ui(UiEventView::Sessions { host, sessions }),
            );
            &&& (s.model.active is Some || host != LOCAL_ID || sessions.len() == 0)
                ==> after.model.active == s.model.active && todo.len() == 0 && after.preferred
                == s.preferred
            &&& s.model.active is None && host == LOCAL_ID && sessions.len() > 0 ==> {
                &&& after.model.active matches Some(on) && on.0 == LOCAL_ID && {
                    &&& s.preferred is None ==> on.1 == sessions[0].name@
                    &&& (s.preferred matches Some(p) && 0 <= i < sessions.len() && sessions[i].name@
                        == p) ==> on.1 == s.preferred->0
                    &&& (s.preferred matches Some(p) && on.1 != p) ==> on.1 == sessions[0].name@
                    &&& todo == seq![EffectView::Repaint] + sent(
                        s.linked,
                        seq![
                            AppCmdView::SetActive {
                                host: LOCAL_ID,
                                name: on.1,
                                cols: s.live_cols,
                                rows: s.live_rows,
                            },
                        ],
                    )
                }
                &&& after.preferred is None
                &&& after.status == StatusView::Live && after.scroll == 0
            }
        }),
{
    let k = choose|k: int|
        0 <= k < s.model.hosts.len() && (#[trigger] s.model.hosts[k]).id == LOCAL_ID;
    let m = s.model.with_sessions(LOCAL_ID, sessions);
    assert(m.hosts[k].id == LOCAL_ID);
    let (after, todo) = s.updated(MessageView::Ui(UiEventView::Sessions { host, sessions }));
    if s.model.active is None && host == LOCAL_ID && sessions.len() > 0 {
        let t = AppView { model: m, ..s };
        assert(t.knows_local());
        if 0 <= i < sessions.len() && s.preferred == Some(sessions[i].name@) {
            assert(app::lists(sessions, sessions[i].name@));
        }
        lemma_one(
            s.linked,
            AppCmdView::SetActive {
                host: LOCAL_ID,
                name: (after.model.active->0).1,
                cols: s.live_cols,
                rows: s.live_rows,
            },
        );
    }
}

/// Law: putting a session on view asks its host for it, at the pane's size; so does
/// one that was just created.
pub proof fn law_chosen_session_is_asked_for(s: AppView, host: HostId, name: Seq<char>)
    ensures
        ({
            let set = AppCmdView::SetActive { host, name, cols: s.live_cols, rows: s.live_rows };
            let chosen = s.updated(MessageView::Select(host, name));
            let created = s.updated(MessageView::Ui(UiEventView::Created { host, name }));
            &&& s.model.active != Some((host, name)) ==> chosen.1 == seq![EffectView::Repaint]
                + sent(s.linked, seq![set])
            &&& s.model.active != Some((host, name)) ==> chosen == created
            &&& created.1 == seq![EffectView::Repaint] + sent(s.linked, seq![set])
            &&& created.0.model.active == Some((host, name))
            &&& created.0.model.hosts == s.model.hosts
            &&& created.0.status == StatusView::Live && created.0.scroll == 0
            &&& created.0.frame is None && created.0.selection is None
        }),
{
    lemma_one(
        s.linked,
        AppCmdView::SetActive { host, name, cols: s.live_cols, rows: s.live_rows },
    );
}

/// Law: asking for a new session, or for the end of one, is passed on to the host it
/// is asked of, and changes nothing in the window.
pub proof fn law_sessions_are_asked_for(s: AppView, host: HostId, name: Seq<char>)
    ensures
        s.updated(MessageView::NewSession(host)) == (
            s,
            sent(s.linked, seq![AppCmdView::Create { host }]),
        ),
        s.updated(MessageView::Kill(host, name)) == (
            s,
            sent(s.linked, seq![AppCmdView::Kill { host, name }]),
        ),
{
    lemma_one(s.linked, AppCmdView::Create { host });
    lemma_one(s.linked, AppCmdView::Kill { host, name });
}

/// Law: a host that is removed is gone from the list and the supervisor is told; the
/// others stay, and so does the session on view unless it was on that host.
pub proof fn law_removed_host_is_gone(s: AppView, id: HostId)
    ensures
        ({
            let (after, todo) = s.updated(MessageView::RemoveHost(id));
            &&& forall|i: int|
                0 <= i < after.model.hosts.len() ==> (#[trigger] after.model.hosts[i]).id != id
            &&& forall|i: int|
                0 <= i < s.model.hosts.len() && (#[trigger] s.model.hosts[i]).id != id
                    ==> after.model.hosts.contains(s.model.hosts[i])
            &&& s.model.active matches Some(on) ==> after.model.active == (if on.0 == id {
                None
            } else {
                s.model.active
            })
            &&& s.model.active is None ==> after.model.active is None
            &&& todo == sent(s.linked, seq![AppCmdView::RemoveHost { id }])
        }),
{
    lemma_one(s.linked, AppCmdView::RemoveHost { id });
    broadcast use vstd::seq_lib::group_filter_ensures;

}

/// Law: a saved connection that is chosen becomes a host of its own, at the end of
/// the list and not yet reached, under an id that no host has; the supervisor is
/// told of the same remote under the same id, and the menu closes.
pub proof fn law_saved_connection_is_connected(s: AppView, i: usize)
    requires
        s.model.wf(),
        s.model.next_id < u64::MAX,
    ensures
        ({
            let (after, todo) = s.updated(MessageView::ConnectSaved(i));
            let n = s.model.hosts.len() as int;
            &&& !after.connect_menu_open
            &&& after.model.active == s.model.active
            &&& i >= s.saved_ssh.len() ==> after.model == s.model && todo.len() == 0
            &&& i < s.saved_ssh.len() ==> {
                let c = s.saved_ssh[i as int];
                let remote = RemoteView {
                    user: c.user,
                    host: c.host,
                    port: c.port,
                    auth: c.auth,
                    name: c.name,
                };
                ||| s.model.has_remote(c.user, c.host, c.port) && after.model == s.model
                    && todo.len() == 0
                ||| {
                    &&& !s.model.has_remote(c.user, c.host, c.port)
                    &&& after.model.hosts.len() == n + 1
                    &&& after.model.hosts.drop_last() == s.model.hosts
                    &&& after.model.hosts[n].kind == KindView::Ssh(remote)
                    &&& after.model.hosts[n].state == StateView::Connecting
                    &&& after.model.hosts[n].sessions.len() == 0
                    &&& forall|k: int|
                        0 <= k < n ==> (#[trigger] s.model.hosts[k]).id != after.model.hosts[n].id
                    &&& todo == sent(
                        s.linked,
                        seq![AppCmdView::AddRemote { id: after.model.hosts[n].id, remote }],
                    )
                }
            }
        }),
{
    if i < s.saved_ssh.len() {
        let c = s.saved_ssh[i as int];
        let remote = RemoteView {
            user: c.user,
            host: c.host,
            port: c.port,
            auth: c.auth,
            name: c.name,
        };
        lemma_one(s.linked, AppCmdView::AddRemote { id: s.model.next_id, remote });
        let after = s.updated(MessageView::ConnectSaved(i)).0;
        if !s.model.has_remote(c.user, c.host, c.port) {
            assert(after.model.hosts.drop_last() =~= s.model.hosts);
        }
        let t = AppView { connect_menu_open: false, ..s };
        assert(t.model == s.model);
    }
}

/// Law: reconnecting starts a new supervisor and has every host connect again; the
/// hosts themselves, their sessions and the session on view stay.
pub proof fn law_reconnect(s: AppView, i: int)
    requires
        s.generation < u64::MAX,
    ensures
        ({
            let (after, todo) = s.updated(MessageView::Reconnect);
            &&& after.generation == s.generation + 1
            &&& after.model.hosts.len() == s.model.hosts.len()
            &&& after.model.active == s.model.active && after.model.next_id == s.model.next_id
            &&& 0 <= i < s.model.hosts.len() ==> {
                &&& after.model.hosts[i].state == StateView::Connecting
                &&& after.model.hosts[i].id == s.model.hosts[i].id
                &&& after.model.hosts[i].kind == s.model.hosts[i].kind
                &&& after.model.hosts[i].sessions == s.model.hosts[i].sessions
            }
            &&& todo.len() == 0
        }),
{
}

/// Law: the menu opens and closes; going to the connections closes it and opens
/// their page of the settings; time passes.
pub proof fn law_menus(s: AppView, now: u64)
    ensures
        s.updated(MessageView::ToggleConnectMenu).0.connect_menu_open == !s.connect_menu_open,
        s.updated(MessageView::ToggleConnectMenu).0.updated(MessageView::ToggleConnectMenu).0 == s,
        ({
            let after = s.updated(MessageView::OpenConnections).0;
            &&& after.show_settings && !after.connect_menu_open
            &&& after.settings_page == SettingsPage::Connections
            &&& after.saved_ssh == s.saved_ssh && after.model == s.model
        }),
        s.updated(MessageView::ToggleSettings).0.show_settings == !s.show_settings,
        s.updated(MessageView::Tick(now)).0.now_ms == now,
        s.updated(MessageView::Tick(now)).0 == (AppView { now_ms: now, ..s }),
{
}

/// Law: a pane of another size is remembered and the session is told; the same size
/// again changes nothing.
pub proof fn law_resize(s: AppView, cols: u16, rows: u16)
    ensures
        ({
            let (after, todo) = s.updated(MessageView::Resized { cols, rows });
            &&& after.live_cols == cols && after.live_rows == rows
            &&& after == AppView { live_cols: cols, live_rows: rows, ..s }
            &&& (cols, rows) == (s.live_cols, s.live_rows) ==> todo.len() == 0
            &&& (cols, rows) != (s.live_cols, s.live_rows) ==> todo == sent(
                s.linked,
                seq![AppCmdView::Resize { cols, rows }],
            )
        }),
{
    lemma_one(s.linked, AppCmdView::Resize { cols, rows });
}

/// Law: the wheel moves the view by as many lines as it turned, up into the
/// scrollback for a positive turn, no further than its ends.
pub proof fn law_wheel_moves_by_its_turn(s: AppView, delta: i32)
    requires
        s.wf(),
        s.model.active is Some,
    ensures
        ({
            let (after, todo) = s.updated(MessageView::MouseScroll(delta));
            let to = s.scroll + delta;
            &&& 0 <= to <= MAX_SCROLL ==> after.scroll == to
            &&& to < 0 ==> after.scroll == 0
            &&& to > MAX_SCROLL ==> after.scroll == MAX_SCROLL
            &&& after.scroll != s.scroll ==> todo == sent(
                s.linked,
                seq![AppCmdView::Scroll(after.scroll)],
            )
            &&& after.scroll == s.scroll ==> todo.len() == 0
        }),
{
    let after = s.updated(MessageView::MouseScroll(delta)).0;
    lemma_one(s.linked, AppCmdView::Scroll(after.scroll));
}

/// The presses that type a text, one character each.
pub open spec fn presses(text: Seq<char>, mods: Mods) -> Seq<AppCmdView> {
    text.map_values(|c: char| press_of(c, mods))
}

/// The press that types one character.
pub open spec fn press_of(c: char, mods: Mods) -> AppCmdView {
    AppCmdView::Key(KeyPress { key: vt::Key::Char(c), mods, text: Some(seq![c]) })
}

/// Whether a text holds no control codes.
pub open spec fn printable(text: Seq<char>) -> bool {
    forall|i: int|
        0 <= i < text.len() ==> (#[trigger] text[i] as u32) >= 0x20 && !(0x7f <= (text[i] as u32)
            <= 0x9f)
}

proof fn lemma_typed(linked: bool, text: Seq<char>, mods: Mods)
    requires
        printable(text),
    ensures
        app::asked_typed(linked, text, mods) == sent(linked, presses(text, mods)),
    decreases text.len(),
{
    if text.len() == 0 {
        assert(presses(text, mods) =~= Seq::<AppCmdView>::empty());
        lemma_one(linked, AppCmdView::Scroll(0));
    } else {
        let front = text.drop_last();
        assert(printable(front)) by {
            assert forall|i: int| 0 <= i < front.len() implies (#[trigger] front[i] as u32) >= 0x20
                && !(0x7f <= (front[i] as u32) <= 0x9f) by {
                assert((text[i] as u32) >= 0x20);
            }
        }
        lemma_typed(linked, front, mods);
        let c = text[text.len() - 1];
        assert((c as u32) >= 0x20);
        let press = press_of(c, mods);
        assert(presses(text, mods) =~= presses(front, mods).push(press));
        lemma_one_more(linked, presses(front, mods), press);
    }
}

/// Law: a text that an input method composed is typed character by character, in
/// order and without modifiers, after the view has returned to the bottom.
pub proof fn law_composed_text_is_typed(s: AppView, text: Seq<char>)
    requires
        s.model.active is Some,
        printable(text),
    ensures
        ({
            let none = Mods { shift: false, ctrl: false, alt: false, super_key: false };
            let (after, todo) = s.updated(MessageView::ImeCommit(text));
            &&& todo == sent(
                s.linked,
                (if s.scroll != 0 {
                    seq![AppCmdView::Scroll(0)]
                } else {
                    Seq::empty()
                }) + presses(text, none),
            )
            &&& after == AppView { scroll: 0, selection: None, ..s }
        }),
{
    let none = Mods { shift: false, ctrl: false, alt: false, super_key: false };
    lemma_typed(s.linked, text, none);
    lemma_one(s.linked, AppCmdView::Scroll(0));
    let back = if s.scroll != 0 {
        seq![AppCmdView::Scroll(0)]
    } else {
        Seq::empty()
    };
    assert(s.updated(MessageView::ImeCommit(text)).1 =~= sent(
        s.linked,
        back + presses(text, none),
    ));
}

/// Law: a key that the terminal has is sent as one press; one that it does not have
/// is sent as what it types, character by character; and one that types nothing
/// sends nothing. Either way the view returns to the bottom first.
pub proof fn law_key_is_sent(
    s: AppView,
    k: KeyView,
    modifiers: Modifiers,
    text: Option<Seq<char>>,
)
    requires
        s.model.active is Some,
        text matches Some(t) ==> printable(t),
    ensures
        ({
            let mods = Mods {
                shift: modifiers.shift,
                ctrl: modifiers.control,
                alt: modifiers.alt,
                super_key: modifiers.logo,
            };
            let todo = s.updated(
                MessageView::Keyboard(KeyboardView::Pressed { key: k, modifiers, text }),
            ).1;
            let back = if s.scroll != 0 {
                seq![AppCmdView::Scroll(0)]
            } else {
                Seq::empty()
            };
            &&& key::mapped(k, mods) matches Some(p) ==> todo == sent(
                s.linked,
                back.push(AppCmdView::Key(p)),
            )
            &&& key::mapped(k, mods) is None && text is Some ==> todo == sent(
                s.linked,
                back + presses(text->0, mods),
            )
            &&& key::mapped(k, mods) is None && text is None ==> todo == sent(s.linked, back)
        }),
{
    let mods = Mods {
        shift: modifiers.shift,
        ctrl: modifiers.control,
        alt: modifiers.alt,
        super_key: modifiers.logo,
    };
    let todo = s.updated(
        MessageView::Keyboard(KeyboardView::Pressed { key: k, modifiers, text }),
    ).1;
    let back = if s.scroll != 0 {
        seq![AppCmdView::Scroll(0)]
    } else {
        Seq::empty()
    };
    lemma_one(s.linked, AppCmdView::Scroll(0));
    match key::mapped(k, mods) {
        Some(p) => {
            lemma_one(s.linked, AppCmdView::Key(p));
            assert(todo =~= sent(s.linked, back.push(AppCmdView::Key(p))));
        },
        None => match text {
            Some(t) => {
                lemma_typed(s.linked, t, mods);
                assert(todo =~= sent(s.linked, back + presses(t, mods)));
            },
            None => {
                assert(todo =~= sent(s.linked, back));
            },
        },
    }
}

/// Law: letting go of the button copies what the selection covers on the screen as
/// it was last shown, where that is anything.
pub proof fn law_letting_go_copies(s: AppView)
    ensures
        ({
            let (after, todo) = s.updated(MessageView::MouseRelease);
            &&& after == AppView { selection: None, ..s }
            &&& s.selection is None || s.frame is None ==> todo.len() == 0
            &&& (s.selection matches Some(sel) && s.frame is Some) ==> {
                let text = render::selection_text(s.frame->0, s.selection->0, s.frame_base);
                &&& text.len() == 0 ==> todo.len() == 0
                &&& text.len() > 0 ==> todo == seq![EffectView::Copy(text)]
            }
        }),
{
}

/// Law: a selection is anchored in the scrollback: the row of its ends is that of
/// the pointer, counted from the oldest line. Pressing without a session, or
/// before the pointer is over the pane, selects nothing; moving alone selects
/// nothing.
pub proof fn law_selection_is_anchored(s: AppView, col: u16, row: u16)
    requires
        s.wf(),
    ensures
        ({
            let over = s.updated(MessageView::MouseMove { col, row }).0;
            let down = over.updated(MessageView::MousePress).0;
            &&& over.pointer == Some((col, row))
            &&& s.selection is None ==> over.selection is None
            &&& s.selection matches Some(sel) ==> (over.selection matches Some(now) && now.anchor
                == sel.anchor && now.head.0 == col && now.head.1 == s.frame_base + row)
            &&& s.model.active is Some ==> (down.selection matches Some(now) && now.anchor
                == now.head && now.head.0 == col && now.head.1 == s.frame_base + row)
            &&& s.model.active is None ==> down.selection == over.selection
            &&& s.pointer is None ==> s.updated(MessageView::MousePress).0 == s
        }),
{
}

/// Law: what is typed into a field of the form goes into that field and no other.
pub proof fn law_form_fields(s: AppView, t: Seq<char>, k: AuthKind)
    requires
        s.settings_form is Some,
    ensures
        ({
            let f = s.settings_form->0;
            let typed = |m: SettingsMsgView| s.updated(MessageView::Settings(m)).0.settings_form;
            &&& typed(SettingsMsgView::FormName(t)) matches Some(g) && g.name == t && g.host
                == f.host && g.user == f.user && g.port == f.port && g.password == f.password
                && g.key_path == f.key_path && g.passphrase == f.passphrase && g.auth_kind
                == f.auth_kind && g.index == f.index
            &&& typed(SettingsMsgView::FormHost(t)) matches Some(g) && g.host == t && g.name
                == f.name && g.user == f.user && g.port == f.port && g.password == f.password
                && g.key_path == f.key_path && g.passphrase == f.passphrase && g.auth_kind
                == f.auth_kind && g.index == f.index
            &&& typed(SettingsMsgView::FormUser(t)) matches Some(g) && g.user == t && g.name
                == f.name && g.host == f.host && g.port == f.port && g.password == f.password
                && g.key_path == f.key_path && g.passphrase == f.passphrase && g.auth_kind
                == f.auth_kind && g.index == f.index
            &&& typed(SettingsMsgView::FormPort(t)) matches Some(g) && g.port == t && g.name
                == f.name && g.host == f.host && g.user == f.user && g.password == f.password
                && g.key_path == f.key_path && g.passphrase == f.passphrase && g.auth_kind
                == f.auth_kind && g.index == f.index
            &&& typed(SettingsMsgView::FormPassword(t)) matches Some(g) && g.password == t
                && g.name == f.name && g.host == f.host && g.user == f.user && g.port == f.port
                && g.key_path == f.key_path && g.passphrase == f.passphrase && g.auth_kind
                == f.auth_kind && g.index == f.index
            &&& typed(SettingsMsgView::FormKeyPath(t)) matches Some(g) && g.key_path == t && g.name
                == f.name && g.host == f.host && g.user == f.user && g.port == f.port && g.password
                == f.password && g.passphrase == f.passphrase && g.auth_kind == f.auth_kind
                && g.index == f.index
            &&& typed(SettingsMsgView::FormPassphrase(t)) matches Some(g) && g.passphrase == t
                && g.name == f.name && g.host == f.host && g.user == f.user && g.port == f.port
                && g.password == f.password && g.key_path == f.key_path && g.auth_kind
                == f.auth_kind && g.index == f.index
            &&& typed(SettingsMsgView::FormAuthKind(k)) matches Some(g) && g.auth_kind == k
                && g.name == f.name && g.host == f.host && g.user == f.user && g.port == f.port
                && g.password == f.password && g.key_path == f.key_path && g.passphrase
                == f.passphrase && g.index == f.index
        }),
{
}

/// Law: saving an edited connection puts it in the place it was taken from, where
/// that is still there; the others stay where they are. The form closes.
pub proof fn law_edited_connection_keeps_its_place(s: AppView, c: ConnectionView, i: usize, k: int)
    requires
        s.settings_form matches Some(f) && f.index == Some(i) && f.connection() == Some(c),
        i < s.saved_ssh.len(),
        0 <= k < s.saved_ssh.len(),
    ensures
        ({
            let (after, todo) = s.updated(MessageView::Settings(SettingsMsgView::SaveConnection));
            &&& after.saved_ssh.len() == s.saved_ssh.len()
            &&& after.saved_ssh[k] == (if k == i {
                c
            } else {
                s.saved_ssh[k]
            })
            &&& after.settings_form is None
            &&& todo == seq![EffectView::Save]
        }),
{
}

/// Law: deleting a connection takes it, and it alone, out of the list, and saves the
/// rest in their order.
pub proof fn law_deleted_connection_is_gone(s: AppView, i: usize, k: int)
    ensures
        ({
            let (after, todo) = s.updated(
                MessageView::Settings(SettingsMsgView::DeleteConnection(i)),
            );
            &&& i >= s.saved_ssh.len() ==> after == s && todo.len() == 0
            &&& i < s.saved_ssh.len() ==> {
                &&& after.saved_ssh.len() == s.saved_ssh.len() - 1
                &&& 0 <= k < i ==> after.saved_ssh[k] == s.saved_ssh[k]
                &&& i <= k < after.saved_ssh.len() ==> after.saved_ssh[k] == s.saved_ssh[k + 1]
                &&& todo == seq![EffectView::Save]
            }
        }),
{
}

/// Law: adding opens an empty form, editing one with the connection's own values,
/// and cancelling closes it; another page of the settings closes it as well. None of
/// them changes what is saved.
pub proof fn law_forms_open_and_close(s: AppView, i: usize, page: SettingsPage)
    ensures
        ({
            let add = s.updated(MessageView::Settings(SettingsMsgView::AddConnection)).0;
            let edit = s.updated(MessageView::Settings(SettingsMsgView::EditConnection(i))).0;
            let cancel = s.updated(MessageView::Settings(SettingsMsgView::CancelEdit)).0;
            let nav = s.updated(MessageView::Settings(SettingsMsgView::Nav(page))).0;
            &&& add.settings_form matches Some(f) && f.index is None && f.name.len() == 0
                && f.host.len() == 0 && f.user.len() == 0 && f.password.len() == 0
                && f.auth_kind == AuthKind::Key
            &&& i < s.saved_ssh.len() ==> (edit.settings_form matches Some(f) && f.index == Some(i)
                && f.name == s.saved_ssh[i as int].name && f.host == s.saved_ssh[i as int].host
                && f.user == s.saved_ssh[i as int].user)
            &&& i >= s.saved_ssh.len() ==> edit == s
            &&& cancel.settings_form is None && nav.settings_form is None
            &&& nav.settings_page == page
            &&& add.saved_ssh == s.saved_ssh && edit.saved_ssh == s.saved_ssh && cancel.saved_ssh
                == s.saved_ssh && nav.saved_ssh == s.saved_ssh
        }),
{
}

/// Law: whatever happens, the sessions the user sees on a host come from that host:
/// only its own list changes them.
pub proof fn law_sessions_come_from_their_host(s: AppView, m: MessageView, i: int)
    requires
        0 <= i < s.model.hosts.len(),
        !(m matches MessageView::Ui(UiEventView::Sessions { .. })),
        !(m is RemoveHost),
    ensures
        i < s.updated(m).0.model.hosts.len(),
        s.updated(m).0.model.hosts[i].sessions == s.model.hosts[i].sessions,
        s.updated(m).0.model.hosts[i].id == s.model.hosts[i].id,
{
}

} // verus!
