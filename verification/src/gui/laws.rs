//! What holds of the window as a whole.
use crate::gui::app;
use crate::gui::app::{
    AppCmdView, AppView, EffectView, KeyboardView, MessageView, StatusView, MAX_SCROLL,
};
use crate::gui::conn::UiEventView;
use crate::gui::key::{KeyView, Modifiers};
use crate::gui::model;
use crate::gui::model::{HostId, HostView, StateView};
use crate::gui::settings::{ConnectionView, SettingsMsgView};
use crate::gui::vt::{Mods, RenderSnapshot};
use vstd::prelude::*;

verus! {

/// Law: a screen of a session that is no longer on view changes nothing and asks
/// for nothing.
pub proof fn law_stale_screens_are_dropped(
    s: AppView,
    host: HostId,
    name: Seq<char>,
    snap: RenderSnapshot,
    session_wants_mouse: bool,
    base: usize,
)
    requires
        !s.model.is_active(host, name),
    ensures
        s.updated(
            MessageView::Ui(UiEventView::Frame { host, name, snap, session_wants_mouse, base }),
        ) == (s, Seq::<EffectView>::empty()),
{
}

/// Law: choosing a session puts it on view from its bottom, with no screen and no
/// selection left of another; choosing the one on view changes nothing.
pub proof fn law_select(s: AppView, host: HostId, name: Seq<char>)
    ensures
        ({
            let (after, todo) = s.updated(MessageView::Select(host, name));
            &&& after.model.is_active(host, name)
            &&& s.model.is_active(host, name) ==> after == s && todo.len() == 0
            &&& !s.model.is_active(host, name) ==> after.status is Live && after.scroll == 0
                && after.selection is None && after.frame is None
        }),
{
}

/// Law: a session that the user asked for is shown once it exists.
pub proof fn law_created_is_shown(s: AppView, host: HostId, name: Seq<char>)
    ensures
        s.updated(MessageView::Ui(UiEventView::Created { host, name })).0.model.is_active(
            host,
            name,
        ),
{
}

/// Law: typing returns to the live bottom and drops the selection; the bottom is
/// asked for exactly where the view was not there.
pub proof fn law_typing_returns_to_the_bottom(
    s: AppView,
    key: KeyView,
    modifiers: Modifiers,
    text: Option<Seq<char>>,
)
    requires
        s.model.active is Some,
    ensures
        ({
            let (after, todo) = s.updated(
                MessageView::Keyboard(KeyboardView::Pressed { key, modifiers, text }),
            );
            &&& after == AppView { scroll: 0, selection: None, ..s }
            &&& s.linked && s.scroll != 0 ==> todo.len() > 0 && todo[0] == EffectView::Send(
                AppCmdView::Scroll(0),
            )
            &&& s.scroll == 0 ==> forall|i: int|
                0 <= i < todo.len() ==> (#[trigger] todo[i] matches EffectView::Send(
                    AppCmdView::Key(_),
                ))
        }),
{
    if let Some(t) = text {
        lemma_typed_are_keys(s.linked, t, modifiers.mods());
    }
}

/// Typing sends nothing but keys.
proof fn lemma_typed_are_keys(linked: bool, chars: Seq<char>, mods: Mods)
    ensures
        forall|i: int|
            0 <= i < app::asked_typed(linked, chars, mods).len() ==> (#[trigger] app::asked_typed(
                linked,
                chars,
                mods,
            )[i] matches EffectView::Send(AppCmdView::Key(_))),
    decreases chars.len(),
{
    if chars.len() > 0 {
        lemma_typed_are_keys(linked, chars.drop_last(), mods);
    }
}

/// Law: with no session on view, neither keys nor the wheel do anything.
pub proof fn law_nothing_to_type_into(
    s: AppView,
    key: KeyView,
    modifiers: Modifiers,
    text: Option<Seq<char>>,
    typed: Seq<char>,
    delta: i32,
)
    requires
        s.model.active is None,
    ensures
        s.updated(MessageView::Keyboard(KeyboardView::Pressed { key, modifiers, text })) == (
            s,
            Seq::<EffectView>::empty(),
        ),
        s.updated(MessageView::ImeCommit(typed)) == (s, Seq::<EffectView>::empty()),
        s.updated(MessageView::MouseScroll(delta)) == (s, Seq::<EffectView>::empty()),
{
}

/// Law: the wheel stays between the live bottom and the farthest scroll, and
/// asks for the new offset exactly where it moved.
pub proof fn law_wheel_stays_in_bounds(s: AppView, delta: i32)
    requires
        s.wf(),
        s.model.active is Some,
    ensures
        ({
            let (after, todo) = s.updated(MessageView::MouseScroll(delta));
            &&& 0 <= after.scroll <= MAX_SCROLL
            &&& delta >= 0 ==> after.scroll >= s.scroll
            &&& delta <= 0 ==> after.scroll <= s.scroll
            &&& after == AppView { scroll: after.scroll, ..s }
            &&& todo == (if after.scroll != s.scroll {
                s.ask(AppCmdView::Scroll(after.scroll))
            } else {
                Seq::empty()
            })
        }),
{
}

proof fn lemma_typed_quiet(chars: Seq<char>, mods: Mods)
    ensures
        app::asked_typed(false, chars, mods) == Seq::<EffectView>::empty(),
    decreases chars.len(),
{
    if chars.len() > 0 {
        lemma_typed_quiet(chars.drop_last(), mods);
        assert(Seq::<EffectView>::empty() + Seq::<EffectView>::empty() =~= Seq::<
            EffectView,
        >::empty());
    }
}

/// Law: until a supervisor has started, nothing is sent to it.
pub proof fn law_nothing_sent_unlinked(s: AppView, m: MessageView, i: int)
    requires
        !s.linked,
        !(m is Supervisor),
        0 <= i < s.updated(m).1.len(),
    ensures
        !(s.updated(m).1[i] is Send),
{
    match m {
        MessageView::Keyboard(KeyboardView::Pressed { key, modifiers, text }) => {
            if let Some(t) = text {
                lemma_typed_quiet(t, modifiers.mods());
            }
        },
        MessageView::ImeCommit(t) => {
            lemma_typed_quiet(
                t,
                crate::gui::vt::Mods { shift: false, ctrl: false, alt: false, super_key: false },
            );
        },
        _ => {},
    }
}

proof fn lemma_every_remote_is_asked(hosts: Seq<HostView>, i: int)
    requires
        0 <= i < hosts.len(),
        hosts[i].kind is Ssh,
    ensures
        app::asked_remotes(true, hosts).contains(
            EffectView::Send(
                AppCmdView::AddRemote { id: hosts[i].id, remote: hosts[i].kind->Ssh_0 },
            ),
        ),
    decreases hosts.len(),
{
    let want = EffectView::Send(
        AppCmdView::AddRemote { id: hosts[i].id, remote: hosts[i].kind->Ssh_0 },
    );
    let all = app::asked_remotes(true, hosts);
    let head = app::asked_remotes(true, hosts.drop_last());
    if i < hosts.len() - 1 {
        lemma_every_remote_is_asked(hosts.drop_last(), i);
        let k = head.index_of(want);
        assert(all[k] == want);
    } else {
        assert(all[head.len() as int] == want);
    }
}

/// Law: a supervisor that starts anew is told of every remote in the list, and
/// last of the session on view.
pub proof fn law_restart_replays(s: AppView, i: int)
    ensures
        ({
            let todo = s.updated(MessageView::Supervisor).1;
            &&& 0 <= i < s.model.hosts.len() && s.model.hosts[i].kind is Ssh ==> todo.contains(
                EffectView::Send(
                    AppCmdView::AddRemote {
                        id: s.model.hosts[i].id,
                        remote: s.model.hosts[i].kind->Ssh_0,
                    },
                ),
            )
            &&& s.model.active matches Some(on) ==> todo.len() > 0 && todo.last()
                == EffectView::Send(
                AppCmdView::SetActive {
                    host: on.0,
                    name: on.1,
                    cols: s.live_cols,
                    rows: s.live_rows,
                },
            )
        }),
{
    let remotes = app::asked_remotes(true, s.model.hosts);
    let todo = s.updated(MessageView::Supervisor).1;
    if 0 <= i < s.model.hosts.len() && s.model.hosts[i].kind is Ssh {
        lemma_every_remote_is_asked(s.model.hosts, i);
        let want = EffectView::Send(
            AppCmdView::AddRemote {
                id: s.model.hosts[i].id,
                remote: s.model.hosts[i].kind->Ssh_0,
            },
        );
        let k = remotes.index_of(want);
        assert(todo[k] == want);
    }
}

/// Law: the settings file is written wherever the panel changes the saved
/// connections, and only where it deletes or saves one.
pub proof fn law_saved_when_changed(s: AppView, m: SettingsMsgView)
    ensures
        ({
            let (after, todo) = s.updated(MessageView::Settings(m));
            &&& todo.len() == 0 ==> after.saved_ssh == s.saved_ssh
            &&& todo.len() > 0 ==> todo == seq![EffectView::Save] && (m is DeleteConnection || m
                is SaveConnection)
        }),
{
}

/// Law: a form that cannot be saved stays open as it is.
pub proof fn law_invalid_form_stays_open(s: AppView)
    requires
        s.settings_form matches Some(f) && f.invalid_reason() is Some,
    ensures
        s.updated(MessageView::Settings(SettingsMsgView::SaveConnection)) == (
            s,
            Seq::<EffectView>::empty(),
        ),
{
}

/// Law: saving a new connection adds it behind the others, which stay.
pub proof fn law_new_connection_is_added(s: AppView, c: ConnectionView)
    requires
        s.settings_form matches Some(f) && f.index is None && f.connection() == Some(c),
    ensures
        s.updated(MessageView::Settings(SettingsMsgView::SaveConnection)).0.saved_ssh
            == s.saved_ssh.push(c),
{
}

/// Law: leaving the settings drops the form, whichever way they are left.
pub proof fn law_leaving_drops_the_form(s: AppView)
    requires
        s.show_settings,
    ensures
        s.updated(MessageView::ToggleSettings).0.settings_form is None,
        s.updated(MessageView::Settings(SettingsMsgView::Close)).0.settings_form is None,
        s.updated(MessageView::ToggleSettings).0 == s.updated(
            MessageView::Settings(SettingsMsgView::Close),
        ).0,
{
}

/// Law: connecting the same saved connection twice adds it once.
pub proof fn law_connect_once(s: AppView, i: usize)
    ensures
        ({
            let once = s.updated(MessageView::ConnectSaved(i)).0;
            once.updated(MessageView::ConnectSaved(i)) == (once, Seq::<EffectView>::empty())
        }),
{
    let t = AppView { connect_menu_open: false, ..s };
    if i < s.saved_ssh.len() {
        let c = s.saved_ssh[i as int];
        let remote = model::RemoteView {
            user: c.user,
            host: c.host,
            port: c.port,
            auth: c.auth,
            name: c.name,
        };
        model::law_added(t.model, remote);
    }
    let once = s.updated(MessageView::ConnectSaved(i)).0;
    assert(once.connected(i).0 == once);
}

/// Law: losing the host of the session on view shows the reason; losing another
/// leaves the pane as it is.
pub proof fn law_lost_host_is_shown(s: AppView, host: HostId, msg: Seq<char>)
    ensures
        ({
            let after = s.updated(
                MessageView::Ui(UiEventView::State { host, state: StateView::Down(msg) }),
            ).0;
            &&& s.model.active_on(host) ==> after.status == StatusView::Disconnected(msg)
            &&& !s.model.active_on(host) ==> after.status == s.status
        }),
{
}

/// Law: a drag selects from the cell where the button went down to the one the
/// pointer is over, and letting go drops the selection.
pub proof fn law_drag(s: AppView, from: (u16, u16), to: (u16, u16))
    requires
        s.model.active is Some,
    ensures
        ({
            let down = s.updated(MessageView::MouseMove { col: from.0, row: from.1 }).0.updated(
                MessageView::MousePress,
            ).0;
            let moved = down.updated(MessageView::MouseMove { col: to.0, row: to.1 }).0;
            &&& moved.selection matches Some(sel) && sel.anchor == s.spot(from) && sel.head
                == s.spot(to)
            &&& moved.updated(MessageView::MouseRelease).0.selection is None
        }),
{
}

} // verus!
