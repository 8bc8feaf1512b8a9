//! The supervisor: which host each of the window's commands goes to.
use crate::gui::app::{AppCmd, AppCmdView};
use crate::gui::conn::{HostCmd, HostCmdView};
use crate::gui::model::{HostId, RemoteSpec, RemoteView, LOCAL_ID};
use crate::gui::vt::KeyPress;
use std::collections::HashSet;
use vstd::prelude::*;
use vstd::std_specs::hash::*;

verus! {

/// What a command comes to.
#[derive(Debug, Clone, PartialEq, Eq)]
#[allow(inconsistent_fields)]
pub enum Delivery {
    /// Start a remote's connection.
    Spawn { id: HostId, remote: RemoteSpec },
    /// Tell a running host.
    Tell { host: HostId, cmd: HostCmd },
}

/// What a command comes to, by view.
#[allow(inconsistent_fields)]
pub enum DeliveryView {
    Spawn { id: HostId, remote: RemoteView },
    Tell { host: HostId, cmd: HostCmdView },
}

impl View for Delivery {
    type V = DeliveryView;

    open spec fn view(&self) -> DeliveryView {
        match self {
            Delivery::Spawn { id, remote } => DeliveryView::Spawn { id: *id, remote: remote@ },
            Delivery::Tell { host, cmd } => DeliveryView::Tell { host: *host, cmd: cmd@ },
        }
    }
}

/// What a command comes to, by view.
pub open spec fn deliveries(v: Seq<Delivery>) -> Seq<DeliveryView> {
    v.map_values(|d: Delivery| d@)
}

/// The running hosts, and the one whose session is on view.
#[derive(Debug)]
pub struct Switchboard {
    pub hosts: HashSet<HostId>,
    pub active: Option<HostId>,
}

/// The running hosts and the one on view, by view.
#[verifier::ext_equal]
pub struct SwitchboardView {
    pub hosts: Set<HostId>,
    pub active: Option<HostId>,
}

impl View for Switchboard {
    type V = SwitchboardView;

    open spec fn view(&self) -> SwitchboardView {
        SwitchboardView { hosts: self.hosts@, active: self.active }
    }
}

impl SwitchboardView {
    /// Telling a host, if it is running.
    pub open spec fn tell(self, host: HostId, cmd: HostCmdView) -> Seq<DeliveryView> {
        if self.hosts.contains(host) {
            seq![DeliveryView::Tell { host, cmd }]
        } else {
            Seq::empty()
        }
    }

    /// Telling the host on view, if there is one and it is running.
    pub open spec fn tell_active(self, cmd: HostCmdView) -> Seq<DeliveryView> {
        match self.active {
            Some(host) => self.tell(host, cmd),
            None => Seq::empty(),
        }
    }

    /// What a command changes and comes to.
    pub open spec fn routed(self, cmd: AppCmdView) -> (SwitchboardView, Seq<DeliveryView>) {
        match cmd {
            AppCmdView::AddRemote { id, remote } => if self.hosts.contains(id) {
                (self, Seq::empty())
            } else {
                (
                    SwitchboardView { hosts: self.hosts.insert(id), ..self },
                    seq![DeliveryView::Spawn { id, remote }],
                )
            },
            AppCmdView::RemoveHost { id } => (
                SwitchboardView {
                    hosts: self.hosts.remove(id),
                    active: if self.active == Some(id) {
                        None
                    } else {
                        self.active
                    },
                },
                self.tell(id, HostCmdView::Shutdown),
            ),
            AppCmdView::SetActive { host, name, cols, rows } => (
                SwitchboardView { active: Some(host), ..self },
                (if self.active == Some(host) {
                    Seq::empty()
                } else {
                    self.tell_active(HostCmdView::Detach)
                }) + self.tell(host, HostCmdView::Attach { name, cols, rows }),
            ),
            AppCmdView::Key(k) => (self, self.tell_active(HostCmdView::Key(k))),
            AppCmdView::Resize { cols, rows } => (
                self,
                self.tell_active(HostCmdView::Resize { cols, rows }),
            ),
            AppCmdView::Create { host } => (self, self.tell(host, HostCmdView::Create)),
            AppCmdView::Kill { host, name } => (self, self.tell(host, HostCmdView::Kill { name })),
            AppCmdView::Scroll(lines) => (self, self.tell_active(HostCmdView::Scroll(lines))),
        }
    }
}

impl Switchboard {
    /// The local host running, and nothing on view.
    pub fn new() -> (r: Switchboard)
        ensures
            r@ == (SwitchboardView { hosts: set![LOCAL_ID], active: None }),
    {
        broadcast use group_hash_axioms;

        let mut hosts: HashSet<HostId> = HashSet::new();
        hosts.insert(LOCAL_ID);
        let r = Switchboard { hosts, active: None };
        assert(r@.hosts =~= set![LOCAL_ID]);
        r
    }

    /// Tell a host, if it is running.
    fn tell(&self, host: HostId, cmd: HostCmd, out: &mut Vec<Delivery>)
        ensures
            deliveries(final(out)@) == deliveries(old(out)@) + self@.tell(host, cmd@),
    {
        broadcast use group_hash_axioms;

        if self.hosts.contains(&host) {
            out.push(Delivery::Tell { host, cmd });
        }
        assert(deliveries(out@) =~= deliveries(old(out)@) + self@.tell(host, cmd@));
    }

    /// Tell the host on view, if there is one.
    fn tell_active(&self, cmd: HostCmd, out: &mut Vec<Delivery>)
        ensures
            deliveries(final(out)@) == deliveries(old(out)@) + self@.tell_active(cmd@),
    {
        match self.active {
            Some(host) => {
                self.tell(host, cmd, out);
            },
            None => {
                assert(deliveries(out@) =~= deliveries(out@) + Seq::<DeliveryView>::empty());
            },
        }
    }

    /// What one of the window's commands comes to.
    pub fn route(&mut self, cmd: AppCmd) -> (r: Vec<Delivery>)
        ensures
            (final(self)@, deliveries(r@)) == old(self)@.routed(cmd@),
    {
        broadcast use group_hash_axioms;

        let ghost before = self@;
        let mut out: Vec<Delivery> = Vec::new();
        assert(deliveries(out@) =~= Seq::empty());
        match cmd {
            AppCmd::AddRemote { id, remote } => {
                if !self.hosts.contains(&id) {
                    self.hosts.insert(id);
                    out.push(Delivery::Spawn { id, remote });
                }
            },
            AppCmd::RemoveHost { id } => {
                self.tell(id, HostCmd::Shutdown, &mut out);
                self.hosts.remove(&id);
                let viewed = match self.active {
                    Some(a) => a == id,
                    None => false,
                };
                if viewed {
                    self.active = None;
                }
            },
            AppCmd::SetActive { host, name, cols, rows } => {
                let elsewhere = match self.active {
                    Some(a) => a != host,
                    None => false,
                };
                if elsewhere {
                    self.tell_active(HostCmd::Detach, &mut out);
                }
                self.active = Some(host);
                self.tell(host, HostCmd::Attach { name, cols, rows }, &mut out);
            },
            AppCmd::Key(ev) => {
                self.tell_active(HostCmd::Key(ev), &mut out);
            },
            AppCmd::Resize { cols, rows } => {
                self.tell_active(HostCmd::Resize { cols, rows }, &mut out);
            },
            AppCmd::Create { host } => {
                self.tell(host, HostCmd::Create, &mut out);
            },
            AppCmd::Kill { host, name } => {
                self.tell(host, HostCmd::Kill { name }, &mut out);
            },
            AppCmd::Scroll(lines) => {
                self.tell_active(HostCmd::Scroll(lines), &mut out);
            },
        }
        assert(self@ =~= before.routed(cmd@).0);
        assert(deliveries(out@) =~= before.routed(cmd@).1);
        out
    }
}

/// Law: a command reaches running hosts only, and only a remote that is not
/// running is started.
pub proof fn law_only_running_hosts_are_told(b: SwitchboardView, cmd: AppCmdView, i: int)
    requires
        0 <= i < b.routed(cmd).1.len(),
    ensures
        match b.routed(cmd).1[i] {
            DeliveryView::Tell { host, .. } => b.hosts.contains(host),
            DeliveryView::Spawn { id, .. } => !b.hosts.contains(id) && b.routed(
                cmd,
            ).0.hosts.contains(id),
        },
{
}

/// Law: after a switch from one running host to another, the first is told to
/// detach before the second is told to attach.
pub proof fn law_switch_detaches_the_other_host(
    b: SwitchboardView,
    host: HostId,
    name: Seq<char>,
    cols: u16,
    rows: u16,
)
    requires
        b.active matches Some(other) && other != host && b.hosts.contains(other),
        b.hosts.contains(host),
    ensures
        b.routed(AppCmdView::SetActive { host, name, cols, rows }).1 == seq![
            DeliveryView::Tell { host: b.active->0, cmd: HostCmdView::Detach },
            DeliveryView::Tell { host, cmd: HostCmdView::Attach { name, cols, rows } },
        ],
{
    assert(b.routed(AppCmdView::SetActive { host, name, cols, rows }).1 =~= seq![
        DeliveryView::Tell { host: b.active->0, cmd: HostCmdView::Detach },
        DeliveryView::Tell { host, cmd: HostCmdView::Attach { name, cols, rows } },
    ]);
}

/// Law: a removed host is told nothing more.
pub proof fn law_removed_host_is_left_alone(b: SwitchboardView, id: HostId, cmd: AppCmdView, i: int)
    requires
        0 <= i < b.routed(AppCmdView::RemoveHost { id }).0.routed(cmd).1.len(),
        b.routed(AppCmdView::RemoveHost { id }).0.routed(cmd).1[i] is Tell,
    ensures
        b.routed(AppCmdView::RemoveHost { id }).0.routed(cmd).1[i]->host != id,
{
}

/// Law: what is typed, scrolled or resized goes to the host on view, and to it alone;
/// a new session, or the end of one, to the host that was named. Nothing else
/// changes.
pub proof fn law_commands_reach_their_host(
    b: SwitchboardView,
    on: HostId,
    host: HostId,
    name: Seq<char>,
    k: KeyPress,
    cols: u16,
    rows: u16,
    lines: usize,
)
    requires
        b.hosts.contains(on),
        b.hosts.contains(host),
        b.active == Some(on),
    ensures
        b.routed(AppCmdView::Key(k)) == (
            b,
            seq![DeliveryView::Tell { host: on, cmd: HostCmdView::Key(k) }],
        ),
        b.routed(AppCmdView::Resize { cols, rows }) == (
            b,
            seq![DeliveryView::Tell { host: on, cmd: HostCmdView::Resize { cols, rows } }],
        ),
        b.routed(AppCmdView::Scroll(lines)) == (
            b,
            seq![DeliveryView::Tell { host: on, cmd: HostCmdView::Scroll(lines) }],
        ),
        b.routed(AppCmdView::Create { host }) == (
            b,
            seq![DeliveryView::Tell { host, cmd: HostCmdView::Create }],
        ),
        b.routed(AppCmdView::Kill { host, name }) == (
            b,
            seq![DeliveryView::Tell { host, cmd: HostCmdView::Kill { name } }],
        ),
{
}

/// Law: without a host on view, or once it is gone, what is typed, scrolled or
/// resized goes nowhere.
pub proof fn law_nothing_on_view(
    b: SwitchboardView,
    k: KeyPress,
    cols: u16,
    rows: u16,
    lines: usize,
)
    requires
        b.active matches Some(on) ==> !b.hosts.contains(on),
    ensures
        b.routed(AppCmdView::Key(k)) == (b, Seq::<DeliveryView>::empty()),
        b.routed(AppCmdView::Resize { cols, rows }) == (b, Seq::<DeliveryView>::empty()),
        b.routed(AppCmdView::Scroll(lines)) == (b, Seq::<DeliveryView>::empty()),
{
}

/// Law: a session put on view makes its host the one on view, and that host is told
/// last, with the session's name and the pane's size. Another session of the same
/// host needs no word to any other host.
pub proof fn law_attach_reaches_its_host(
    b: SwitchboardView,
    host: HostId,
    name: Seq<char>,
    cols: u16,
    rows: u16,
)
    requires
        b.hosts.contains(host),
    ensures
        ({
            let (after, out) = b.routed(AppCmdView::SetActive { host, name, cols, rows });
            let attach = DeliveryView::Tell { host, cmd: HostCmdView::Attach { name, cols, rows } };
            &&& after.active == Some(host) && after.hosts == b.hosts
            &&& out.len() > 0 && out.last() == attach
            &&& b.active == Some(host) || b.active is None ==> out == seq![attach]
        }),
{
    let (after, out) = b.routed(AppCmdView::SetActive { host, name, cols, rows });
    let attach = DeliveryView::Tell { host, cmd: HostCmdView::Attach { name, cols, rows } };
    if b.active == Some(host) || b.active is None {
        assert(out =~= seq![attach]);
    }
}

/// Law: a remote that is added is started once, with its own address, and runs from
/// then on; one that is removed is told to shut down, runs no longer, and is not on
/// view.
pub proof fn law_remotes_come_and_go(b: SwitchboardView, id: HostId, remote: RemoteView)
    ensures
        ({
            let (with, out) = b.routed(AppCmdView::AddRemote { id, remote });
            &&& with.hosts == b.hosts.insert(id) && with.active == b.active
            &&& !b.hosts.contains(id) ==> out == seq![DeliveryView::Spawn { id, remote }]
            &&& b.hosts.contains(id) ==> out.len() == 0
        }),
        ({
            let (without, out) = b.routed(AppCmdView::RemoveHost { id });
            &&& without.hosts == b.hosts.remove(id)
            &&& without.active == (if b.active == Some(id) {
                None
            } else {
                b.active
            })
            &&& b.hosts.contains(id) ==> out == seq![
                DeliveryView::Tell { host: id, cmd: HostCmdView::Shutdown },
            ]
            &&& !b.hosts.contains(id) ==> out.len() == 0
        }),
{
    assert(b.hosts.contains(id) ==> b.hosts.insert(id) =~= b.hosts);
}

} // verus!
