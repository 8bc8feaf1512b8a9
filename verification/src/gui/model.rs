//! The hosts of the sidebar, their sessions, and the session on view.
use crate::gui::settings::{AuthView, SshAuth};
use crate::proto::SessionInfo;
use crate::text;
use vstd::prelude::*;
use vstd::string::*;

verus! {

/// What tells one host from another.
pub type HostId = u64;

/// The local daemon.
pub const LOCAL_ID: u64 = 0;

/// How to reach a remote host.
#[derive(Debug, Clone, PartialEq, Eq)]
pub struct RemoteSpec {
    pub user: String,
    pub host: String,
    pub port: u16,
    pub auth: SshAuth,
    pub name: String,
}

/// How to reach a remote host, by view.
pub struct RemoteView {
    pub user: Seq<char>,
    pub host: Seq<char>,
    pub port: u16,
    pub auth: AuthView,
    pub name: Seq<char>,
}

impl View for RemoteSpec {
    type V = RemoteView;

    open spec fn view(&self) -> RemoteView {
        RemoteView {
            user: self.user@,
            host: self.host@,
            port: self.port,
            auth: self.auth@,
            name: self.name@,
        }
    }
}

impl RemoteSpec {
    /// A copy.
    pub fn copy(&self) -> (r: RemoteSpec)
        ensures
            r@ == self@,
    {
        RemoteSpec {
            user: self.user.clone(),
            host: self.host.clone(),
            port: self.port,
            auth: self.auth.copy(),
            name: self.name.clone(),
        }
    }
}

/// Whether a host is the local daemon or a remote.
#[derive(Debug, Clone, PartialEq, Eq)]
pub enum HostKind {
    Local,
    Ssh(RemoteSpec),
}

/// Whether a host is the local daemon or a remote, by view.
pub enum KindView {
    Local,
    Ssh(RemoteView),
}

impl View for HostKind {
    type V = KindView;

    open spec fn view(&self) -> KindView {
        match self {
            HostKind::Local => KindView::Local,
            HostKind::Ssh(s) => KindView::Ssh(s@),
        }
    }
}

/// How a host's connection stands.
#[derive(Debug, Clone, PartialEq, Eq)]
pub enum HostState {
    Connecting,
    Up,
    /// The connection is down, and why.
    Down(String),
}

/// How a host's connection stands, by view.
pub enum StateView {
    Connecting,
    Up,
    Down(Seq<char>),
}

impl View for HostState {
    type V = StateView;

    open spec fn view(&self) -> StateView {
        match self {
            HostState::Connecting => StateView::Connecting,
            HostState::Up => StateView::Up,
            HostState::Down(s) => StateView::Down(s@),
        }
    }
}

/// A host of the sidebar.
#[derive(Debug, Clone, PartialEq, Eq)]
pub struct Host {
    pub id: HostId,
    pub kind: HostKind,
    pub state: HostState,
    pub sessions: Vec<SessionInfo>,
}

/// A host of the sidebar, by view.
pub struct HostView {
    pub id: HostId,
    pub kind: KindView,
    pub state: StateView,
    pub sessions: Seq<SessionInfo>,
}

impl View for Host {
    type V = HostView;

    open spec fn view(&self) -> HostView {
        HostView {
            id: self.id,
            kind: self.kind@,
            state: self.state@,
            sessions: self.sessions@,
        }
    }
}

impl Host {
    /// Whether the host is reached over SSH.
    pub fn is_remote(&self) -> (r: bool)
        ensures
            r == (self@.kind is Ssh),
    {
        match self.kind {
            HostKind::Local => false,
            HostKind::Ssh(_) => true,
        }
    }
}

/// The hosts of the sidebar and the session on view.
#[derive(Debug, Clone, PartialEq, Eq)]
pub struct Model {
    pub hosts: Vec<Host>,
    /// The session on view: its host and its name.
    pub active: Option<(HostId, String)>,
    /// The id the next host gets.
    pub next_id: HostId,
}

/// The hosts and the session on view, by view.
#[verifier::ext_equal]
pub struct ModelView {
    pub hosts: Seq<HostView>,
    pub active: Option<(HostId, Seq<char>)>,
    pub next_id: HostId,
}

/// Hosts, by view.
pub open spec fn hosts_view(v: Seq<Host>) -> Seq<HostView> {
    v.map_values(|h: Host| h@)
}

impl View for Model {
    type V = ModelView;

    open spec fn view(&self) -> ModelView {
        ModelView {
            hosts: hosts_view(self.hosts@),
            active: match self.active {
                Some((h, n)) => Some((h, n@)),
                None => None,
            },
            next_id: self.next_id,
        }
    }
}

/// The hosts of a new window: the local daemon, not yet reached.
pub open spec fn local_only() -> ModelView {
    ModelView {
        hosts: seq![
            HostView {
                id: LOCAL_ID,
                kind: KindView::Local,
                state: StateView::Connecting,
                sessions: Seq::empty(),
            },
        ],
        active: None,
        next_id: 1,
    }
}

impl ModelView {
    /// No two hosts share an id, and new ids are still free.
    pub open spec fn wf(self) -> bool {
        &&& forall|i: int, j: int|
            0 <= i < j < self.hosts.len() ==> #[trigger] self.hosts[i].id
                != #[trigger] self.hosts[j].id
        &&& forall|i: int| 0 <= i < self.hosts.len() ==> (#[trigger] self.hosts[i]).id < self.next_id
    }

    /// Whether a session is the one on view.
    pub open spec fn is_active(self, host: HostId, name: Seq<char>) -> bool {
        self.active == Some((host, name))
    }

    /// Whether the session on view is on a host.
    pub open spec fn active_on(self, host: HostId) -> bool {
        self.active matches Some(on) && on.0 == host
    }

    /// The hosts with one of them in another state.
    pub open spec fn with_state(self, host: HostId, state: StateView) -> ModelView {
        ModelView {
            hosts: self.hosts.map_values(
                |h: HostView|
                    if h.id == host {
                        HostView { state, ..h }
                    } else {
                        h
                    },
            ),
            ..self
        }
    }

    /// The hosts with another list of sessions for one of them.
    pub open spec fn with_sessions(self, host: HostId, sessions: Seq<SessionInfo>) -> ModelView {
        ModelView {
            hosts: self.hosts.map_values(
                |h: HostView|
                    if h.id == host {
                        HostView { sessions, ..h }
                    } else {
                        h
                    },
            ),
            ..self
        }
    }

    /// The hosts with none of them reached yet.
    pub open spec fn all_connecting(self) -> ModelView {
        ModelView {
            hosts: self.hosts.map_values(
                |h: HostView| HostView { state: StateView::Connecting, ..h },
            ),
            ..self
        }
    }

    /// The hosts with a session of theirs on view.
    pub open spec fn with_active(self, host: HostId, name: Seq<char>) -> ModelView {
        ModelView { active: Some((host, name)), ..self }
    }

    /// The hosts without one of them; a session of it is no longer on view.
    pub open spec fn without(self, host: HostId) -> ModelView {
        ModelView {
            hosts: self.hosts.filter(|h: HostView| h.id != host),
            active: if self.active_on(host) {
                None
            } else {
                self.active
            },
            ..self
        }
    }

    /// The hosts with a new remote behind them.
    pub open spec fn with_remote(self, spec_: RemoteView) -> ModelView {
        ModelView {
            hosts: self.hosts.push(
                HostView {
                    id: self.next_id,
                    kind: KindView::Ssh(spec_),
                    state: StateView::Connecting,
                    sessions: Seq::empty(),
                },
            ),
            next_id: (self.next_id + 1) as u64,
            ..self
        }
    }

    /// Whether the host `i` is a remote at an address.
    pub open spec fn remote_at(self, i: int, user: Seq<char>, host: Seq<char>, port: u16) -> bool {
        self.hosts[i].kind matches KindView::Ssh(s) && s.user == user && s.host == host && s.port
            == port
    }

    /// Whether a remote at an address is in the list.
    pub open spec fn has_remote(self, user: Seq<char>, host: Seq<char>, port: u16) -> bool {
        exists|i: int|
            0 <= i < self.hosts.len() && #[trigger] self.remote_at(i, user, host, port)
    }

    /// The sessions of the first `n` hosts, counted.
    pub open spec fn sessions_upto(self, n: nat) -> nat
        decreases n,
    {
        if n == 0 {
            0
        } else {
            self.sessions_upto((n - 1) as nat) + self.hosts[n - 1].sessions.len()
        }
    }
}

proof fn lemma_sessions_grow(m: ModelView, i: nat, n: nat)
    requires
        i <= n,
    ensures
        m.sessions_upto(i) <= m.sessions_upto(n),
    decreases n,
{
    if i < n {
        lemma_sessions_grow(m, i, (n - 1) as nat);
    }
}

proof fn lemma_filter_step(hosts: Seq<HostView>, host: HostId, i: int)
    requires
        0 <= i < hosts.len(),
    ensures
        hosts.take(i + 1).filter(|h: HostView| h.id != host) == (if hosts[i].id != host {
            hosts.take(i).filter(|h: HostView| h.id != host).push(hosts[i])
        } else {
            hosts.take(i).filter(|h: HostView| h.id != host)
        }),
{
    let t = hosts.take(i + 1);
    assert(t.drop_last() =~= hosts.take(i));
    assert(t.last() == hosts[i]);
    reveal(Seq::filter);
}

proof fn lemma_filter_from(hosts: Seq<HostView>, p: spec_fn(HostView) -> bool)
    ensures
        forall|i: int|
            0 <= i < hosts.filter(p).len() ==> hosts.contains(#[trigger] hosts.filter(p)[i]),
    decreases hosts.len(),
{
    reveal(Seq::filter);
    if hosts.len() > 0 {
        let head = hosts.drop_last();
        let all = hosts.filter(p);
        lemma_filter_from(head, p);
        assert forall|i: int| 0 <= i < all.len() implies hosts.contains(#[trigger] all[i]) by {
            if i < head.filter(p).len() {
                assert(all[i] == head.filter(p)[i]);
                let k = head.index_of(all[i]);
                assert(hosts[k] == all[i]);
            } else {
                assert(hosts[hosts.len() - 1] == all[i]);
            }
        }
    }
}

proof fn lemma_without_wf(m: ModelView, host: HostId)
    requires
        m.wf(),
    ensures
        m.without(host).wf(),
{
    let p = |h: HostView| h.id != host;
    lemma_filter_keeps_order(m.hosts, p, m.next_id);
}

proof fn lemma_filter_keeps_order(hosts: Seq<HostView>, p: spec_fn(HostView) -> bool, next: HostId)
    requires
        forall|i: int, j: int|
            0 <= i < j < hosts.len() ==> #[trigger] hosts[i].id != #[trigger] hosts[j].id,
        forall|i: int| 0 <= i < hosts.len() ==> (#[trigger] hosts[i]).id < next,
    ensures
        ({
            let kept = hosts.filter(p);
            &&& forall|i: int, j: int|
                0 <= i < j < kept.len() ==> #[trigger] kept[i].id != #[trigger] kept[j].id
            &&& forall|i: int| 0 <= i < kept.len() ==> (#[trigger] kept[i]).id < next
            &&& forall|i: int|
                0 <= i < kept.len() ==> exists|k: int|
                    0 <= k < hosts.len() && #[trigger] hosts[k] == #[trigger] kept[i]
        }),
    decreases hosts.len(),
{
    reveal(Seq::filter);
    if hosts.len() > 0 {
        let head = hosts.drop_last();
        lemma_filter_keeps_order(head, p, next);
        let kept = head.filter(p);
        assert forall|i: int| 0 <= i < kept.len() implies exists|k: int|
            0 <= k < hosts.len() - 1 && #[trigger] hosts[k] == #[trigger] kept[i] by {
            let k = choose|k: int| 0 <= k < head.len() && #[trigger] head[k] == kept[i];
            assert(hosts[k] == head[k]);
        }
        let all = hosts.filter(p);
        assert(all == (if p(hosts.last()) {
            kept.push(hosts.last())
        } else {
            kept
        }));
        assert forall|i: int| 0 <= i < all.len() implies exists|k: int|
            0 <= k < hosts.len() && #[trigger] hosts[k] == #[trigger] all[i] by {
            if i < kept.len() {
                assert(all[i] == kept[i]);
            } else {
                assert(hosts[hosts.len() - 1] == all[i]);
            }
        }
        assert forall|i: int, j: int| 0 <= i < j < all.len() implies #[trigger] all[i].id
            != #[trigger] all[j].id by {
            assert(all[i] == kept[i]);
            if j < kept.len() {
                assert(all[j] == kept[j]);
            }
        }
    }
}

impl Model {
    /// The hosts of a new window: the local daemon, not yet reached.
    pub fn with_local() -> (r: Model)
        ensures
            r@ == local_only(),
            r@.wf(),
            r@.hosts.len() == 1 && r@.hosts[0].id == 0 && r@.hosts[0].kind is Local,
            r@.hosts[0].state is Connecting && r@.hosts[0].sessions.len() == 0,
            r@.active is None,
    {
        let mut hosts: Vec<Host> = Vec::new();
        hosts.push(
            Host {
                id: LOCAL_ID,
                kind: HostKind::Local,
                state: HostState::Connecting,
                sessions: Vec::new(),
            },
        );
        let m = Model { hosts, active: None, next_id: 1 };
        assert(m@ =~= local_only());
        m
    }

    /// Whether a session is the one on view.
    pub fn is_active(&self, host: HostId, name: &str) -> (r: bool)
        ensures
            r == self@.is_active(host, name@),
    {
        match &self.active {
            Some((h, n)) => *h == host && text::same(n.as_str(), name),
            None => false,
        }
    }

    /// A host by its id.
    pub fn host(&self, id: HostId) -> (r: Option<&Host>)
        ensures
            match r {
                Some(h) => h@.id == id && exists|i: int|
                    0 <= i < self@.hosts.len() && #[trigger] self@.hosts[i] == h@,
                None => forall|i: int|
                    0 <= i < self@.hosts.len() ==> (#[trigger] self@.hosts[i]).id != id,
            },
    {
        let mut i: usize = 0;
        while i < self.hosts.len()
            invariant
                i <= self.hosts.len(),
                forall|k: int| 0 <= k < i ==> (#[trigger] self@.hosts[k]).id != id,
            decreases self.hosts.len() - i,
        {
            assert(self@.hosts[i as int] == self.hosts@[i as int]@);
            if self.hosts[i].id == id {
                return Some(&self.hosts[i]);
            }
            i += 1;
        }
        None
    }

    /// Put a session on view.
    pub fn select(&mut self, host: HostId, name: String)
        ensures
            final(self)@ == old(self)@.with_active(host, name@),
    {
        self.active = Some((host, name));
    }

    /// Note how a host's connection stands.
    pub fn set_state(&mut self, host: HostId, state: HostState)
        requires
            old(self)@.wf(),
        ensures
            final(self)@ == old(self)@.with_state(host, state@),
            final(self)@.wf(),
    {
        let ghost before = self@;
        let mut i: usize = 0;
        while i < self.hosts.len() && self.hosts[i].id != host
            invariant
                i <= self.hosts.len(),
                self@ == before,
                forall|k: int| 0 <= k < i ==> (#[trigger] before.hosts[k]).id != host,
            decreases self.hosts.len() - i,
        {
            assert(before.hosts[i as int] == self.hosts@[i as int]@);
            i += 1;
        }
        if i < self.hosts.len() {
            assert(before.hosts[i as int] == self.hosts@[i as int]@);
            self.hosts[i].state = state;
        }
        assert(self@ =~= before.with_state(host, state@));
    }

    /// Note a host's sessions.
    pub fn set_sessions(&mut self, host: HostId, sessions: Vec<SessionInfo>)
        requires
            old(self)@.wf(),
        ensures
            final(self)@ == old(self)@.with_sessions(host, sessions@),
            final(self)@.wf(),
    {
        let ghost before = self@;
        let mut i: usize = 0;
        while i < self.hosts.len() && self.hosts[i].id != host
            invariant
                i <= self.hosts.len(),
                self@ == before,
                forall|k: int| 0 <= k < i ==> (#[trigger] before.hosts[k]).id != host,
            decreases self.hosts.len() - i,
        {
            assert(before.hosts[i as int] == self.hosts@[i as int]@);
            i += 1;
        }
        let ghost given = sessions@;
        if i < self.hosts.len() {
            assert(before.hosts[i as int] == self.hosts@[i as int]@);
            self.hosts[i].sessions = sessions;
        }
        assert(self@ =~= before.with_sessions(host, given));
    }

    /// Note that no host is reached yet.
    pub fn reset_states(&mut self)
        requires
            old(self)@.wf(),
        ensures
            final(self)@ == old(self)@.all_connecting(),
            final(self)@.wf(),
            final(self)@.active == old(self)@.active,
            final(self)@.hosts.len() == old(self)@.hosts.len(),
            forall|i: int|
                0 <= i < old(self)@.hosts.len() ==> {
                    let is = #[trigger] final(self)@.hosts[i];
                    let was = old(self)@.hosts[i];
                    is.state is Connecting && is.id == was.id && is.kind == was.kind && is.sessions
                        == was.sessions
                },
    {
        let ghost before = self@;
        let mut i: usize = 0;
        while i < self.hosts.len()
            invariant
                i <= self.hosts.len(),
                self.hosts.len() == before.hosts.len(),
                self@.active == before.active,
                self@.next_id == before.next_id,
                forall|k: int|
                    0 <= k < i ==> #[trigger] self@.hosts[k] == before.all_connecting().hosts[k],
                forall|k: int|
                    i <= k < before.hosts.len() ==> #[trigger] self@.hosts[k] == before.hosts[k],
            decreases self.hosts.len() - i,
        {
            let ghost current = self.hosts@;
            assert(self@.hosts[i as int] == current[i as int]@);
            self.hosts[i].state = HostState::Connecting;
            assert forall|k: int| 0 <= k < before.hosts.len() && k != i implies self@.hosts[k]
                == current[k]@ by {
                assert(self.hosts@[k] == current[k]);
            }
            assert forall|k: int| i < k < before.hosts.len() implies #[trigger] self@.hosts[k]
                == before.hosts[k] by {
                assert(hosts_view(current)[k] == current[k]@);
            }
            assert forall|k: int| 0 <= k <= i implies #[trigger] self@.hosts[k]
                == before.all_connecting().hosts[k] by {
                assert(hosts_view(current)[k] == current[k]@);
            }
            i += 1;
        }
        assert(self@ =~= before.all_connecting());
    }

    /// Take a host out of the list.
    pub fn remove_host(&mut self, host: HostId)
        requires
            old(self)@.wf(),
        ensures
            final(self)@ == old(self)@.without(host),
            final(self)@.wf(),
    {
        let ghost before = self@;
        let mut all: Vec<Host> = Vec::new();
        std::mem::swap(&mut all, &mut self.hosts);
        let ghost given = all@;
        let mut kept: Vec<Host> = Vec::new();
        assert(before.hosts.take(0).filter(|h: HostView| h.id != host) =~= Seq::empty()) by {
            reveal(Seq::filter);
        }
        assert(hosts_view(kept@) =~= before.hosts.take(0).filter(|h: HostView| h.id != host));
        for h in it: all
            invariant
                it.seq() == given,
                before.hosts == hosts_view(given),
                hosts_view(kept@) == before.hosts.take(it.index() as int).filter(
                    |h: HostView| h.id != host,
                ),
        {
            proof {
                lemma_filter_step(before.hosts, host, it.index() as int);
                assert(before.hosts[it.index() as int] == h@);
            }
            let ghost earlier = kept@;
            if h.id != host {
                kept.push(h);
                assert(hosts_view(kept@) =~= hosts_view(earlier).push(h@));
            }
        }
        self.hosts = kept;
        assert(before.hosts.take(before.hosts.len() as int) =~= before.hosts);
        let gone = match &self.active {
            Some((h, _)) => *h == host,
            None => false,
        };
        if gone {
            self.active = None;
        }
        proof {
            lemma_without_wf(before, host);
            assert(self@ =~= before.without(host));
        }
    }

    /// Whether a remote at an address is in the list.
    pub fn has_remote(&self, user: &str, host: &str, port: u16) -> (r: bool)
        ensures
            r == self@.has_remote(user@, host@, port),
    {
        let mut i: usize = 0;
        while i < self.hosts.len()
            invariant
                i <= self.hosts.len(),
                forall|k: int| 0 <= k < i ==> !#[trigger] self@.remote_at(k, user@, host@, port),
            decreases self.hosts.len() - i,
        {
            assert(self@.hosts[i as int] == self.hosts@[i as int]@);
            let found = match &self.hosts[i].kind {
                HostKind::Ssh(s) => text::same(s.user.as_str(), user) && text::same(
                    s.host.as_str(),
                    host,
                ) && s.port == port,
                HostKind::Local => false,
            };
            if found {
                assert(self@.remote_at(i as int, user@, host@, port));
                return true;
            }
            i += 1;
        }
        false
    }

    /// Add a remote, not yet reached; its id.
    pub fn add_remote(&mut self, remote: RemoteSpec) -> (r: HostId)
        requires
            old(self)@.wf(),
            old(self)@.next_id < u64::MAX,
        ensures
            final(self)@ == old(self)@.with_remote(remote@),
            final(self)@.wf(),
            r == old(self)@.next_id,
    {
        let ghost before = self@;
        let id: HostId = self.next_id;
        let h = Host {
            id,
            kind: HostKind::Ssh(remote),
            state: HostState::Connecting,
            sessions: Vec::new(),
        };
        assert(h@ =~= HostView {
            id: before.next_id,
            kind: KindView::Ssh(remote@),
            state: StateView::Connecting,
            sessions: Seq::empty(),
        });
        self.hosts.push(h);
        self.next_id = id + 1;
        proof {
            assert(self@ =~= before.with_remote(remote@));
            assert(forall|i: int|
                0 <= i < before.hosts.len() ==> #[trigger] self@.hosts[i] == before.hosts[i]);
        }
        id
    }

    /// How many sessions all hosts have together.
    pub fn total_sessions(&self) -> (r: usize)
        requires
            self@.sessions_upto(self@.hosts.len()) <= usize::MAX,
        ensures
            r == self@.sessions_upto(self@.hosts.len()),
    {
        let mut total: usize = 0;
        let mut i: usize = 0;
        while i < self.hosts.len()
            invariant
                i <= self.hosts.len(),
                total == self@.sessions_upto(i as nat),
                self@.sessions_upto(self@.hosts.len()) <= usize::MAX,
            decreases self.hosts.len() - i,
        {
            proof {
                lemma_sessions_grow(self@, (i + 1) as nat, self@.hosts.len());
                assert(self@.hosts[i as int] == self.hosts@[i as int]@);
            }
            total += self.hosts[i].sessions.len();
            i += 1;
        }
        total
    }
}

/// Law: a removed host is gone, with nothing of it on view, and every other host
/// stays.
pub proof fn law_removed(m: ModelView, host: HostId, h: HostView)
    ensures
        m.without(host).hosts.contains(h) <==> m.hosts.contains(h) && h.id != host,
        !m.without(host).active_on(host),
{
    let p = |x: HostView| x.id != host;
    broadcast use vstd::seq_lib::group_filter_ensures;

    lemma_filter_from(m.hosts, p);
    if m.hosts.contains(h) && h.id != host {
        let i = m.hosts.index_of(h);
        assert(p(m.hosts[i]));
        assert(m.hosts.filter(p).contains(m.hosts[i]));
    }
    if m.hosts.filter(p).contains(h) {
        let i = m.hosts.filter(p).index_of(h);
        assert(p(m.hosts.filter(p)[i]));
    }
}

/// Law: an added remote is found by its address.
pub proof fn law_added(m: ModelView, remote: RemoteView)
    ensures
        m.with_remote(remote).has_remote(remote.user, remote.host, remote.port),
{
    assert(m.with_remote(remote).remote_at(
        m.hosts.len() as int,
        remote.user,
        remote.host,
        remote.port,
    ));
}

/// Law: every host's sessions count, and each of them once.
pub proof fn law_sessions_are_counted(m: ModelView, h: HostView)
    ensures
        (ModelView { hosts: m.hosts.push(h), ..m }).sessions_upto(m.hosts.len() + 1)
            == m.sessions_upto(m.hosts.len()) + h.sessions.len(),
{
    let more = ModelView { hosts: m.hosts.push(h), ..m };
    lemma_counted(m, more, m.hosts.len());
}

proof fn lemma_counted(a: ModelView, b: ModelView, n: nat)
    requires
        n <= a.hosts.len(),
        n <= b.hosts.len(),
        forall|i: int| 0 <= i < n ==> #[trigger] a.hosts[i] == b.hosts[i],
    ensures
        a.sessions_upto(n) == b.sessions_upto(n),
    decreases n,
{
    if n > 0 {
        lemma_counted(a, b, (n - 1) as nat);
        assert(a.hosts[n - 1] == b.hosts[n - 1]);
    }
}

/// Law: a remote is known by its user, its host and its port, all three.
pub proof fn law_remote_is_known_by_its_address(
    m: ModelView,
    user: Seq<char>,
    host: Seq<char>,
    port: u16,
)
    ensures
        m.has_remote(user, host, port) <==> exists|i: int|
            0 <= i < m.hosts.len() && ((#[trigger] m.hosts[i]).kind matches KindView::Ssh(s)
                && s.user == user && s.host == host && s.port == port),
{
    if exists|i: int|
        0 <= i < m.hosts.len() && ((#[trigger] m.hosts[i]).kind matches KindView::Ssh(s) && s.user
            == user && s.host == host && s.port == port) {
        let i = choose|i: int|
            0 <= i < m.hosts.len() && ((#[trigger] m.hosts[i]).kind matches KindView::Ssh(s)
                && s.user == user && s.host == host && s.port == port);
        assert(m.remote_at(i, user, host, port));
    }
    if m.has_remote(user, host, port) {
        let i = choose|i: int| 0 <= i < m.hosts.len() && #[trigger] m.remote_at(i, user, host, port);
        assert(m.hosts[i].kind is Ssh);
    }
}

} // verus!
