//! All hosts together: which may be added, whose a tunnel is, and what is kept of them.

use vstd::prelude::*;

use crate::config::saved_host_views;
use crate::config::saved_tunnel_views;
use crate::config::AppConfig;
use crate::config::SavedHost;
use crate::config::SavedHostView;
use crate::config::SavedTunnel;
use crate::config::SavedTunnelView;
use crate::paths::FilePath;
use crate::paths::FilePathView;
use crate::port_map::lemma_ports_below;
use crate::port_map::port_list;
use crate::port_map::ports_in;
use crate::session::connected_session;
use crate::session::disconnected_session;
use crate::session::ConnectionStatus;
use crate::session::Progress;
use crate::session::SessionView;
use crate::session::TunnelManager;
use crate::target::ConnectParams;
use crate::target::ConnectParamsView;
use crate::tunnel::bind_failed;
use crate::tunnel::numbered;
use crate::tunnel::quoted;
use crate::tunnel::write_numbered;
use crate::tunnel::write_quoted;
use crate::tunnel::TrafficView;
use crate::tunnel::Traffic;
use crate::tunnel::TunnelView;

verus! {

/// All hosts, and where they are kept.
pub struct MultiTunnelManager {
    pub sessions: Vec<TunnelManager>,
    pub config_path: FilePath,
}

/// All hosts, as a mathematical value.
#[verifier::ext_equal]
pub struct ManagerView {
    pub sessions: Seq<SessionView>,
    pub config_path: FilePathView,
}

/// The values of a list of sessions.
pub open spec fn session_views(v: Seq<TunnelManager>) -> Seq<SessionView> {
    v.map_values(|s: TunnelManager| s@)
}

impl View for MultiTunnelManager {
    type V = ManagerView;

    open spec fn view(&self) -> ManagerView {
        ManagerView { sessions: session_views(self.sessions@), config_path: self.config_path@ }
    }
}

/// How a request ended: well, or with a message.
pub open spec fn verdict(r: Result<(), String>) -> Result<(), Seq<char>> {
    match r {
        Ok(_) => Ok(()),
        Err(message) => Err(message@),
    }
}

// ---------- Finding ----------

impl SessionView {
    /// The name under which the host is shown and found again.
    pub open spec fn name(self) -> Seq<char> {
        self.params.display_name()
    }
}

/// The place of the first session of that name, and the number of sessions where there is
/// none.
pub open spec fn place_of(sessions: Seq<SessionView>, id: Seq<char>) -> int
    decreases sessions.len(),
{
    if sessions.len() == 0 || sessions[0].name() == id {
        0
    } else {
        1 + place_of(sessions.drop_first(), id)
    }
}

/// The place of the first session with a tunnel on that port, and the number of sessions
/// where there is none.
pub open spec fn holder_of(sessions: Seq<SessionView>, port: u16) -> int
    decreases sessions.len(),
{
    if sessions.len() == 0 || sessions[0].tunnels.contains_key(port) {
        0
    } else {
        1 + holder_of(sessions.drop_first(), port)
    }
}

proof fn lemma_place(sessions: Seq<SessionView>, id: Seq<char>, n: int)
    requires
        0 <= n <= sessions.len(),
        forall|i: int| 0 <= i < n ==> (#[trigger] sessions[i]).name() != id,
        n < sessions.len() ==> sessions[n].name() == id,
    ensures
        place_of(sessions, id) == n,
    decreases n,
{
    if n > 0 {
        assert(sessions[0].name() != id);
        let rest = sessions.drop_first();
        assert forall|i: int| 0 <= i < n - 1 implies (#[trigger] rest[i]).name() != id by {
            assert(rest[i] == sessions[i + 1]);
        }
        lemma_place(rest, id, n - 1);
    }
}

proof fn lemma_holder(sessions: Seq<SessionView>, port: u16, n: int)
    requires
        0 <= n <= sessions.len(),
        forall|i: int| 0 <= i < n ==> !(#[trigger] sessions[i]).tunnels.contains_key(port),
        n < sessions.len() ==> sessions[n].tunnels.contains_key(port),
    ensures
        holder_of(sessions, port) == n,
    decreases n,
{
    if n > 0 {
        assert(!sessions[0].tunnels.contains_key(port));
        let rest = sessions.drop_first();
        assert forall|i: int| 0 <= i < n - 1 implies !(
        #[trigger] rest[i]).tunnels.contains_key(port) by {
            assert(rest[i] == sessions[i + 1]);
        }
        lemma_holder(rest, port, n - 1);
    }
}

/// The place of a name is that of the first session of that name.
pub proof fn lemma_place_bounds(sessions: Seq<SessionView>, id: Seq<char>)
    ensures
        0 <= place_of(sessions, id) <= sessions.len(),
        forall|i: int|
            0 <= i < place_of(sessions, id) ==> (#[trigger] sessions[i]).name() != id,
        place_of(sessions, id) < sessions.len() ==> sessions[place_of(sessions, id)].name() == id,
    decreases sessions.len(),
{
    if sessions.len() > 0 && sessions[0].name() != id {
        let rest = sessions.drop_first();
        lemma_place_bounds(rest, id);
        assert forall|i: int| 0 <= i < place_of(sessions, id) implies (
        #[trigger] sessions[i]).name() != id by {
            if i > 0 {
                assert(rest[i - 1] == sessions[i]);
            }
        }
    }
}

/// The holder of a port is the first session with a tunnel on it.
pub proof fn lemma_holder_bounds(sessions: Seq<SessionView>, port: u16)
    ensures
        0 <= holder_of(sessions, port) <= sessions.len(),
        forall|i: int|
            0 <= i < holder_of(sessions, port) ==> !(#[trigger] sessions[i]).tunnels.contains_key(
                port,
            ),
        holder_of(sessions, port) < sessions.len() ==> sessions[holder_of(
            sessions,
            port,
        )].tunnels.contains_key(port),
    decreases sessions.len(),
{
    if sessions.len() > 0 && !sessions[0].tunnels.contains_key(port) {
        let rest = sessions.drop_first();
        lemma_holder_bounds(rest, port);
        assert forall|i: int| 0 <= i < holder_of(sessions, port) implies !(
        #[trigger] sessions[i]).tunnels.contains_key(port) by {
            if i > 0 {
                assert(rest[i - 1] == sessions[i]);
            }
        }
    }
}

// ---------- Messages ----------

/// There is a session of that name already.
pub open spec fn already_connected(id: Seq<char>) -> Seq<char> {
    quoted("主机 ["@, id, "] 已经连接，请勿重复连接"@)
}

/// There is no session of that name to end.
pub open spec fn not_found(id: Seq<char>) -> Seq<char> {
    quoted("主机 ["@, id, "] 未找到"@)
}

/// There is no session of that name to work with.
pub open spec fn not_connected(id: Seq<char>) -> Seq<char> {
    quoted("主机 ["@, id, "] 未连接"@)
}

/// The port belongs to a tunnel of the host `name`.
pub open spec fn port_taken(port: u16, name: Seq<char>) -> Seq<char> {
    quoted(numbered("本地端口 "@, port as nat, " 已被主机 ["@), name, "] 的隧道占用"@)
}

// ---------- What each request does ----------

impl ManagerView {
    /// Whether there is a session of that name.
    pub open spec fn has(self, id: Seq<char>) -> bool {
        place_of(self.sessions, id) < self.sessions.len()
    }

    /// The session of that name.
    pub open spec fn session(self, id: Seq<char>) -> SessionView {
        self.sessions[place_of(self.sessions, id)]
    }

    /// The hosts with one more at the end.
    pub open spec fn with_session(self, session: SessionView) -> ManagerView {
        ManagerView { sessions: self.sessions.push(session), ..self }
    }

    /// The hosts with the session of that name replaced.
    pub open spec fn with_updated(self, id: Seq<char>, session: SessionView) -> ManagerView {
        ManagerView {
            sessions: self.sessions.update(place_of(self.sessions, id), session),
            ..self
        }
    }

    /// Adding a host, whose connection came out as `outcome` tells.
    pub open spec fn adding_session(
        self,
        serial: u64,
        params: ConnectParamsView,
        outcome: Result<(), Seq<char>>,
        now: i64,
    ) -> (ManagerView, Result<(), Seq<char>>) {
        if self.has(params.display_name()) {
            (self, Err(already_connected(params.display_name())))
        } else {
            match outcome {
                Ok(_) => (self.with_session(connected_session(serial, params, now)), Ok(())),
                Err(error) => (self, Err(error)),
            }
        }
    }

    /// Ending the session of a host.
    pub open spec fn removing_session(self, id: Seq<char>) -> (ManagerView, Result<(), Seq<char>>) {
        if self.has(id) {
            (
                ManagerView {
                    sessions: self.sessions.remove(place_of(self.sessions, id)),
                    ..self
                },
                Ok(()),
            )
        } else {
            (self, Err(not_found(id)))
        }
    }

    /// Why no tunnel can be added to a host on a port, before the port is bound: no two
    /// tunnels share a local port, whichever hosts they belong to.
    pub open spec fn add_refusal(self, id: Seq<char>, port: u16) -> Option<Seq<char>> {
        if holder_of(self.sessions, port) < self.sessions.len() {
            Some(port_taken(port, self.sessions[holder_of(self.sessions, port)].name()))
        } else if !self.has(id) {
            Some(not_connected(id))
        } else {
            None
        }
    }

    /// Adding a tunnel, whose port was bound as `bound` tells.
    pub open spec fn adding_tunnel(
        self,
        id: Seq<char>,
        serial: u64,
        port: u16,
        remote_host: Seq<char>,
        remote_port: u32,
        bound: Result<(), Seq<char>>,
    ) -> (ManagerView, Result<(), Seq<char>>) {
        match (self.add_refusal(id, port), bound) {
            (Some(refusal), _) => (self, Err(refusal)),
            (None, Err(error)) => (self, Err(bind_failed(port, error))),
            (None, Ok(_)) => (
                self.with_updated(
                    id,
                    self.session(id).with_running(serial, port, remote_host, remote_port),
                ),
                Ok(()),
            ),
        }
    }

    /// Removing a tunnel.
    pub open spec fn removing_tunnel(self, id: Seq<char>, port: u16) -> (
        ManagerView,
        Result<(), Seq<char>>,
    ) {
        if !self.has(id) {
            (self, Err(not_connected(id)))
        } else {
            match self.session(id).remove_refusal(port) {
                Some(refusal) => (self, Err(refusal)),
                None => (self.with_updated(id, self.session(id).without(port)), Ok(())),
            }
        }
    }

    /// Why the tunnel of a host cannot be started, before its port is bound.
    pub open spec fn enable_refusal(self, id: Seq<char>, port: u16) -> Option<Seq<char>> {
        if !self.has(id) {
            Some(not_connected(id))
        } else {
            self.session(id).enable_refusal(port)
        }
    }

    /// Starting a tunnel, whose port was bound as `bound` tells.
    pub open spec fn enabling_tunnel(
        self,
        id: Seq<char>,
        port: u16,
        bound: Result<(), Seq<char>>,
    ) -> (ManagerView, Result<(), Seq<char>>) {
        match (self.enable_refusal(id, port), bound) {
            (Some(refusal), _) => (self, Err(refusal)),
            (None, Err(error)) => (self, Err(bind_failed(port, error))),
            (None, Ok(_)) => (
                self.with_updated(
                    id,
                    self.session(id).with(port, self.session(id).tunnels[port].started(port)),
                ),
                Ok(()),
            ),
        }
    }

    /// Stopping a tunnel.
    pub open spec fn disabling_tunnel(self, id: Seq<char>, port: u16) -> (
        ManagerView,
        Result<(), Seq<char>>,
    ) {
        if !self.has(id) {
            (self, Err(not_connected(id)))
        } else {
            match self.session(id).disable_refusal(port) {
                Some(refusal) => (self, Err(refusal)),
                None => (
                    self.with_updated(
                        id,
                        self.session(id).with(port, self.session(id).tunnels[port].stopped(port)),
                    ),
                    Ok(()),
                ),
            }
        }
    }

    /// Asking for a new connection to a host. One that is being made goes on.
    pub open spec fn reconnecting_session(self, id: Seq<char>) -> (
        ManagerView,
        Result<(), Seq<char>>,
    ) {
        if !self.has(id) {
            (self, Err(not_connected(id)))
        } else if self.session(id).status is Reconnecting {
            (self, Ok(()))
        } else {
            (self.with_updated(id, self.session(id).reconnecting()), Ok(()))
        }
    }
}

impl MultiTunnelManager {
    /// No hosts yet.
    pub fn new(config_path: FilePath) -> (m: MultiTunnelManager)
        ensures
            m@ == (ManagerView { sessions: Seq::empty(), config_path: config_path@ }),
    {
        let m = MultiTunnelManager { sessions: Vec::new(), config_path };
        assert(m@.sessions =~= Seq::empty());
        m
    }

    /// The place of the first session of that name.
    pub fn find_session(&self, id: &str) -> (r: Option<usize>)
        ensures
            match r {
                Some(i) => self@.has(id@) && i == place_of(self@.sessions, id@),
                None => !self@.has(id@),
            },
    {
        let wanted = id.to_string();
        for i in 0..self.sessions.len()
            invariant
                wanted@ == id@,
                forall|k: int| 0 <= k < i ==> (#[trigger] self@.sessions[k]).name() != id@,
        {
            let name = self.sessions[i].params.display_name();
            assert(self@.sessions[i as int].name() == name@);
            if name == wanted {
                proof {
                    lemma_place(self@.sessions, id@, i as int);
                }
                return Some(i);
            }
        }
        proof {
            lemma_place(self@.sessions, id@, self@.sessions.len() as int);
        }
        None
    }

    /// Whether there is a session of that name.
    pub fn has_session(&self, display_name: &str) -> (r: bool)
        ensures
            r == self@.has(display_name@),
    {
        self.find_session(display_name).is_some()
    }

    /// The place of the first session with a tunnel on that port.
    fn find_holder(&self, port: u16) -> (r: Option<usize>)
        ensures
            match r {
                Some(i) => {
                    &&& i == holder_of(self@.sessions, port)
                    &&& i < self@.sessions.len()
                },
                None => holder_of(self@.sessions, port) == self@.sessions.len(),
            },
    {
        for i in 0..self.sessions.len()
            invariant
                forall|k: int|
                    0 <= k < i ==> !(#[trigger] self@.sessions[k]).tunnels.contains_key(port),
        {
            assert(self@.sessions[i as int] == self.sessions@[i as int]@);
            if self.sessions[i].tunnels.contains_key(&port) {
                proof {
                    lemma_holder(self@.sessions, port, i as int);
                }
                return Some(i);
            }
        }
        proof {
            lemma_holder(self@.sessions, port, self@.sessions.len() as int);
        }
        None
    }

    /// Whether a host can be added once it is connected.
    pub fn may_add_session(&self, params: &ConnectParams) -> (r: Result<(), String>)
        ensures
            verdict(r) == if self@.has(params@.display_name()) {
                Err::<(), Seq<char>>(already_connected(params@.display_name()))
            } else {
                Ok(())
            },
    {
        let id = params.display_name();
        if self.has_session(id.as_str()) {
            Err(write_quoted("主机 [", id.as_str(), "] 已经连接，请勿重复连接"))
        } else {
            Ok(())
        }
    }

    /// Adds a host, whose connection came out as `outcome` tells.
    pub fn add_session(
        &mut self,
        serial: u64,
        params: ConnectParams,
        outcome: Result<(), String>,
        now: i64,
    ) -> (r: Result<(), String>)
        ensures
            (final(self)@, verdict(r)) == old(self)@.adding_session(
                serial,
                params@,
                verdict(outcome),
                now,
            ),
    {
        if let Err(refusal) = self.may_add_session(&params) {
            return Err(refusal);
        }
        match TunnelManager::connect(serial, params, outcome, now) {
            Ok(session) => {
                self.sessions.push(session);
                assert(self@.sessions =~= old(self)@.sessions.push(session@));
                Ok(())
            },
            Err(error) => Err(error),
        }
    }

    /// Ends the session of a host.
    pub fn remove_session(&mut self, session_id: &str) -> (r: Result<(), String>)
        ensures
            (final(self)@, verdict(r)) == old(self)@.removing_session(session_id@),
    {
        match self.find_session(session_id) {
            Some(i) => {
                let mut session = self.sessions.remove(i);
                let _ = session.shutdown();
                assert(self@.sessions =~= old(self)@.sessions.remove(i as int));
                Ok(())
            },
            None => Err(write_quoted("主机 [", session_id, "] 未找到")),
        }
    }

    /// Whether a tunnel can be added to a host once its port is bound.
    pub fn may_add_tunnel(&self, session_id: &str, local_port: u16) -> (r: Result<(), String>)
        ensures
            match (r, self@.add_refusal(session_id@, local_port)) {
                (Ok(_), None) => true,
                (Err(message), Some(refusal)) => message@ == refusal,
                _ => false,
            },
    {
        if let Some(i) = self.find_holder(local_port) {
            let name = self.sessions[i].params.display_name();
            assert(self@.sessions[i as int].name() == name@);
            let before = write_numbered("本地端口 ", local_port as u64, " 已被主机 [");
            return Err(write_quoted(before.as_str(), name.as_str(), "] 的隧道占用"));
        }
        if self.has_session(session_id) {
            Ok(())
        } else {
            Err(write_quoted("主机 [", session_id, "] 未连接"))
        }
    }

    /// Adds a tunnel to a host, whose port was bound as `bound` tells.
    pub fn add_tunnel(
        &mut self,
        session_id: &str,
        serial: u64,
        local_port: u16,
        remote_host: &str,
        remote_port: u32,
        bound: &Result<(), String>,
    ) -> (r: Result<(), String>)
        ensures
            (final(self)@, verdict(r)) == old(self)@.adding_tunnel(
                session_id@,
                serial,
                local_port,
                remote_host@,
                remote_port,
                verdict(*bound),
            ),
    {
        if let Err(refusal) = self.may_add_tunnel(session_id, local_port) {
            return Err(refusal);
        }
        match self.find_session(session_id) {
            Some(i) => {
                let ghost session = self.sessions@[i as int]@;
                let r = self.sessions[i].add(serial, local_port, remote_host, remote_port, bound);
                assert(self@.sessions =~= old(self)@.sessions.update(
                    i as int,
                    self.sessions@[i as int]@,
                ));
                assert(old(self)@.sessions =~= old(self)@.sessions.update(i as int, session));
                r
            },
            None => Err(write_quoted("主机 [", session_id, "] 未连接")),
        }
    }

    /// Removes a tunnel of a host.
    pub fn remove_tunnel(&mut self, session_id: &str, local_port: u16) -> (r: Result<(), String>)
        ensures
            (final(self)@, verdict(r)) == old(self)@.removing_tunnel(session_id@, local_port),
    {
        match self.find_session(session_id) {
            Some(i) => {
                let ghost session = self.sessions@[i as int]@;
                let r = self.sessions[i].remove(local_port);
                assert(self@.sessions =~= old(self)@.sessions.update(
                    i as int,
                    self.sessions@[i as int]@,
                ));
                assert(old(self)@.sessions =~= old(self)@.sessions.update(i as int, session));
                match r {
                    Ok(_) => Ok(()),
                    Err(message) => Err(message),
                }
            },
            None => Err(write_quoted("主机 [", session_id, "] 未连接")),
        }
    }

    /// Whether the tunnel of a host can be started once its port is bound.
    pub fn may_enable_tunnel(&self, session_id: &str, local_port: u16) -> (r: Result<(), String>)
        ensures
            match (r, self@.enable_refusal(session_id@, local_port)) {
                (Ok(_), None) => true,
                (Err(message), Some(refusal)) => message@ == refusal,
                _ => false,
            },
    {
        match self.find_session(session_id) {
            Some(i) => self.sessions[i].may_enable(local_port),
            None => Err(write_quoted("主机 [", session_id, "] 未连接")),
        }
    }

    /// Starts a tunnel of a host, whose port was bound as `bound` tells.
    pub fn enable_tunnel(
        &mut self,
        session_id: &str,
        local_port: u16,
        bound: &Result<(), String>,
    ) -> (r: Result<(), String>)
        ensures
            (final(self)@, verdict(r)) == old(self)@.enabling_tunnel(
                session_id@,
                local_port,
                verdict(*bound),
            ),
    {
        match self.find_session(session_id) {
            Some(i) => {
                let ghost session = self.sessions@[i as int]@;
                let r = self.sessions[i].enable(local_port, bound);
                assert(self@.sessions =~= old(self)@.sessions.update(
                    i as int,
                    self.sessions@[i as int]@,
                ));
                assert(old(self)@.sessions =~= old(self)@.sessions.update(i as int, session));
                r
            },
            None => Err(write_quoted("主机 [", session_id, "] 未连接")),
        }
    }

    /// Stops a tunnel of a host.
    pub fn disable_tunnel(&mut self, session_id: &str, local_port: u16) -> (r: Result<(), String>)
        ensures
            (final(self)@, verdict(r)) == old(self)@.disabling_tunnel(session_id@, local_port),
    {
        match self.find_session(session_id) {
            Some(i) => {
                let ghost session = self.sessions@[i as int]@;
                let r = self.sessions[i].disable(local_port);
                assert(self@.sessions =~= old(self)@.sessions.update(
                    i as int,
                    self.sessions@[i as int]@,
                ));
                assert(old(self)@.sessions =~= old(self)@.sessions.update(i as int, session));
                r
            },
            None => Err(write_quoted("主机 [", session_id, "] 未连接")),
        }
    }

    /// Asks for a new connection to a host.
    pub fn reconnect_session(&mut self, session_id: &str) -> (r: Result<(), String>)
        ensures
            (final(self)@, verdict(r)) == old(self)@.reconnecting_session(session_id@),
    {
        match self.find_session(session_id) {
            Some(i) => {
                if let ConnectionStatus::Reconnecting(_) = self.sessions[i].status() {
                    return Ok(());
                }
                let _ = self.sessions[i].on_ping(false);
                assert(self@.sessions =~= old(self)@.sessions.update(
                    i as int,
                    self.sessions@[i as int]@,
                ));
                Ok(())
            },
            None => Err(write_quoted("主机 [", session_id, "] 未连接")),
        }
    }
}

// ---------- What is kept ----------

impl TunnelView {
    /// What is kept of the tunnel on `port`.
    pub open spec fn saved(self, port: u16) -> SavedTunnelView {
        SavedTunnelView {
            local_port: port,
            remote_host: self.remote_host,
            remote_port: self.remote_port,
            enabled: self.running,
        }
    }
}

/// What is kept of a table of tunnels, by rising port.
pub open spec fn saved_tunnels(tunnels: Map<u16, TunnelView>) -> Seq<SavedTunnelView> {
    let ports = ports_in(tunnels.dom());
    Seq::new(ports.len(), |i: int| tunnels[ports[i]].saved(ports[i]))
}

impl SessionView {
    /// What is kept of the session.
    pub open spec fn saved(self) -> SavedHostView {
        SavedHostView { params: self.params, tunnels: saved_tunnels(self.tunnels) }
    }
}

impl ManagerView {
    /// What is kept of the hosts.
    pub open spec fn config(self) -> Seq<SavedHostView> {
        Seq::new(self.sessions.len(), |i: int| self.sessions[i].saved())
    }
}

impl TunnelManager {
    /// What is kept of the session.
    pub fn saved(&self) -> (host: SavedHost)
        ensures
            host@ == self@.saved(),
    {
        let ports = port_list(&self.tunnels);
        assert(self@.tunnels.dom() =~= self.tunnels@.dom());
        let mut tunnels: Vec<SavedTunnel> = Vec::new();
        for i in 0..ports.len()
            invariant
                ports@ == self@.ports(),
                self@.tunnels.dom() == self.tunnels@.dom(),
                tunnels@.len() == i,
                forall|k: int|
                    0 <= k < i ==> #[trigger] tunnels@[k]@ == saved_tunnels(self@.tunnels)[k],
        {
            let port: u16 = ports[i];
            proof {
                lemma_ports_below(self@.tunnels.dom(), 65536);
            }
            if let Some(entry) = self.tunnels.get(&port) {
                assert(self@.tunnels[port] == entry@);
                tunnels.push(
                    SavedTunnel {
                        local_port: port,
                        remote_host: entry.remote_host.clone(),
                        remote_port: entry.remote_port,
                        enabled: entry.running,
                    },
                );
            }
        }
        assert(saved_tunnel_views(tunnels@) =~= saved_tunnels(self@.tunnels));
        SavedHost { params: self.params.clone(), tunnels }
    }
}

impl MultiTunnelManager {
    /// What is kept of the hosts.
    pub fn to_config(&self) -> (config: AppConfig)
        ensures
            config@ == self@.config(),
    {
        let mut hosts: Vec<SavedHost> = Vec::new();
        for i in 0..self.sessions.len()
            invariant
                hosts@.len() == i,
                forall|k: int| 0 <= k < i ==> #[trigger] hosts@[k]@ == self@.config()[k],
        {
            assert(self@.sessions[i as int] == self.sessions@[i as int]@);
            hosts.push(self.sessions[i].saved());
        }
        assert(saved_host_views(hosts@) =~= self@.config());
        AppConfig { hosts }
    }
}

// ---------- What was kept comes back ----------

/// How the port of a kept tunnel was bound. That of a stopped tunnel is not bound, and what
/// this says of it does not count.
pub struct Bind {
    /// The serial of the tunnel to come.
    pub serial: u64,
    pub bound: Result<(), String>,
}

/// How a port was bound, as a mathematical value.
#[verifier::ext_equal]
pub struct BindView {
    pub serial: u64,
    pub bound: Result<(), Seq<char>>,
}

impl View for Bind {
    type V = BindView;

    open spec fn view(&self) -> BindView {
        BindView { serial: self.serial, bound: verdict(self.bound) }
    }
}

/// The values of a list of bound ports.
pub open spec fn bind_views(v: Seq<Bind>) -> Seq<BindView> {
    v.map_values(|b: Bind| b@)
}

impl SessionView {
    /// The session with one kept tunnel back. A tunnel whose port cannot be bound comes back
    /// stopped, and its log says why.
    pub open spec fn with_restored(self, tunnel: SavedTunnelView, bind: BindView) -> SessionView {
        let port = tunnel.local_port;
        let stopped = self.with_stopped(
            bind.serial,
            port,
            tunnel.remote_host,
            tunnel.remote_port,
        );
        if tunnel.enabled {
            match bind.bound {
                Ok(_) => self.with_running(
                    bind.serial,
                    port,
                    tunnel.remote_host,
                    tunnel.remote_port,
                ),
                Err(error) => stopped.with(
                    port,
                    stopped.tunnels[port].noting(
                        quoted("启动监听失败："@, bind_failed(port, error), "，已设为停用状态"@),
                    ),
                ),
            }
        } else {
            stopped
        }
    }

    /// The session with the first `n` kept tunnels back, one after the other.
    pub open spec fn with_all_restored(
        self,
        tunnels: Seq<SavedTunnelView>,
        binds: Seq<BindView>,
        n: int,
    ) -> SessionView
        decreases n,
    {
        if n <= 0 {
            self
        } else {
            self.with_all_restored(tunnels, binds, n - 1).with_restored(
                tunnels[n - 1],
                binds[n - 1],
            )
        }
    }
}

/// A kept host, whose connection came out as `outcome` tells. One without a connection comes
/// back too, and waits for one.
pub open spec fn restored(
    serial: u64,
    saved: SavedHostView,
    outcome: Result<(), Seq<char>>,
    binds: Seq<BindView>,
    now: i64,
) -> SessionView {
    let begun = match outcome {
        Ok(_) => connected_session(serial, saved.params, now),
        Err(_) => disconnected_session(serial, saved.params, now),
    };
    begun.with_all_restored(saved.tunnels, binds, saved.tunnels.len() as int)
}

impl ManagerView {
    /// Bringing back a kept host. One that is there already is left as it is.
    pub open spec fn restoring_session(
        self,
        serial: u64,
        saved: SavedHostView,
        outcome: Result<(), Seq<char>>,
        binds: Seq<BindView>,
        now: i64,
    ) -> ManagerView {
        if self.has(saved.params.display_name()) {
            self
        } else {
            self.with_session(restored(serial, saved, outcome, binds, now))
        }
    }
}

impl ManagerView {
    /// Which ports of the tunnels of a kept host are to be bound to bring it back: those of
    /// the tunnels that ran. Nothing is to be done for a host that is there already.
    pub open spec fn restore_need(self, saved: SavedHostView) -> Option<Seq<bool>> {
        if self.has(saved.params.display_name()) {
            None
        } else {
            Some(Seq::new(saved.tunnels.len(), |i: int| saved.tunnels[i].enabled))
        }
    }
}

impl TunnelManager {
    /// Brings back one kept tunnel.
    fn restore_tunnel(&mut self, tunnel: &SavedTunnel, bind: &Bind)
        ensures
            final(self)@ == old(self)@.with_restored(tunnel@, bind@),
    {
        let host = tunnel.remote_host.as_str();
        if tunnel.enabled {
            if let Err(error) = self.add(
                bind.serial,
                tunnel.local_port,
                host,
                tunnel.remote_port,
                &bind.bound,
            ) {
                self.restore_disabled(bind.serial, tunnel.local_port, host, tunnel.remote_port);
                let message = write_quoted(
                    "启动监听失败：",
                    error.as_str(),
                    "，已设为停用状态",
                );
                self.note(tunnel.local_port, message);
            }
        } else {
            self.restore_disabled(bind.serial, tunnel.local_port, host, tunnel.remote_port);
        }
    }
}

impl MultiTunnelManager {
    /// For each tunnel of a kept host, whether its port is to be bound to bring the host back;
    /// nothing where the host is there already.
    pub fn restore_need(&self, saved: &SavedHost) -> (r: Option<Vec<bool>>)
        ensures
            match (r, self@.restore_need(saved@)) {
                (Some(need), Some(expected)) => need@ == expected,
                (None, None) => true,
                _ => false,
            },
    {
        let id = saved.params.display_name();
        if self.has_session(id.as_str()) {
            return None;
        }
        let mut need: Vec<bool> = Vec::new();
        for i in 0..saved.tunnels.len()
            invariant
                need@.len() == i,
                forall|k: int| 0 <= k < i ==> #[trigger] need@[k] == saved@.tunnels[k].enabled,
        {
            assert(saved@.tunnels[i as int] == saved.tunnels@[i as int]@);
            need.push(saved.tunnels[i].enabled);
        }
        assert(need@ =~= self@.restore_need(saved@)->0);
        Some(need)
    }

    /// Brings back a kept host with its tunnels.
    pub fn restore_session(
        &mut self,
        serial: u64,
        saved: &SavedHost,
        outcome: Result<(), String>,
        binds: &Vec<Bind>,
        now: i64,
    )
        requires
            binds@.len() == saved.tunnels@.len(),
        ensures
            final(self)@ == old(self)@.restoring_session(
                serial,
                saved@,
                verdict(outcome),
                bind_views(binds@),
                now,
            ),
    {
        let id = saved.params.display_name();
        if self.has_session(id.as_str()) {
            return;
        }
        let connected = TunnelManager::connect(serial, saved.params.clone(), outcome, now);
        let mut session = match connected {
            Ok(session) => session,
            Err(_) => TunnelManager::new_disconnected(serial, saved.params.clone(), now),
        };
        let ghost begun = session@;
        for i in 0..saved.tunnels.len()
            invariant
                binds@.len() == saved.tunnels@.len(),
                session@ == begun.with_all_restored(
                    saved@.tunnels,
                    bind_views(binds@),
                    i as int,
                ),
        {
            assert(saved@.tunnels[i as int] == saved.tunnels@[i as int]@);
            assert(bind_views(binds@)[i as int] == binds@[i as int]@);
            session.restore_tunnel(&saved.tunnels[i], &binds[i]);
        }
        self.sessions.push(session);
        assert(self@.sessions =~= old(self)@.sessions.push(session@));
    }
}

// ---------- News from the sessions ----------

/// The place of the first session of that serial, and the number of sessions where there is
/// none.
pub open spec fn serial_place(sessions: Seq<SessionView>, serial: u64) -> int
    decreases sessions.len(),
{
    if sessions.len() == 0 || sessions[0].serial == serial {
        0
    } else {
        1 + serial_place(sessions.drop_first(), serial)
    }
}

proof fn lemma_serial_place(sessions: Seq<SessionView>, serial: u64, n: int)
    requires
        0 <= n <= sessions.len(),
        forall|i: int| 0 <= i < n ==> (#[trigger] sessions[i]).serial != serial,
        n < sessions.len() ==> sessions[n].serial == serial,
    ensures
        serial_place(sessions, serial) == n,
    decreases n,
{
    if n > 0 {
        assert(sessions[0].serial != serial);
        let rest = sessions.drop_first();
        assert forall|i: int| 0 <= i < n - 1 implies (#[trigger] rest[i]).serial != serial by {
            assert(rest[i] == sessions[i + 1]);
        }
        lemma_serial_place(rest, serial, n - 1);
    }
}

impl ManagerView {
    /// The hosts after something happened on a tunnel. What is told of a session or a tunnel
    /// that is gone changes nothing.
    pub open spec fn after_traffic(
        self,
        session: u64,
        port: u16,
        tunnel: u64,
        event: TrafficView,
    ) -> ManagerView {
        let i = serial_place(self.sessions, session);
        if i < self.sessions.len() {
            ManagerView {
                sessions: self.sessions.update(
                    i,
                    self.sessions[i].after_traffic(port, tunnel, event),
                ),
                ..self
            }
        } else {
            self
        }
    }

    /// The hosts after news of a new connection. What is told of a session that is gone
    /// changes nothing.
    pub open spec fn after_progress(self, session: u64, progress: Progress) -> ManagerView {
        let i = serial_place(self.sessions, session);
        if i < self.sessions.len() {
            ManagerView {
                sessions: self.sessions.update(i, self.sessions[i].after_progress(progress)),
                ..self
            }
        } else {
            self
        }
    }
}

impl MultiTunnelManager {
    /// The place of the first session of that serial.
    pub fn find_serial(&self, serial: u64) -> (r: Option<usize>)
        ensures
            match r {
                Some(i) => {
                    &&& i == serial_place(self@.sessions, serial)
                    &&& i < self@.sessions.len()
                },
                None => serial_place(self@.sessions, serial) == self@.sessions.len(),
            },
    {
        for i in 0..self.sessions.len()
            invariant
                forall|k: int| 0 <= k < i ==> (#[trigger] self@.sessions[k]).serial != serial,
        {
            assert(self@.sessions[i as int] == self.sessions@[i as int]@);
            if self.sessions[i].serial == serial {
                proof {
                    lemma_serial_place(self@.sessions, serial, i as int);
                }
                return Some(i);
            }
        }
        proof {
            lemma_serial_place(self@.sessions, serial, self@.sessions.len() as int);
        }
        None
    }

    /// Takes in what happened on a tunnel.
    pub fn on_traffic(&mut self, session: u64, local_port: u16, tunnel: u64, event: Traffic)
        ensures
            final(self)@ == old(self)@.after_traffic(session, local_port, tunnel, event@),
    {
        if let Some(i) = self.find_serial(session) {
            self.sessions[i].on_traffic(local_port, tunnel, event);
            assert(self@.sessions =~= old(self)@.sessions.update(
                i as int,
                self.sessions@[i as int]@,
            ));
        }
    }

    /// Takes in news of a new connection.
    pub fn on_progress(&mut self, session: u64, progress: Progress)
        ensures
            final(self)@ == old(self)@.after_progress(session, progress),
    {
        if let Some(i) = self.find_serial(session) {
            self.sessions[i].on_progress(progress);
            assert(self@.sessions =~= old(self)@.sessions.update(
                i as int,
                self.sessions@[i as int]@,
            ));
        }
    }

    /// Ends every session.
    pub fn shutdown_all(&mut self)
        ensures
            final(self)@ == (ManagerView { sessions: Seq::empty(), ..old(self)@ }),
    {
        while self.sessions.len() > 0
            invariant
                self@.config_path == old(self)@.config_path,
            decreases self.sessions@.len(),
        {
            let mut session = self.sessions.remove(0);
            let _ = session.shutdown();
        }
        assert(self@.sessions =~= Seq::empty());
    }
}

} // verus!
