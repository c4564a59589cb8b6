//! Requests of the user to the hosts, and what each of them needs and does.

use vstd::prelude::*;

use crate::manager::lemma_place_bounds;
use crate::manager::place_of;
use crate::manager::verdict;
use crate::manager::ManagerView;
use crate::manager::MultiTunnelManager;
use crate::session::ConnectionStatus;
use crate::target::ConnectParams;
use crate::target::ConnectParamsView;

verus! {

/// A request.
#[derive(Debug, PartialEq, Eq)]
pub enum Command {
    ConnectHost { params: ConnectParams },
    DisconnectHost { session_id: String },
    ReconnectHost { session_id: String },
    AddTunnel { session_id: String, local_port: u16, remote_host: String, remote_port: u32 },
    RemoveTunnel { session_id: String, local_port: u16 },
    EnableTunnel { session_id: String, local_port: u16 },
    DisableTunnel { session_id: String, local_port: u16 },
    ScanPorts { session_id: String },
    Quit,
}

/// A request as a mathematical value.
#[verifier::ext_equal]
pub enum CommandView {
    ConnectHost { params: ConnectParamsView },
    DisconnectHost { session_id: Seq<char> },
    ReconnectHost { session_id: Seq<char> },
    AddTunnel {
        session_id: Seq<char>,
        local_port: u16,
        remote_host: Seq<char>,
        remote_port: u32,
    },
    RemoveTunnel { session_id: Seq<char>, local_port: u16 },
    EnableTunnel { session_id: Seq<char>, local_port: u16 },
    DisableTunnel { session_id: Seq<char>, local_port: u16 },
    ScanPorts { session_id: Seq<char> },
    Quit,
}

impl View for Command {
    type V = CommandView;

    open spec fn view(&self) -> CommandView {
        match self {
            Command::ConnectHost { params } => CommandView::ConnectHost { params: params@ },
            Command::DisconnectHost { session_id } => CommandView::DisconnectHost {
                session_id: session_id@,
            },
            Command::ReconnectHost { session_id } => CommandView::ReconnectHost {
                session_id: session_id@,
            },
            Command::AddTunnel { session_id, local_port, remote_host, remote_port } =>
                CommandView::AddTunnel {
                session_id: session_id@,
                local_port: *local_port,
                remote_host: remote_host@,
                remote_port: *remote_port,
            },
            Command::RemoveTunnel { session_id, local_port } => CommandView::RemoveTunnel {
                session_id: session_id@,
                local_port: *local_port,
            },
            Command::EnableTunnel { session_id, local_port } => CommandView::EnableTunnel {
                session_id: session_id@,
                local_port: *local_port,
            },
            Command::DisableTunnel { session_id, local_port } => CommandView::DisableTunnel {
                session_id: session_id@,
                local_port: *local_port,
            },
            Command::ScanPorts { session_id } => CommandView::ScanPorts {
                session_id: session_id@,
            },
            Command::Quit => CommandView::Quit,
        }
    }
}

/// The values of a list of requests.
pub open spec fn command_views(v: Seq<Command>) -> Seq<CommandView> {
    v.map_values(|c: Command| c@)
}

/// What has to be tried before a request is carried out.
#[derive(Debug, PartialEq, Eq)]
pub enum Need {
    Nothing,
    /// A connection with the parameters of the request.
    Connection,
    /// Listening on that local port.
    Port(u16),
    /// A listing of the ports of that host, told by its serial.
    Listing(u64),
}

/// What has to be done once a request was granted.
#[derive(Debug, Clone, Copy, PartialEq, Eq, Structural)]
pub enum Action {
    Nothing,
    /// The connection that was tried becomes that of the session with that serial.
    KeepConnection(u64),
    /// The listener that was tried becomes that of a tunnel: the serial of its session, and
    /// its local port.
    Listen(u64, u16),
    /// The listener of a tunnel is stopped.
    StopListening(u64, u16),
    /// The listeners of the session with that serial are stopped, and its connection closed.
    EndSession(u64),
    /// A new connection of the session with that serial is begun.
    Reconnect(u64),
}

impl ManagerView {
    /// What has to be tried before a request is carried out. Nothing is tried for a request
    /// that will be refused.
    pub open spec fn need(self, command: CommandView) -> Need {
        match command {
            CommandView::ConnectHost { params } => if self.has(params.display_name()) {
                Need::Nothing
            } else {
                Need::Connection
            },
            CommandView::AddTunnel { session_id, local_port, .. } => if self.add_refusal(
                session_id,
                local_port,
            ) is None {
                Need::Port(local_port)
            } else {
                Need::Nothing
            },
            CommandView::EnableTunnel { session_id, local_port } => if self.enable_refusal(
                session_id,
                local_port,
            ) is None {
                Need::Port(local_port)
            } else {
                Need::Nothing
            },
            CommandView::ScanPorts { session_id } => if self.has(session_id) {
                Need::Listing(self.session(session_id).serial)
            } else {
                Need::Nothing
            },
            _ => Need::Nothing,
        }
    }

    /// Carrying out a request, where what was tried before came out as `outcome` tells.
    pub open spec fn executing(
        self,
        command: CommandView,
        serial: u64,
        outcome: Result<(), Seq<char>>,
        now: i64,
    ) -> (ManagerView, Result<(), Seq<char>>) {
        match command {
            CommandView::ConnectHost { params } => self.adding_session(
                serial,
                params,
                outcome,
                now,
            ),
            CommandView::DisconnectHost { session_id } => self.removing_session(session_id),
            CommandView::ReconnectHost { session_id } => self.reconnecting_session(session_id),
            CommandView::AddTunnel { session_id, local_port, remote_host, remote_port } =>
                self.adding_tunnel(
                session_id,
                serial,
                local_port,
                remote_host,
                remote_port,
                outcome,
            ),
            CommandView::RemoveTunnel { session_id, local_port } => self.removing_tunnel(
                session_id,
                local_port,
            ),
            CommandView::EnableTunnel { session_id, local_port } => self.enabling_tunnel(
                session_id,
                local_port,
                outcome,
            ),
            CommandView::DisableTunnel { session_id, local_port } => self.disabling_tunnel(
                session_id,
                local_port,
            ),
            CommandView::ScanPorts { .. } => (self, Ok(())),
            CommandView::Quit => (self, Ok(())),
        }
    }
}

impl ManagerView {
    /// Whether a tunnel of a host runs.
    pub open spec fn runs(self, id: Seq<char>, port: u16) -> bool {
        &&& self.has(id)
        &&& self.session(id).tunnels.contains_key(port)
        &&& self.session(id).tunnels[port].running
    }

    /// What has to be done for a request, should it be granted. Only a tunnel that runs has a
    /// listener to stop, and a connection that is being made is not begun again.
    pub open spec fn plan(self, command: CommandView, serial: u64) -> Action {
        match command {
            CommandView::ConnectHost { .. } => Action::KeepConnection(serial),
            CommandView::DisconnectHost { session_id } => if self.has(session_id) {
                Action::EndSession(self.session(session_id).serial)
            } else {
                Action::Nothing
            },
            CommandView::ReconnectHost { session_id } => if self.has(session_id) && !(self.session(
                session_id,
            ).status is Reconnecting) {
                Action::Reconnect(self.session(session_id).serial)
            } else {
                Action::Nothing
            },
            CommandView::AddTunnel { session_id, local_port, .. } => if self.has(session_id) {
                Action::Listen(self.session(session_id).serial, local_port)
            } else {
                Action::Nothing
            },
            CommandView::EnableTunnel { session_id, local_port } => if self.has(session_id) {
                Action::Listen(self.session(session_id).serial, local_port)
            } else {
                Action::Nothing
            },
            CommandView::RemoveTunnel { session_id, local_port } => if self.runs(
                session_id,
                local_port,
            ) {
                Action::StopListening(self.session(session_id).serial, local_port)
            } else {
                Action::Nothing
            },
            CommandView::DisableTunnel { session_id, local_port } => if self.runs(
                session_id,
                local_port,
            ) {
                Action::StopListening(self.session(session_id).serial, local_port)
            } else {
                Action::Nothing
            },
            CommandView::ScanPorts { .. } => Action::Nothing,
            CommandView::Quit => Action::Nothing,
        }
    }

    /// What has to be done for a request, where what was tried before came out as `outcome`
    /// tells: nothing where it is refused.
    pub open spec fn action(
        self,
        command: CommandView,
        serial: u64,
        outcome: Result<(), Seq<char>>,
        now: i64,
    ) -> Action {
        if self.executing(command, serial, outcome, now).1 is Ok {
            self.plan(command, serial)
        } else {
            Action::Nothing
        }
    }
}

/// Whether a request that went well changes what is kept.
pub open spec fn alters_config(command: CommandView) -> bool {
    match command {
        CommandView::ReconnectHost { .. } => false,
        CommandView::ScanPorts { .. } => false,
        CommandView::Quit => false,
        _ => true,
    }
}

/// How a request came out.
pub struct Executed {
    pub result: Result<(), String>,
    /// What has to be done for it.
    pub action: Action,
    /// Whether what is kept is to be written anew.
    pub save: bool,
}

impl MultiTunnelManager {
    /// What has to be tried before a request is carried out.
    pub fn need(&self, command: &Command) -> (need: Need)
        ensures
            need == self@.need(command@),
    {
        match command {
            Command::ConnectHost { params } => if self.may_add_session(params).is_ok() {
                Need::Connection
            } else {
                Need::Nothing
            },
            Command::AddTunnel { session_id, local_port, .. } => if self.may_add_tunnel(
                session_id.as_str(),
                *local_port,
            ).is_ok() {
                Need::Port(*local_port)
            } else {
                Need::Nothing
            },
            Command::EnableTunnel { session_id, local_port } => if self.may_enable_tunnel(
                session_id.as_str(),
                *local_port,
            ).is_ok() {
                Need::Port(*local_port)
            } else {
                Need::Nothing
            },
            Command::ScanPorts { session_id } => match self.find_session(session_id.as_str()) {
                Some(i) => Need::Listing(self.sessions[i].serial),
                None => Need::Nothing,
            },
            _ => Need::Nothing,
        }
    }

    /// The session of that name, by its serial, where there is one.
    fn serial_of(&self, id: &str) -> (r: Option<u64>)
        ensures
            r == if self@.has(id@) {
                Some(self@.session(id@).serial)
            } else {
                None
            },
    {
        match self.find_session(id) {
            Some(i) => {
                assert(self@.sessions[i as int] == self.sessions@[i as int]@);
                Some(self.sessions[i].serial)
            },
            None => None,
        }
    }

    /// The session of that name, by its serial, where a tunnel of it runs on that port.
    fn serial_if_runs(&self, id: &str, local_port: u16) -> (r: Option<u64>)
        ensures
            r == if self@.runs(id@, local_port) {
                Some(self@.session(id@).serial)
            } else {
                None
            },
    {
        match self.find_session(id) {
            Some(i) => {
                assert(self@.sessions[i as int] == self.sessions@[i as int]@);
                match self.sessions[i].tunnels.get(&local_port) {
                    Some(entry) => if entry.running {
                        Some(self.sessions[i].serial)
                    } else {
                        None
                    },
                    None => None,
                }
            },
            None => None,
        }
    }

    /// What has to be done for a request, should it be granted.
    fn plan(&self, command: &Command, serial: u64) -> (action: Action)
        ensures
            action == self@.plan(command@, serial),
    {
        match command {
            Command::ConnectHost { .. } => Action::KeepConnection(serial),
            Command::DisconnectHost { session_id } => match self.serial_of(session_id.as_str()) {
                Some(session) => Action::EndSession(session),
                None => Action::Nothing,
            },
            Command::ReconnectHost { session_id } => match self.find_session(session_id.as_str()) {
                Some(i) => {
                    assert(self@.sessions[i as int] == self.sessions@[i as int]@);
                    match self.sessions[i].status() {
                        ConnectionStatus::Reconnecting(_) => Action::Nothing,
                        _ => Action::Reconnect(self.sessions[i].serial),
                    }
                },
                None => Action::Nothing,
            },
            Command::AddTunnel { session_id, local_port, .. } => match self.serial_of(
                session_id.as_str(),
            ) {
                Some(session) => Action::Listen(session, *local_port),
                None => Action::Nothing,
            },
            Command::EnableTunnel { session_id, local_port } => match self.serial_of(
                session_id.as_str(),
            ) {
                Some(session) => Action::Listen(session, *local_port),
                None => Action::Nothing,
            },
            Command::RemoveTunnel { session_id, local_port } => match self.serial_if_runs(
                session_id.as_str(),
                *local_port,
            ) {
                Some(session) => Action::StopListening(session, *local_port),
                None => Action::Nothing,
            },
            Command::DisableTunnel { session_id, local_port } => match self.serial_if_runs(
                session_id.as_str(),
                *local_port,
            ) {
                Some(session) => Action::StopListening(session, *local_port),
                None => Action::Nothing,
            },
            Command::ScanPorts { .. } => Action::Nothing,
            Command::Quit => Action::Nothing,
        }
    }

    /// Carries out a request, where what was tried before came out as `outcome` tells. A new
    /// session or tunnel gets the given serial.
    pub fn execute(
        &mut self,
        command: Command,
        serial: u64,
        outcome: Result<(), String>,
        now: i64,
    ) -> (done: Executed)
        ensures
            (final(self)@, verdict(done.result)) == old(self)@.executing(
                command@,
                serial,
                verdict(outcome),
                now,
            ),
            done.action == old(self)@.action(command@, serial, verdict(outcome), now),
            done.save == (done.result is Ok && alters_config(command@)),
    {
        let plan = self.plan(&command, serial);
        let mut alters = true;
        let result = match command {
            Command::ConnectHost { params } => self.add_session(serial, params, outcome, now),
            Command::DisconnectHost { session_id } => self.remove_session(session_id.as_str()),
            Command::ReconnectHost { session_id } => {
                alters = false;
                self.reconnect_session(session_id.as_str())
            },
            Command::AddTunnel { session_id, local_port, remote_host, remote_port } =>
                self.add_tunnel(
                session_id.as_str(),
                serial,
                local_port,
                remote_host.as_str(),
                remote_port,
                &outcome,
            ),
            Command::RemoveTunnel { session_id, local_port } => self.remove_tunnel(
                session_id.as_str(),
                local_port,
            ),
            Command::EnableTunnel { session_id, local_port } => self.enable_tunnel(
                session_id.as_str(),
                local_port,
                &outcome,
            ),
            Command::DisableTunnel { session_id, local_port } => self.disable_tunnel(
                session_id.as_str(),
                local_port,
            ),
            Command::ScanPorts { .. } => {
                alters = false;
                Ok(())
            },
            Command::Quit => {
                alters = false;
                Ok(())
            },
        };
        let granted = result.is_ok();
        let action = if granted {
            plan
        } else {
            Action::Nothing
        };
        Executed { result, action, save: alters && granted }
    }
}

// ---------- Laws ----------

/// What is kept changes only with requests that are said to change it.
pub proof fn lemma_config_kept(
    m: ManagerView,
    command: CommandView,
    serial: u64,
    outcome: Result<(), Seq<char>>,
    now: i64,
)
    requires
        m.executing(command, serial, outcome, now).1 is Err || !alters_config(command),
    ensures
        m.executing(command, serial, outcome, now).0.config() == m.config(),
{
    let after = m.executing(command, serial, outcome, now).0;
    if let CommandView::ReconnectHost { session_id } = command {
        lemma_place_bounds(m.sessions, session_id);
    }
    assert(after.config() =~= m.config());
}

/// Nothing is tried for nothing, and nothing is left untried: a host to connect, and a tunnel
/// to add or to start, for which nothing has to be tried, is refused whatever would have come
/// of it; for which something has to be tried, it is granted where that succeeds.
pub proof fn lemma_need_decides(
    m: ManagerView,
    command: CommandView,
    serial: u64,
    outcome: Result<(), Seq<char>>,
    now: i64,
)
    requires
        command is ConnectHost || command is AddTunnel || command is EnableTunnel,
    ensures
        m.need(command) == Need::Nothing ==> m.executing(command, serial, outcome, now).1 is Err,
        m.need(command) != Need::Nothing ==> (m.executing(command, serial, outcome, now).1 is Ok
            <==> outcome is Ok),
{
}

impl ManagerView {
    /// Whether a tunnel of the session with that serial runs on that port.
    pub open spec fn listens(self, session: u64, port: u16) -> bool {
        exists|i: int| #[trigger] self.listens_at(i, session, port)
    }

    /// Whether the session at that place has that serial and a tunnel that runs on that port.
    pub open spec fn listens_at(self, i: int, session: u64, port: u16) -> bool {
        &&& 0 <= i < self.sessions.len()
        &&& self.sessions[i].serial == session
        &&& self.sessions[i].tunnels.contains_key(port)
        &&& self.sessions[i].tunnels[port].running
    }

    /// Whether no two sessions have the same serial.
    pub open spec fn serials_distinct(self) -> bool {
        forall|i: int, j: int|
            0 <= i < j < self.sessions.len() ==> (#[trigger] self.sessions[i]).serial != (
            #[trigger] self.sessions[j]).serial
    }
}

impl Action {
    /// Whether there is a listener for a port of a session once this was done.
    pub open spec fn leaves_listener(self, before: bool, session: u64, port: u16) -> bool {
        match self {
            Action::Listen(s, p) => before || (s == session && p == port),
            Action::StopListening(s, p) => before && !(s == session && p == port),
            Action::EndSession(s) => before && s != session,
            _ => before,
        }
    }
}

/// The listeners go with the tunnels: where there is one for each tunnel that runs, and no
/// other, there is so again once what a request asks for was done. No two sessions share a
/// serial.
pub proof fn lemma_listeners_follow(
    m: ManagerView,
    command: CommandView,
    serial: u64,
    outcome: Result<(), Seq<char>>,
    now: i64,
    session: u64,
    port: u16,
)
    requires
        m.serials_distinct(),
    ensures
        m.executing(command, serial, outcome, now).0.listens(session, port) == m.action(
            command,
            serial,
            outcome,
            now,
        ).leaves_listener(m.listens(session, port), session, port),
{
    let after = m.executing(command, serial, outcome, now).0;
    let granted = m.executing(command, serial, outcome, now).1 is Ok;
    match command {
        CommandView::ConnectHost { .. } => {
            lemma_listens_kept(m, after, session, port);
        },
        CommandView::DisconnectHost { session_id } => {
            lemma_place_bounds(m.sessions, session_id);
            let at = place_of(m.sessions, session_id);
            if m.has(session_id) {
                assert forall|i: int| #[trigger] m.listens_at(i, session, port) && session
                    != m.sessions[at].serial implies after.listens(session, port) by {
                    let j = if i < at {
                        i
                    } else {
                        i - 1
                    };
                    assert(after.sessions[j] == m.sessions[i]);
                    assert(after.listens_at(j, session, port));
                }
                assert forall|j: int| #[trigger] after.listens_at(j, session, port) implies m.listens(
                    session,
                    port,
                ) && session != m.sessions[at].serial by {
                    let i = if j < at {
                        j
                    } else {
                        j + 1
                    };
                    assert(after.sessions[j] == m.sessions[i]);
                    assert(m.listens_at(i, session, port));
                }
            }
        },
        CommandView::ReconnectHost { session_id } => {
            lemma_place_bounds(m.sessions, session_id);
            lemma_listens_kept(m, after, session, port);
        },
        CommandView::AddTunnel { session_id, .. } => {
            lemma_place_bounds(m.sessions, session_id);
            if granted {
                lemma_listens_updated(m, after, session_id, session, port);
            }
        },
        CommandView::RemoveTunnel { session_id, .. } => {
            lemma_place_bounds(m.sessions, session_id);
            if granted {
                lemma_listens_updated(m, after, session_id, session, port);
            }
        },
        CommandView::EnableTunnel { session_id, .. } => {
            lemma_place_bounds(m.sessions, session_id);
            if granted {
                lemma_listens_updated(m, after, session_id, session, port);
            }
        },
        CommandView::DisableTunnel { session_id, .. } => {
            lemma_place_bounds(m.sessions, session_id);
            if granted {
                lemma_listens_updated(m, after, session_id, session, port);
            }
        },
        _ => {},
    }
}

/// No two sessions come to share a serial, where a request is given one that no session has.
pub proof fn lemma_serials_stay_distinct(
    m: ManagerView,
    command: CommandView,
    serial: u64,
    outcome: Result<(), Seq<char>>,
    now: i64,
)
    requires
        m.serials_distinct(),
        forall|i: int| 0 <= i < m.sessions.len() ==> (#[trigger] m.sessions[i]).serial != serial,
    ensures
        m.executing(command, serial, outcome, now).0.serials_distinct(),
{
    match command {
        CommandView::DisconnectHost { session_id } => {
            lemma_place_bounds(m.sessions, session_id);
        },
        CommandView::ReconnectHost { session_id } => {
            lemma_place_bounds(m.sessions, session_id);
        },
        CommandView::AddTunnel { session_id, .. } => {
            lemma_place_bounds(m.sessions, session_id);
        },
        CommandView::RemoveTunnel { session_id, .. } => {
            lemma_place_bounds(m.sessions, session_id);
        },
        CommandView::EnableTunnel { session_id, .. } => {
            lemma_place_bounds(m.sessions, session_id);
        },
        CommandView::DisableTunnel { session_id, .. } => {
            lemma_place_bounds(m.sessions, session_id);
        },
        _ => {},
    }
}

/// Where each session keeps its serial and its tunnels, and those that came have none, the
/// same tunnels run.
proof fn lemma_listens_kept(m: ManagerView, after: ManagerView, session: u64, port: u16)
    requires
        after.sessions.len() >= m.sessions.len(),
        forall|i: int|
            0 <= i < m.sessions.len() ==> (#[trigger] after.sessions[i]).serial
                == m.sessions[i].serial && after.sessions[i].tunnels == m.sessions[i].tunnels,
        forall|i: int|
            m.sessions.len() <= i < after.sessions.len() ==> !(
            #[trigger] after.sessions[i]).tunnels.contains_key(port),
    ensures
        after.listens(session, port) == m.listens(session, port),
{
    assert forall|i: int| m.listens_at(i, session, port) == #[trigger] after.listens_at(
        i,
        session,
        port,
    ) by {}
    if m.listens(session, port) {
        let i = choose|i: int| #[trigger] m.listens_at(i, session, port);
        assert(after.listens_at(i, session, port));
    }
}

/// Where only the session of one name changes, and keeps its serial, the tunnels of the
/// others run as before.
proof fn lemma_listens_updated(
    m: ManagerView,
    after: ManagerView,
    id: Seq<char>,
    session: u64,
    port: u16,
)
    requires
        m.serials_distinct(),
        m.has(id),
        0 <= place_of(m.sessions, id),
        after.sessions == m.sessions.update(
            place_of(m.sessions, id),
            after.sessions[place_of(m.sessions, id)],
        ),
        after.sessions[place_of(m.sessions, id)].serial == m.session(id).serial,
    ensures
        ({
            let at = place_of(m.sessions, id);
            &&& session != m.session(id).serial ==> after.listens(session, port) == m.listens(
                session,
                port,
            )
            &&& session == m.session(id).serial ==> {
                &&& after.listens(session, port) == after.listens_at(at, session, port)
                &&& m.listens(session, port) == m.listens_at(at, session, port)
            }
        }),
{
    let at = place_of(m.sessions, id);
    if session != m.session(id).serial {
        assert forall|i: int| m.listens_at(i, session, port) == #[trigger] after.listens_at(
            i,
            session,
            port,
        ) by {
            if i != at && 0 <= i < m.sessions.len() {
                assert(after.sessions[i] == m.sessions[i]);
            }
        }
        if m.listens(session, port) {
            let i = choose|i: int| #[trigger] m.listens_at(i, session, port);
            assert(after.listens_at(i, session, port));
        }
    } else {
        assert forall|i: int| #[trigger] m.listens_at(i, session, port) implies i == at by {}
        assert forall|i: int| #[trigger] after.listens_at(i, session, port) implies i
            == at by {
            if i != at {
                assert(after.sessions[i] == m.sessions[i]);
            }
        }
    }
}

} // verus!
