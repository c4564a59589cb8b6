//! The state of the screen, and what keys and news do to it.

use vstd::prelude::*;

use crate::commands::command_views;
use crate::commands::Command;
use crate::commands::CommandView;
use crate::forms::empty_connect_form;
use crate::forms::empty_tunnel_form;
use crate::forms::trimmed_text;
use crate::forms::FormConnectHost;
use crate::forms::FormConnectView;
use crate::forms::FormTunnel;
use crate::forms::FormTunnelFocus;
use crate::forms::FormTunnelView;
use crate::forms::Key;
use crate::paths::text_of;
use crate::paths::Environment;
use crate::paths::EnvironmentView;
use crate::ports::port_views;
use crate::ports::RemotePort;
use crate::ports::RemotePortView;
use crate::ssh_hosts::host_views;
use crate::summary::summary_views;
use crate::summary::HostSummary;
use crate::summary::HostSummaryView;
use crate::target::bytes_of;
use crate::target::may_say;
use crate::target::resolution;
use crate::target::resolve_target_str;
use crate::target::resolved;
use crate::target::settings_for;
use crate::target::ConnectParams;
use crate::target::ConnectParamsView;
use crate::target::HostSettingsView;
use crate::target::SshConfigHost;
use crate::target::SshConfigHostView;
use crate::text::dec;
use crate::text::decimal;
use crate::text::trim;
use crate::tunnel::info_views;
use crate::tunnel::numbered;
use crate::tunnel::quoted;
use crate::tunnel::write_numbered;
use crate::tunnel::write_pair;
use crate::tunnel::write_quoted;
use crate::tunnel::TunnelInfo;
use crate::tunnel::TunnelInfoView;

verus! {

/// How long the answer to a request is waited for, in nanoseconds.
pub const REPLY_TIMEOUT_NANOS: i64 = 10_000_000_000;

/// What is in front.
#[derive(Clone, Copy, PartialEq, Eq, Debug, Structural)]
pub enum Mode {
    /// The tunnels of the current host.
    List,
    /// The form for connecting to a host.
    ConnectHost,
    /// The form for adding a tunnel.
    InputTunnel,
    /// The log of the tunnel on that port, from that message on.
    Log { port: u16, scroll: usize },
}

/// A key event of the terminal.
#[derive(Clone, Copy, PartialEq, Eq, Debug, Structural)]
pub struct KeyPress {
    pub key: Key,
    /// Whether the control key was held.
    pub control: bool,
    /// Whether the key went down; repeats and releases do nothing.
    pub pressed: bool,
}

/// What has to be found out before a key has its effect.
#[derive(Clone, Copy, PartialEq, Eq, Debug, Structural)]
pub enum Ask {
    Nothing,
    /// The hosts that the SSH configuration lists.
    KnownHosts,
    /// What the SSH configuration says of the target in the form.
    Resolve,
    /// A free local port for the remote port, to fill in the form.
    PortToFill(u16),
    /// A free local port for the remote port, to add a tunnel.
    PortToAdd(u16),
}

/// The state of the screen.
pub struct App {
    pub hosts: Vec<HostSummary>,
    /// Which host is shown.
    pub active_host: usize,
    /// Which of its tunnels is selected.
    pub selected_tunnel: usize,
    pub mode: Mode,
    pub form_connect: FormConnectHost,
    pub form_tunnel: FormTunnel,
    /// Requests that are still to be sent.
    pub pending_cmds: Vec<Command>,
    /// When the request was made whose answer is waited for.
    pub pending_reply: Option<i64>,
    /// The host whose ports are being listed.
    pub pending_scan: Option<String>,
    pub remote_ports: Vec<RemotePort>,
    pub ports_selected: usize,
    /// A message, and whether it is an error.
    pub status: Option<(String, bool)>,
    pub quit: bool,
}

/// The state of the screen as a mathematical value.
#[verifier::ext_equal]
pub struct AppView {
    pub hosts: Seq<HostSummaryView>,
    pub active_host: usize,
    pub selected_tunnel: usize,
    pub mode: Mode,
    pub form_connect: FormConnectView,
    pub form_tunnel: FormTunnelView,
    pub pending_cmds: Seq<CommandView>,
    pub pending_reply: Option<i64>,
    pub pending_scan: Option<Seq<char>>,
    pub remote_ports: Seq<RemotePortView>,
    pub ports_selected: usize,
    pub status: Option<(Seq<char>, bool)>,
    pub quit: bool,
}

/// The value of an optional message.
pub open spec fn status_view(status: Option<(String, bool)>) -> Option<(Seq<char>, bool)> {
    match status {
        Some((message, is_error)) => Some((message@, is_error)),
        None => None,
    }
}

impl View for App {
    type V = AppView;

    open spec fn view(&self) -> AppView {
        AppView {
            hosts: summary_views(self.hosts@),
            active_host: self.active_host,
            selected_tunnel: self.selected_tunnel,
            mode: self.mode,
            form_connect: self.form_connect@,
            form_tunnel: self.form_tunnel@,
            pending_cmds: command_views(self.pending_cmds@),
            pending_reply: self.pending_reply,
            pending_scan: text_of(self.pending_scan),
            remote_ports: port_views(self.remote_ports@),
            ports_selected: self.ports_selected,
            status: status_view(self.status),
            quit: self.quit,
        }
    }
}

/// The state with which the program starts.
pub open spec fn initial(config_hosts: Seq<SshConfigHostView>) -> AppView {
    AppView {
        hosts: Seq::empty(),
        active_host: 0,
        selected_tunnel: 0,
        mode: Mode::List,
        form_connect: empty_connect_form(config_hosts),
        form_tunnel: empty_tunnel_form(Seq::empty()),
        pending_cmds: Seq::empty(),
        pending_reply: None,
        pending_scan: None,
        remote_ports: Seq::empty(),
        ports_selected: 0,
        status: None,
        quit: false,
    }
}

// ---------- Looking ----------

/// The first snapshot of a tunnel on that port.
pub open spec fn tunnel_on(tunnels: Seq<TunnelInfoView>, port: u16) -> Option<TunnelInfoView>
    decreases tunnels.len(),
{
    if tunnels.len() == 0 {
        None
    } else if tunnels[0].local_port == port {
        Some(tunnels[0])
    } else {
        tunnel_on(tunnels.drop_first(), port)
    }
}

/// The first snapshot of a tunnel on that port.
pub fn find_tunnel(tunnels: &Vec<TunnelInfo>, port: u16) -> (r: Option<&TunnelInfo>)
    ensures
        match r {
            Some(t) => tunnel_on(info_views(tunnels@), port) == Some(t@),
            None => tunnel_on(info_views(tunnels@), port) is None,
        },
{
    let ghost all = info_views(tunnels@);
    assert(all.skip(0) =~= all);
    for i in 0..tunnels.len()
        invariant
            all == info_views(tunnels@),
            tunnel_on(all, port) == tunnel_on(all.skip(i as int), port),
    {
        assert(all.skip(i as int)[0] == tunnels@[i as int]@);
        assert(all.skip(i as int).drop_first() =~= all.skip(i + 1));
        if tunnels[i].local_port == port {
            return Some(&tunnels[i]);
        }
    }
    assert(all.skip(all.len() as int).len() == 0);
    None
}

impl AppView {
    /// The host that is shown.
    pub open spec fn current(self) -> Option<HostSummaryView> {
        if self.active_host < self.hosts.len() {
            Some(self.hosts[self.active_host as int])
        } else {
            None
        }
    }

    /// The tunnel that is selected.
    pub open spec fn selected(self) -> Option<TunnelInfoView> {
        match self.current() {
            Some(host) => if self.selected_tunnel < host.tunnels.len() {
                Some(host.tunnels[self.selected_tunnel as int])
            } else {
                None
            },
            None => None,
        }
    }

    /// The remote port that is selected.
    pub open spec fn selected_port(self) -> Option<u16> {
        if self.ports_selected < self.remote_ports.len() {
            Some(self.remote_ports[self.ports_selected as int].port)
        } else {
            None
        }
    }

    /// How many messages there are in the log of the tunnel on that port of the current host.
    pub open spec fn log_len(self, port: u16) -> Option<nat> {
        match self.current() {
            Some(host) => match tunnel_on(host.tunnels, port) {
                Some(t) => Some(t.log.len()),
                None => None,
            },
            None => None,
        }
    }
}

impl App {
    /// The host that is shown.
    pub fn current_host(&self) -> (r: Option<&HostSummary>)
        ensures
            match r {
                Some(host) => self@.current() == Some(host@),
                None => self@.current() is None,
            },
    {
        if self.active_host < self.hosts.len() {
            let i: usize = self.active_host;
            assert(self@.hosts[i as int] == self.hosts@[i as int]@);
            Some(&self.hosts[i])
        } else {
            None
        }
    }

    /// The name of the host that is shown.
    pub(crate) fn current_id(&self) -> (r: Option<String>)
        ensures
            match r {
                Some(id) => self@.current() is Some && id@ == self@.current()->0.id,
                None => self@.current() is None,
            },
    {
        match self.current_host() {
            Some(host) => Some(host.id.clone()),
            None => None,
        }
    }

    /// The name of the host that is shown, and the port and state of its selected tunnel.
    pub(crate) fn selection(&self) -> (r: Option<(String, u16, bool)>)
        ensures
            match r {
                Some((id, port, enabled)) => {
                    &&& self@.selected() is Some
                    &&& id@ == self@.current()->0.id
                    &&& port == self@.selected()->0.local_port
                    &&& enabled == self@.selected()->0.enabled
                },
                None => self@.selected() is None,
            },
    {
        match self.current_host() {
            Some(host) => if self.selected_tunnel < host.tunnels.len() {
                let i: usize = self.selected_tunnel;
                let t = &host.tunnels[i];
                assert(host@.tunnels[i as int] == host.tunnels@[i as int]@);
                Some((host.id.clone(), t.local_port, t.enabled))
            } else {
                None
            },
            None => None,
        }
    }

    /// The remote port that is selected.
    pub(crate) fn selected_port(&self) -> (r: Option<u16>)
        ensures
            r == self@.selected_port(),
    {
        if self.ports_selected < self.remote_ports.len() {
            let i: usize = self.ports_selected;
            assert(self@.remote_ports[i as int] == self.remote_ports@[i as int]@);
            Some(self.remote_ports[i].port)
        } else {
            None
        }
    }

    /// How many messages there are in the log of the tunnel on that port of the current host.
    pub(crate) fn log_len(&self, port: u16) -> (r: Option<usize>)
        ensures
            match (r, self@.log_len(port)) {
                (Some(n), Some(expected)) => n == expected,
                (None, None) => true,
                _ => false,
            },
    {
        match self.current_host() {
            Some(host) => match find_tunnel(&host.tunnels, port) {
                Some(t) => Some(t.log.len()),
                None => None,
            },
            None => None,
        }
    }
}

// ---------- Requests ----------

impl AppView {
    /// The state with a message.
    pub open spec fn saying(self, message: Seq<char>, is_error: bool) -> AppView {
        AppView { status: Some((message, is_error)), ..self }
    }

    /// The state without a message.
    pub open spec fn silent(self) -> AppView {
        AppView { status: None, ..self }
    }

    /// The state with something else in front.
    pub open spec fn showing(self, mode: Mode) -> AppView {
        AppView { mode, ..self }
    }

    /// The state with one more request, whose answer is waited for from now on, and a message
    /// that says so.
    pub open spec fn requesting(self, command: CommandView, now: i64, message: Seq<char>) -> AppView {
        AppView {
            pending_cmds: self.pending_cmds.push(command),
            pending_reply: Some(now),
            ..self
        }.saying(message, false)
    }

    /// The state while the ports of a host are being listed.
    pub open spec fn scanning(self, session_id: Seq<char>) -> AppView {
        AppView {
            pending_cmds: self.pending_cmds.push(CommandView::ScanPorts { session_id }),
            pending_scan: Some(session_id),
            ..self
        }
    }

    /// Ending the session of the host that is shown.
    pub open spec fn disconnecting(self, now: i64) -> AppView {
        match self.current() {
            Some(host) => self.requesting(
                CommandView::DisconnectHost { session_id: host.id },
                now,
                quoted("正在断开主机 ["@, host.id, "]…"@),
            ),
            None => self,
        }
    }

    /// Connecting the host that is shown anew.
    pub open spec fn reconnecting(self, now: i64) -> AppView {
        match self.current() {
            Some(host) => self.requesting(
                CommandView::ReconnectHost { session_id: host.id },
                now,
                "正在重连主机..."@,
            ),
            None => self,
        }
    }

    /// Removing the selected tunnel.
    pub open spec fn removing(self, now: i64) -> AppView {
        match self.selected() {
            Some(t) => self.requesting(
                CommandView::RemoveTunnel {
                    session_id: self.current()->0.id,
                    local_port: t.local_port,
                },
                now,
                numbered(
                    quoted("正在删除主机 ["@, self.current()->0.id, "] 的隧道 "@),
                    t.local_port as nat,
                    "…"@,
                ),
            ),
            None => self,
        }
    }

    /// Starting the selected tunnel where it is stopped, and stopping it where it runs.
    pub open spec fn toggling(self, now: i64) -> AppView {
        match self.selected() {
            Some(t) => if t.enabled {
                self.requesting(
                    CommandView::DisableTunnel {
                        session_id: self.current()->0.id,
                        local_port: t.local_port,
                    },
                    now,
                    numbered(
                        quoted("正在停用主机 ["@, self.current()->0.id, "] 的隧道 "@),
                        t.local_port as nat,
                        "…"@,
                    ),
                )
            } else {
                self.requesting(
                    CommandView::EnableTunnel {
                        session_id: self.current()->0.id,
                        local_port: t.local_port,
                    },
                    now,
                    numbered(
                        quoted("正在启用主机 ["@, self.current()->0.id, "] 的隧道 "@),
                        t.local_port as nat,
                        "…"@,
                    ),
                )
            },
            None => self,
        }
    }

    /// Connecting to a host that the SSH configuration lists.
    pub open spec fn connecting_known(
        self,
        host: SshConfigHostView,
        env: EnvironmentView,
        now: i64,
    ) -> AppView {
        let params = host.connect_params(true, env);
        self.requesting(
            CommandView::ConnectHost { params },
            now,
            quoted("正在连接已知主机 ["@, params.display_name(), "]…"@),
        ).showing(Mode::List)
    }

    /// Submitting the form for a host, whose target means what `meaning` tells.
    pub open spec fn submitting(
        self,
        meaning: Result<ConnectParamsView, Seq<char>>,
        now: i64,
    ) -> AppView {
        if trim(self.form_connect.target).len() == 0 {
            self.saying("请输入目标主机（如 user@host 或 ~/.ssh/config 别名）"@, true)
        } else {
            match meaning {
                Ok(params) => self.requesting(
                    CommandView::ConnectHost { params },
                    now,
                    quoted("正在连接主机 ["@, params.display_name(), "]…"@),
                ).showing(Mode::List),
                Err(message) => self.saying(message, true),
            }
        }
    }

    /// Submitting the form for a tunnel.
    pub open spec fn submitting_tunnel(self, now: i64) -> AppView {
        match self.form_tunnel.parsed() {
            Ok((local_port, remote_host, remote_port)) => self.requesting(
                CommandView::AddTunnel {
                    session_id: self.form_tunnel.session_id,
                    local_port,
                    remote_host,
                    remote_port,
                },
                now,
                numbered(
                    quoted("正在向主机 ["@, self.form_tunnel.session_id, "] 添加隧道 "@),
                    local_port as nat,
                    "…"@,
                ),
            ).showing(Mode::List),
            Err(message) => self.saying(message, true),
        }
    }

    /// Adding a tunnel from the local port `local` to a port of the remote host.
    pub open spec fn adding_from_port(self, port: u16, local: u16, now: i64) -> AppView {
        let hint = if local == port {
            Seq::empty()
        } else {
            numbered("（本地端口已被占用，自动分配为 "@, local as nat, "）"@)
        };
        self.requesting(
            CommandView::AddTunnel {
                session_id: self.form_tunnel.session_id,
                local_port: local,
                remote_host: "localhost"@,
                remote_port: port as u32,
            },
            now,
            numbered(
                numbered(
                    quoted("正在向主机 ["@, self.form_tunnel.session_id, "] 添加隧道 "@),
                    local as nat,
                    " -> localhost:"@,
                ),
                port as nat,
                " "@,
            ) + hint,
        ).showing(Mode::List)
    }

    /// Filling in the form for a tunnel from the local port `local` to a port of the remote
    /// host.
    pub open spec fn filling_from_port(self, port: u16, local: u16) -> AppView {
        AppView {
            form_tunnel: FormTunnelView {
                local_port: dec(local as nat),
                remote: "localhost:"@ + dec(port as nat),
                focus: FormTunnelFocus::LocalPort,
                ..self.form_tunnel
            },
            ..self
        }.saying(
            if local != port {
                numbered(
                    numbered(
                        "已自动填入端口 "@,
                        port as nat,
                        "（原本地端口已被占用，推荐可用端口 "@,
                    ),
                    local as nat,
                    "）"@,
                )
            } else {
                numbered("已自动填入端口 "@, port as nat, "，可按需修改本地端口后回车提交"@)
            },
            false,
        )
    }
}

impl App {
    /// The state with which the program starts.
    pub fn new(config_hosts: Vec<SshConfigHost>) -> (app: App)
        ensures
            app@ == initial(host_views(config_hosts@)),
    {
        let app = App {
            hosts: Vec::new(),
            active_host: 0,
            selected_tunnel: 0,
            mode: Mode::List,
            form_connect: FormConnectHost::new(config_hosts),
            form_tunnel: FormTunnel::new(String::new()),
            pending_cmds: Vec::new(),
            pending_reply: None,
            pending_scan: None,
            remote_ports: Vec::new(),
            ports_selected: 0,
            status: None,
            quit: false,
        };
        assert(app@ =~= initial(host_views(config_hosts@)));
        app
    }

    pub(crate) fn say(&mut self, message: String, is_error: bool)
        ensures
            final(self)@ == old(self)@.saying(message@, is_error),
    {
        self.status = Some((message, is_error));
    }

    pub(crate) fn request(&mut self, command: Command, now: i64, message: String)
        ensures
            final(self)@ == old(self)@.requesting(command@, now, message@),
    {
        self.pending_cmds.push(command);
        assert(self@.pending_cmds =~= old(self)@.pending_cmds.push(command@));
        self.pending_reply = Some(now);
        self.status = Some((message, false));
    }

    /// Asks for the ports of a host.
    pub(crate) fn refresh_ports(&mut self, session_id: &str)
        ensures
            final(self)@ == old(self)@.scanning(session_id@),
    {
        let command = Command::ScanPorts { session_id: session_id.to_string() };
        self.pending_cmds.push(command);
        assert(self@.pending_cmds =~= old(self)@.pending_cmds.push(command@));
        self.pending_scan = Some(session_id.to_string());
    }

    pub(crate) fn disconnect_current_host(&mut self, now: i64)
        ensures
            final(self)@ == old(self)@.disconnecting(now),
    {
        if let Some(id) = self.current_id() {
            let message = write_quoted("正在断开主机 [", id.as_str(), "]…");
            self.request(Command::DisconnectHost { session_id: id }, now, message);
        }
    }

    pub(crate) fn reconnect_current_host(&mut self, now: i64)
        ensures
            final(self)@ == old(self)@.reconnecting(now),
    {
        if let Some(id) = self.current_id() {
            let message = "正在重连主机...".to_string();
            self.request(Command::ReconnectHost { session_id: id }, now, message);
        }
    }

    pub(crate) fn remove_selected_tunnel(&mut self, now: i64)
        ensures
            final(self)@ == old(self)@.removing(now),
    {
        if let Some((id, local_port, _)) = self.selection() {
            let before = write_quoted("正在删除主机 [", id.as_str(), "] 的隧道 ");
            let message = write_numbered(before.as_str(), local_port as u64, "…");
            self.request(Command::RemoveTunnel { session_id: id, local_port }, now, message);
        }
    }

    pub(crate) fn toggle_selected_tunnel(&mut self, now: i64)
        ensures
            final(self)@ == old(self)@.toggling(now),
    {
        if let Some((id, local_port, enabled)) = self.selection() {
            if enabled {
                let before = write_quoted("正在停用主机 [", id.as_str(), "] 的隧道 ");
                let message = write_numbered(before.as_str(), local_port as u64, "…");
                self.request(Command::DisableTunnel { session_id: id, local_port }, now, message);
            } else {
                let before = write_quoted("正在启用主机 [", id.as_str(), "] 的隧道 ");
                let message = write_numbered(before.as_str(), local_port as u64, "…");
                self.request(Command::EnableTunnel { session_id: id, local_port }, now, message);
            }
        }
    }

    pub(crate) fn connect_from_config_host(&mut self, host: &SshConfigHost, env: &Environment, now: i64)
        ensures
            final(self)@ == old(self)@.connecting_known(host@, env@, now),
    {
        let params = host.to_connect_params(true, env);
        let name = params.display_name();
        let message = write_quoted("正在连接已知主机 [", name.as_str(), "]…");
        self.request(Command::ConnectHost { params }, now, message);
        self.mode = Mode::List;
    }

    /// Submits the form for a host, whose target means what `meaning` tells.
    pub fn submit_resolved(&mut self, meaning: Result<ConnectParams, String>, now: i64)
        ensures
            final(self)@ == old(self)@.submitting(resolution(meaning), now),
    {
        let target = trimmed_text(self.form_connect.target.as_str());
        if target.as_str().is_empty() {
            self.say(
                "请输入目标主机（如 user@host 或 ~/.ssh/config 别名）".to_string(),
                true,
            );
            return;
        }
        match meaning {
            Ok(params) => {
                let name = params.display_name();
                let message = write_quoted("正在连接主机 [", name.as_str(), "]…");
                self.request(Command::ConnectHost { params }, now, message);
                self.mode = Mode::List;
            },
            Err(message) => {
                self.say(message, true);
            },
        }
    }

    /// Submits the form for a host. The text of the SSH configuration is `config`, where there
    /// is one.
    pub fn submit_connect_host(&mut self, env: &Environment, config: Option<&[u8]>, now: i64)
        ensures
            exists|table: Option<Map<Seq<char>, HostSettingsView>>|
                #[trigger] may_say(bytes_of(config), env@.known_home(), table)
                    && final(self)@ == old(self)@.submitting(
                    resolved(
                        trim(old(self)@.form_connect.target),
                        old(self)@.form_connect.auth(),
                        22,
                        false,
                        env@,
                        settings_for(table, trim(old(self)@.form_connect.target)),
                    ),
                    now,
                ),
    {
        let target = trimmed_text(self.form_connect.target.as_str());
        let auth = self.form_connect.auth();
        let meaning = resolve_target_str(target.as_str(), auth, 22, false, env, config);
        self.submit_resolved(meaning, now);
    }

    pub(crate) fn submit_tunnel_form(&mut self, now: i64)
        ensures
            final(self)@ == old(self)@.submitting_tunnel(now),
    {
        match self.form_tunnel.parse() {
            Ok((local_port, remote_host, remote_port)) => {
                let session_id = self.form_tunnel.session_id.clone();
                let before = write_quoted("正在向主机 [", session_id.as_str(), "] 添加隧道 ");
                let message = write_numbered(before.as_str(), local_port as u64, "…");
                let command = Command::AddTunnel {
                    session_id,
                    local_port,
                    remote_host,
                    remote_port,
                };
                self.request(command, now, message);
                self.mode = Mode::List;
            },
            Err(message) => {
                self.say(message, true);
            },
        }
    }

    /// Adds a tunnel to a port of the remote host, from the local port that was found free.
    pub fn add_tunnel_from_port(&mut self, port: u16, local: u16, now: i64)
        ensures
            final(self)@ == old(self)@.adding_from_port(port, local, now),
    {
        let session_id = self.form_tunnel.session_id.clone();
        let hint = if local == port {
            String::new()
        } else {
            write_numbered("（本地端口已被占用，自动分配为 ", local as u64, "）")
        };
        let host_part = write_quoted("正在向主机 [", session_id.as_str(), "] 添加隧道 ");
        let local_part = write_numbered(host_part.as_str(), local as u64, " -> localhost:");
        let port_part = write_numbered(local_part.as_str(), port as u64, " ");
        let message = write_pair(port_part.as_str(), hint.as_str());
        let command = Command::AddTunnel {
            session_id,
            local_port: local,
            remote_host: "localhost".to_string(),
            remote_port: port as u32,
        };
        self.request(command, now, message);
        self.mode = Mode::List;
    }

    /// Fills in the form for a tunnel to a port of the remote host, from the local port that
    /// was found free.
    pub fn fill_form_from_port(&mut self, port: u16, local: u16)
        ensures
            final(self)@ == old(self)@.filling_from_port(port, local),
    {
        let digits = decimal(port as u64);
        self.form_tunnel.local_port = decimal(local as u64);
        self.form_tunnel.remote = write_pair("localhost:", digits.as_str());
        self.form_tunnel.focus = FormTunnelFocus::LocalPort;
        if local != port {
            let before = write_numbered(
                "已自动填入端口 ",
                port as u64,
                "（原本地端口已被占用，推荐可用端口 ",
            );
            self.say(write_numbered(before.as_str(), local as u64, "）"), false);
        } else {
            self.say(
                write_numbered("已自动填入端口 ", port as u64, "，可按需修改本地端口后回车提交"),
                false,
            );
        }
    }

    /// Opens the form for a host, with the hosts that the SSH configuration lists.
    pub fn open_connect_form(&mut self, config_hosts: Vec<SshConfigHost>)
        ensures
            final(self)@ == (AppView {
                form_connect: empty_connect_form(host_views(config_hosts@)),
                ..old(self)@.silent().showing(Mode::ConnectHost)
            }),
    {
        self.mode = Mode::ConnectHost;
        self.form_connect = FormConnectHost::new(config_hosts);
        self.status = None;
    }
}

} // verus!
