//! What the values stand for that the other laws speak of: the fields of what is run.

use vstd::prelude::*;

use crate::app::App;
use crate::commands::Command;
use crate::commands::CommandView;
use crate::config::AppConfig;
use crate::config::SavedHost;
use crate::config::SavedTunnel;
use crate::forms::FormConnectHost;
use crate::forms::FormTunnel;
use crate::login::LoginStep;
use crate::login::LoginStepView;
use crate::manager::Bind;
use crate::manager::MultiTunnelManager;
use crate::paths::path_bytes;
use crate::paths::Environment;
use crate::paths::FilePath;
use crate::ports::RemotePort;
use crate::relay::RelayStep;
use crate::relay::RelayStepView;
use crate::service::Reply;
use crate::service::ReplyView;
use crate::service::Trial;
use crate::session::TunnelManager;
use crate::summary::HostSummary;
use crate::target::AuthMethod;
use crate::target::AuthView;
use crate::target::ConnectParams;
use crate::target::HostSettings;
use crate::target::SshConfigHost;
use crate::tunnel::Traffic;
use crate::tunnel::TrafficView;
use crate::tunnel::TunnelEntry;
use crate::tunnel::TunnelInfo;

verus! {

/// What a connection is made with, what is known of a host, and paths.
pub proof fn lemma_target_values(
    params: ConnectParams,
    key: FilePath,
    password: String,
    settings: HostSettings,
    host: SshConfigHost,
    env: Environment,
)
    ensures
        params@.user == params.user@,
        params@.host == params.host@,
        params@.ssh_port == params.ssh_port,
        params@.auth == params.auth@,
        params@.check_host_key == params.check_host_key,
        params.alias is None ==> params@.alias is None,
        params.alias is Some ==> params@.alias == Some(params.alias->0@),
        AuthMethod::KeyFile(key)@ == AuthView::KeyFile(key@),
        AuthMethod::Password(password)@ == AuthView::Password(password@),
        settings.host_name is None ==> settings@.host_name is None,
        settings.host_name is Some ==> settings@.host_name == Some(settings.host_name->0@),
        settings.user is None ==> settings@.user is None,
        settings.user is Some ==> settings@.user == Some(settings.user->0@),
        settings@.port == settings.port,
        host@.alias == host.alias@,
        host@.host_name == host.host_name@,
        host@.user == host.user@,
        host@.port == host.port,
        host.identity_file is None ==> host@.identity_file is None,
        host.identity_file is Some ==> host@.identity_file == Some(host.identity_file->0@),
        key@.base == key.base@,
        key@.below.len() == key.below@.len(),
        forall|i: int| 0 <= i < key.below@.len() ==> #[trigger] key@.below[i] == key.below@[i]@,
        env.user is Some ==> env@.user == Some(env.user->0@),
        env.logname is Some ==> env@.logname == Some(env.logname->0@),
        env.config_dir is Some ==> env@.config_dir == Some(env.config_dir->0@),
        env.user is None ==> env@.user is None,
        env.logname is None ==> env@.logname is None,
        env.config_dir is None ==> env@.config_dir is None,
        env.home is Some ==> env@.home == Some(path_bytes(env.home->0)),
        env.home is None ==> env@.home is None,
        env.xdg_config_home is Some ==> env@.xdg_config_home == Some(
            path_bytes(env.xdg_config_home->0),
        ),
        env.xdg_config_home is None ==> env@.xdg_config_home is None,
        env@.backslash == env.backslash,
{
}

/// Tunnels, sessions and all hosts.
pub proof fn lemma_tunnel_values(
    entry: TunnelEntry,
    info: TunnelInfo,
    session: TunnelManager,
    manager: MultiTunnelManager,
    port: u16,
    text: String,
    error: String,
    n: u64,
)
    ensures
        entry@.serial == entry.serial,
        entry@.remote_host == entry.remote_host@,
        entry@.remote_port == entry.remote_port,
        entry@.connections == entry.connections,
        entry@.rx_bytes == entry.rx_bytes,
        entry@.tx_bytes == entry.tx_bytes,
        entry@.running == entry.running,
        entry@.log.len() == entry.log.entries@.len(),
        forall|i: int|
            0 <= i < entry@.log.len() ==> #[trigger] entry@.log[i] == entry.log.entries@[i]@,
        info@.local_port == info.local_port,
        info@.remote_host == info.remote_host@,
        info@.remote_port == info.remote_port,
        info@.enabled == info.enabled,
        info@.connections == info.connections,
        info@.rx_bytes == info.rx_bytes,
        info@.tx_bytes == info.tx_bytes,
        info@.rx_rate == info.rx_rate,
        info@.tx_rate == info.tx_rate,
        info@.log.len() == info.log@.len(),
        forall|i: int| 0 <= i < info@.log.len() ==> #[trigger] info@.log[i] == info.log@[i]@,
        session@.serial == session.serial,
        session@.params == session.params@,
        session@.connected == session.connected,
        session@.status == session.status,
        session@.tunnels.contains_key(port) == session.tunnels@.contains_key(port),
        session.tunnels@.contains_key(port) ==> session@.tunnels[port] == session.tunnels@[port]@,
        session@.last_rx == session.last_rx@,
        session@.last_tx == session.last_tx@,
        session@.last_sample == session.last_sample,
        session@.last_keepalive == session.last_keepalive,
        manager@.config_path == manager.config_path@,
        manager@.sessions.len() == manager.sessions@.len(),
        forall|i: int|
            0 <= i < manager.sessions@.len() ==> #[trigger] manager@.sessions[i]
                == manager.sessions@[i]@,
        Traffic::Accepted(text)@ == TrafficView::Accepted(text@),
        Traffic::AcceptFailed(text)@ == TrafficView::AcceptFailed(text@),
        Traffic::Sent(n)@ == TrafficView::Sent(n),
        Traffic::Received(n)@ == TrafficView::Received(n),
        Traffic::Finished(text)@ == TrafficView::Finished(text@),
        Traffic::Failed(text, error)@ == TrafficView::Failed(text@, error@),
{
}

/// What is kept, and what is shown of a host.
pub proof fn lemma_kept_values(
    tunnel: SavedTunnel,
    host: SavedHost,
    shown: HostSummary,
    port: RemotePort,
)
    ensures
        tunnel@.local_port == tunnel.local_port,
        tunnel@.remote_host == tunnel.remote_host@,
        tunnel@.remote_port == tunnel.remote_port,
        tunnel@.enabled == tunnel.enabled,
        host@.params == host.params@,
        host@.tunnels.len() == host.tunnels@.len(),
        forall|i: int|
            0 <= i < host.tunnels@.len() ==> #[trigger] host@.tunnels[i] == host.tunnels@[i]@,
        shown@.id == shown.id@,
        shown@.display_name == shown.display_name@,
        shown@.params == shown.params@,
        shown@.status == shown.status,
        shown@.tunnels.len() == shown.tunnels@.len(),
        forall|i: int|
            0 <= i < shown.tunnels@.len() ==> #[trigger] shown@.tunnels[i] == shown.tunnels@[i]@,
        shown@.total_rx_rate == shown.total_rx_rate,
        shown@.total_tx_rate == shown.total_tx_rate,
        port@.port == port.port,
        port@.process == port.process@,
{
}

/// Requests.
pub proof fn lemma_request_values(
    params: ConnectParams,
    session_id: String,
    local_port: u16,
    remote_host: String,
    remote_port: u32,
)
    ensures
        (Command::ConnectHost { params })@ == (CommandView::ConnectHost { params: params@ }),
        (Command::DisconnectHost { session_id })@ == (CommandView::DisconnectHost {
            session_id: session_id@,
        }),
        (Command::ReconnectHost { session_id })@ == (CommandView::ReconnectHost {
            session_id: session_id@,
        }),
        (Command::AddTunnel { session_id, local_port, remote_host, remote_port })@ == (
        CommandView::AddTunnel {
            session_id: session_id@,
            local_port,
            remote_host: remote_host@,
            remote_port,
        }),
        (Command::RemoveTunnel { session_id, local_port })@ == (CommandView::RemoveTunnel {
            session_id: session_id@,
            local_port,
        }),
        (Command::EnableTunnel { session_id, local_port })@ == (CommandView::EnableTunnel {
            session_id: session_id@,
            local_port,
        }),
        (Command::DisableTunnel { session_id, local_port })@ == (CommandView::DisableTunnel {
            session_id: session_id@,
            local_port,
        }),
        (Command::ScanPorts { session_id })@ == (CommandView::ScanPorts {
            session_id: session_id@,
        }),
        Command::Quit@ == CommandView::Quit,
{
}

/// The state of the screen and its forms.
pub proof fn lemma_screen_values(app: App, host: FormConnectHost, tunnel: FormTunnel)
    ensures
        app@.hosts.len() == app.hosts@.len(),
        forall|i: int| 0 <= i < app.hosts@.len() ==> #[trigger] app@.hosts[i] == app.hosts@[i]@,
        app@.active_host == app.active_host,
        app@.selected_tunnel == app.selected_tunnel,
        app@.mode == app.mode,
        app@.form_connect == app.form_connect@,
        app@.form_tunnel == app.form_tunnel@,
        app@.pending_cmds.len() == app.pending_cmds@.len(),
        forall|i: int|
            0 <= i < app.pending_cmds@.len() ==> #[trigger] app@.pending_cmds[i]
                == app.pending_cmds@[i]@,
        app@.pending_reply == app.pending_reply,
        app.pending_scan is Some ==> app@.pending_scan == Some(app.pending_scan->0@),
        app.pending_scan is None ==> app@.pending_scan is None,
        app@.remote_ports.len() == app.remote_ports@.len(),
        forall|i: int|
            0 <= i < app.remote_ports@.len() ==> #[trigger] app@.remote_ports[i]
                == app.remote_ports@[i]@,
        app@.ports_selected == app.ports_selected,
        match (app.status, app@.status) {
            (Some((message, error)), Some((shown, wrong))) => message@ == shown && error == wrong,
            (None, None) => true,
            _ => false,
        },
        app@.quit == app.quit,
        host@.focus == host.focus,
        host@.target == host.target@,
        host@.auth_type == host.auth_type,
        host@.key_path == host.key_path@,
        host@.password == host.password@,
        host@.config_selected == host.config_selected,
        host@.config_hosts.len() == host.config_hosts@.len(),
        forall|i: int|
            0 <= i < host.config_hosts@.len() ==> #[trigger] host@.config_hosts[i]
                == host.config_hosts@[i]@,
        tunnel@.session_id == tunnel.session_id@,
        tunnel@.focus == tunnel.focus,
        tunnel@.local_port == tunnel.local_port@,
        tunnel@.remote == tunnel.remote@,
{
}

/// What is kept in all, the steps of a login and of a connection, and answers.
pub proof fn lemma_step_values(
    config: AppConfig,
    key: FilePath,
    text: String,
    n: usize,
    trial: Trial,
    ports: Vec<RemotePort>,
    bind: Bind,
)
    ensures
        config@.len() == config.hosts@.len(),
        forall|i: int| 0 <= i < config.hosts@.len() ==> #[trigger] config@[i] == config.hosts@[i]@,
        LoginStep::Connect@ == LoginStepView::Connect,
        LoginStep::LoadKey(key)@ == LoginStepView::LoadKey(key@),
        LoginStep::AskHash@ == LoginStepView::AskHash,
        LoginStep::OfferKey@ == LoginStepView::OfferKey,
        LoginStep::OfferPassword(text)@ == LoginStepView::OfferPassword(text@),
        LoginStep::Done@ == LoginStepView::Done,
        LoginStep::Fail(text)@ == LoginStepView::Fail(text@),
        RelayStep::ShutdownRemote@ == RelayStepView::ShutdownRemote,
        RelayStep::WriteRemote(n)@ == RelayStepView::WriteRemote(n),
        RelayStep::WriteLocal(n)@ == RelayStepView::WriteLocal(n),
        RelayStep::Finish@ == RelayStepView::Finish,
        RelayStep::Fail(text)@ == RelayStepView::Fail(text@),
        trial@.serial == trial.serial,
        trial@.now == trial.now,
        trial.outcome is Ok ==> trial@.outcome is Ok,
        trial.outcome is Err ==> trial@.outcome == Err::<(), Seq<char>>(trial.outcome->Err_0@),
        trial@.ports.len() == trial.ports@.len(),
        forall|i: int| 0 <= i < trial.ports@.len() ==> #[trigger] trial@.ports[i] == trial.ports@[i]@,
        Reply::Done(Ok(()))@ == ReplyView::Done(Ok(())),
        Reply::Done(Err(text))@ == ReplyView::Done(Err(text@)),
        Reply::Ports(ports)@ is Ports,
        Reply::Ports(ports)@->Ports_0.len() == ports@.len(),
        forall|i: int|
            0 <= i < ports@.len() ==> #[trigger] Reply::Ports(ports)@->Ports_0[i] == ports@[i]@,
        bind@.serial == bind.serial,
        bind.bound is Ok ==> bind@.bound is Ok,
        bind.bound is Err ==> bind@.bound == Err::<(), Seq<char>>(bind.bound->Err_0@),
{
}

} // verus!
