//! What a call leads to, operation by operation: what comes back, and what has changed.

use vstd::prelude::*;
use vstd::utf8::encode_utf8;

use crate::app::find_tunnel;
use crate::app::tunnel_on;
use crate::app::App;
use crate::app::AppView;
use crate::app::Ask;
use crate::app::KeyPress;
use crate::app::Mode;
use crate::commands::Command;
use crate::commands::Executed;
use crate::commands::Need;
use crate::config::default_true;
use crate::config::load_config;
use crate::config::save_config;
use crate::config::save_warning;
use crate::config::AppConfig;
use crate::config::LoadOutcome;
use crate::config::SaveOutcome;
use crate::config::SavedHost;
use crate::forms::trimmed_text;
use crate::forms::AuthType;
use crate::forms::FormConnectHost;
use crate::forms::FormTunnel;
use crate::forms::Key;
use crate::login::login_next;
use crate::login::next_step;
use crate::login::reply_view;
use crate::login::trust_server_key;
use crate::login::LoginStep;
use crate::manager::bind_views;
use crate::manager::lemma_holder_bounds;
use crate::manager::lemma_place_bounds;
use crate::manager::serial_place;
use crate::manager::verdict;
use crate::manager::Bind;
use crate::manager::ManagerView;
use crate::manager::MultiTunnelManager;
use crate::news::reply_value;
use crate::news::PortSearch;
use crate::overview::rate_views;
use crate::paths::config_file;
use crate::paths::default_config_path;
use crate::paths::default_key;
use crate::paths::default_key_path;
use crate::paths::expand_tilde;
use crate::paths::plain_path;
use crate::paths::ssh_config_file;
use crate::paths::ssh_config_path;
use crate::paths::user_name;
use crate::paths::Environment;
use crate::paths::FilePath;
use crate::popups::Popup;
use crate::ports::extract_process;
use crate::ports::listed;
use crate::ports::parse_listen_ports;
use crate::ports::port_views;
use crate::ports::process_of;
use crate::ports::scan_command;
use crate::ports::utf8_lossy;
use crate::ports::ChannelEvent;
use crate::ports::PortScan;
use crate::ports::RemotePort;
use crate::relay::after_local;
use crate::relay::after_remote;
use crate::relay::ending;
use crate::relay::Relay;
use crate::relay::RelayStep;
use crate::screen::Backdrop;
use crate::service::request_view;
use crate::service::Phase;
use crate::service::Served;
use crate::service::Service;
use crate::service::ServiceView;
use crate::service::Trial;
use crate::session::backoff;
use crate::session::connected_session;
use crate::session::disconnected_session;
use crate::session::listing;
use crate::session::since;
use crate::session::step_after_result;
use crate::session::step_after_waiting;
use crate::session::CheckStep;
use crate::session::ConnectionStatus;
use crate::session::Growth;
use crate::session::Progress;
use crate::session::Reconnect;
use crate::session::ReconnectStep;
use crate::session::SessionView;
use crate::session::TunnelManager;
use crate::ssh_hosts::describe_host;
use crate::ssh_hosts::host_names;
use crate::ssh_hosts::host_of;
use crate::ssh_hosts::host_views;
use crate::ssh_hosts::hosts_listed;
use crate::ssh_hosts::list_host_names;
use crate::ssh_hosts::list_ssh_config_hosts;
use crate::styles::centered_rect;
use crate::styles::Area;
use crate::summary::summarize;
use crate::summary::summarized;
use crate::summary::summary_views;
use crate::summary::total_rates;
use crate::summary::total_rx;
use crate::summary::total_tx;
use crate::summary::HostSummary;
use crate::target::auth_view;
use crate::target::bytes_of;
use crate::target::command_line_auth;
use crate::target::may_say;
use crate::target::resolution;
use crate::target::resolve_target_str;
use crate::target::resolve_with;
use crate::target::resolved;
use crate::target::settings_for;
use crate::target::settings_view;
use crate::target::string_views;
use crate::target::write_address;
use crate::target::AuthMethod;
use crate::target::ConnectParams;
use crate::target::HostSettings;
use crate::target::HostSettingsView;
use crate::target::SshConfigHost;
use crate::text::dec;
use crate::text::decimal;
use crate::text::parse_unsigned;
use crate::text::trim;
use crate::text::trimmed;
use crate::text::unsigned;
use crate::tunnel::info_views;
use crate::tunnel::Rate;
use crate::tunnel::Traffic;
use crate::tunnel::TrafficView;
use crate::tunnel::TunnelEntry;
use crate::tunnel::TunnelInfo;
use crate::tunnel::TunnelInfoView;
use crate::tunnel_log::log_push;
use crate::tunnel_log::logged;
use crate::tunnel_log::TunnelLog;
use crate::units::amount;
use crate::units::fmt_bytes;
use crate::units::fmt_rate;

verus! {

// ---------- Logging in and forwarding ----------

/// A server whose key is not to be looked at is trusted, and one whose key is to be looked at
/// unless the known hosts contradict it.
pub proof fn lemma_trust(known: Option<bool>, r: bool)
    ensures
        call_ensures(trust_server_key, (false, known), r) ==> r,
        call_ensures(trust_server_key, (true, None), r) ==> !r,
        known is Some && call_ensures(trust_server_key, (true, known), r) ==> r,
{
}

/// A password on the command line goes before a key file, and either is what is used.
pub proof fn lemma_command_line(password: String, key: FilePath, r: Option<AuthMethod>)
    ensures
        call_ensures(command_line_auth, (None, None), r) ==> r is None,
        call_ensures(command_line_auth, (None, Some(key)), r) ==> r is Some && r->0 is KeyFile
            && r->0->KeyFile_0@ == key@,
        call_ensures(command_line_auth, (Some(password), None), r) ==> r is Some
            && r->0 is Password && r->0->Password_0@ == password@,
        call_ensures(command_line_auth, (Some(password), Some(key)), r) ==> r is Some
            && r->0 is Password && r->0->Password_0@ == password@,
{
}

/// A step of a login is followed by what `login_next` says.
pub proof fn lemma_next_step(
    params: &ConnectParams,
    shown: &str,
    step: LoginStep,
    reply: Result<bool, String>,
    r: LoginStep,
)
    ensures
        call_ensures(next_step, (params, shown, step, reply), r) ==> r@ == login_next(
            params@,
            shown@,
            step@,
            reply_view(reply),
        ),
{
}

/// Forwarding begins where there is a connection, with a client that may still send. What is
/// read leads on as it should, and the client that has sent its last byte is remembered. How
/// it ended is told with the address of the client.
pub proof fn lemma_forwarding(
    relay: &mut Relay,
    read: Result<usize, String>,
    step: RelayStep,
    opened: Result<Relay, String>,
    peer: String,
    error: String,
    told: Traffic,
)
    ensures
        call_ensures(Relay::open, (true,), opened) ==> opened is Ok && !opened->Ok_0.stream_eof,
        call_ensures(Relay::open, (false,), opened) ==> opened is Err && opened->Err_0@
            == "SSH 会话未连接或已断开"@,
        call_ensures(Relay::on_local, (relay, read), step) ==> step@ == after_local(read)
            && final(relay).stream_eof == (read is Ok && read->Ok_0 == 0),
        call_ensures(Relay::on_remote, (relay, read), step) ==> step@ == after_remote(read)
            && final(relay).stream_eof == old(relay).stream_eof,
        call_ensures(ending, (peer, Ok(())), told) ==> told@ == TrafficView::Finished(peer@),
        call_ensures(ending, (peer, Err(error)), told) ==> told@ == TrafficView::Failed(
            peer@,
            error@,
        ),
{
}

/// A step that forwards bytes counts as them, in the direction in which they go.
pub proof fn lemma_counting(n: usize, counted: Option<Traffic>)
    ensures
        call_ensures(RelayStep::counted, (&RelayStep::WriteRemote(n),), counted) ==> counted is Some
            && counted->0@ == TrafficView::Sent(n as u64),
        call_ensures(RelayStep::counted, (&RelayStep::WriteLocal(n),), counted) ==> counted is Some
            && counted->0@ == TrafficView::Received(n as u64),
        call_ensures(RelayStep::counted, (&RelayStep::Finish,), counted) ==> counted is None,
        call_ensures(RelayStep::counted, (&RelayStep::ShutdownRemote,), counted)
            ==> counted is None,
{
}

// ---------- The configuration file ----------

/// What was read is used where it could be; nothing is kept otherwise, and what went wrong is
/// said, but for a file that is not there.
pub proof fn lemma_loading(
    path: &str,
    config: AppConfig,
    error: String,
    r: (AppConfig, Option<String>),
)
    ensures
        call_ensures(load_config, (path, LoadOutcome::Parsed(config)), r) ==> r.0@ == config@
            && r.1 is None,
        call_ensures(load_config, (path, LoadOutcome::Missing), r) ==> r.0@.len() == 0
            && r.1 is None,
        call_ensures(load_config, (path, LoadOutcome::Unreadable(error)), r) ==> r.0@.len() == 0
            && r.1 is Some && r.1->0@ == "[警告] 读取配置文件 "@ + path@ + " 失败："@ + error@,
        call_ensures(load_config, (path, LoadOutcome::Malformed(error)), r) ==> r.0@.len() == 0
            && r.1 is Some && r.1->0@ == "[警告] 解析配置文件 "@ + path@ + " 失败："@ + error@,
{
}

/// Writing goes well where every step did, and otherwise says which did not; what is warned of
/// then names the file. A kept tunnel of which nothing is said runs.
pub proof fn lemma_saving(
    path: &str,
    error: String,
    why: &str,
    r: Result<(), String>,
    warning: String,
    runs: bool,
)
    ensures
        call_ensures(save_config, (SaveOutcome::Saved,), r) ==> r is Ok,
        call_ensures(save_config, (SaveOutcome::NotSerialized(error),), r) ==> r is Err
            && r->Err_0@ == "序列化配置失败："@ + error@,
        call_ensures(save_config, (SaveOutcome::NotWritten(error),), r) ==> r is Err && r->Err_0@
            == "写入配置文件失败："@ + error@,
        call_ensures(save_config, (SaveOutcome::NotRenamed(error),), r) ==> r is Err && r->Err_0@
            == "重命名配置文件失败："@ + error@,
        call_ensures(save_warning, (path, why), warning) ==> warning@ == "[警告] 保存配置至 "@
            + path@ + " 失败："@ + why@,
        call_ensures(default_true, (), runs) ==> runs,
{
}

// ---------- One tunnel ----------

/// A tunnel takes in what happens on it, stops, starts and is shown as it should.
pub proof fn lemma_tunnel_calls(
    t: &mut TunnelEntry,
    event: Traffic,
    message: String,
    port: u16,
    rate: Rate,
    shown: TunnelInfo,
)
    ensures
        call_ensures(TunnelEntry::on_traffic, (t, event), ()) ==> final(t)@ == old(t)@.after(
            event@,
        ),
        call_ensures(TunnelEntry::stop, (t, port), ()) ==> final(t)@ == old(t)@.stopped(port),
        call_ensures(TunnelEntry::start, (t, port), ()) ==> final(t)@ == old(t)@.started(port),
        call_ensures(TunnelEntry::note, (t, message), ()) ==> final(t)@.log == logged(
            old(t)@.log,
            message@,
        ),
        call_ensures(TunnelEntry::info, (&*old(t), port, rate), shown) ==> {
            &&& shown.rx_bytes == old(t).rx_bytes
            &&& shown.tx_bytes == old(t).tx_bytes
            &&& shown.local_port == port
            &&& shown.remote_port == old(t).remote_port
            &&& shown.remote_host@ == old(t).remote_host@
            &&& shown.enabled == old(t).running
        },
{
}

/// A message goes into a log as it should, and its messages are given back in order.
pub proof fn lemma_log_calls(log: &mut TunnelLog, message: String, v: Vec<String>)
    ensures
        call_ensures(log_push, (log, message), ()) ==> final(log)@ == logged(old(log)@, message@),
        call_ensures(TunnelLog::messages, (&*old(log),), v) ==> string_views(v@) == string_views(
            old(log).entries@,
        ),
{
}

// ---------- One host ----------

/// A session begins as it should, or not at all and with the error.
pub proof fn lemma_session_begins(
    serial: u64,
    params: ConnectParams,
    error: String,
    now: i64,
    r: Result<TunnelManager, String>,
    waiting: TunnelManager,
)
    ensures
        call_ensures(TunnelManager::connect, (serial, params, Ok(()), now), r) ==> r is Ok
            && r->Ok_0@ == connected_session(serial, params@, now),
        call_ensures(TunnelManager::connect, (serial, params, Err(error), now), r) ==> r is Err
            && r->Err_0@ == error@,
        call_ensures(TunnelManager::new_disconnected, (serial, params, now), waiting)
            ==> waiting@ == disconnected_session(serial, params@, now),
{
}

/// The tunnels of a session are added, removed, stopped and started where that can be done,
/// and it is said why where it cannot.
pub proof fn lemma_session_requests(
    s: &mut TunnelManager,
    serial: u64,
    port: u16,
    host: &str,
    remote_port: u32,
    error: String,
    r: Result<(), String>,
    removed: Result<bool, String>,
)
    ensures
        ({
            let before = old(s)@;
            let after = final(s)@;
            let there = before.tunnels.contains_key(port);
            let runs = there && before.tunnels[port].running;
            &&& call_ensures(
                TunnelManager::add,
                (s, serial, port, host, remote_port, &Ok(())),
                r,
            ) ==> r is Ok && after == before.with_running(serial, port, host@, remote_port)
            &&& call_ensures(
                TunnelManager::add,
                (s, serial, port, host, remote_port, &Err(error)),
                r,
            ) ==> r is Err && after == before && r->Err_0@ == "本地端口 "@ + dec(port as nat)
                + " 绑定失败："@ + error@
            &&& call_ensures(
                TunnelManager::restore_disabled,
                (s, serial, port, host, remote_port),
                (),
            ) ==> after == before.with_stopped(serial, port, host@, remote_port)
            &&& call_ensures(TunnelManager::remove, (s, port), removed) ==> {
                &&& there ==> removed is Ok && removed->Ok_0 == runs && after == SessionView {
                    tunnels: before.tunnels.remove(port),
                    ..before
                }
                &&& !there ==> removed is Err && after == before && removed->Err_0@ == "隧道 "@
                    + dec(port as nat) + " 不存在"@
            }
            &&& call_ensures(TunnelManager::disable, (s, port), r) ==> {
                &&& runs ==> r is Ok && after == SessionView {
                    tunnels: before.tunnels.insert(port, before.tunnels[port].stopped(port)),
                    ..before
                }
                &&& there && !runs ==> r is Err && after == before && r->Err_0@ == "隧道 "@ + dec(
                    port as nat,
                ) + " 已经是停用状态"@
                &&& !there ==> r is Err && after == before && r->Err_0@ == "隧道 "@ + dec(
                    port as nat,
                ) + " 不存在"@
            }
            &&& call_ensures(TunnelManager::enable, (s, port, &Ok(())), r) ==> {
                &&& there && !runs ==> r is Ok && after == SessionView {
                    tunnels: before.tunnels.insert(port, before.tunnels[port].started(port)),
                    ..before
                }
                &&& runs ==> r is Err && after == before && r->Err_0@ == "隧道 "@ + dec(
                    port as nat,
                ) + " 已经在运行中"@
                &&& !there ==> r is Err && after == before && r->Err_0@ == "隧道 "@ + dec(
                    port as nat,
                ) + " 不存在"@
            }
            &&& call_ensures(TunnelManager::enable, (s, port, &Err(error)), r) ==> {
                &&& there && !runs ==> r is Err && after == before && r->Err_0@ == "本地端口 "@
                    + dec(port as nat) + " 绑定失败："@ + error@
                &&& runs || !there ==> r is Err && after == before
            }
        }),
{
}

/// A session takes in traffic and news, is looked at, shown and ended as it should.
pub proof fn lemma_session_calls(
    s: &mut TunnelManager,
    port: u16,
    serial: u64,
    event: Traffic,
    progress: Progress,
    now: i64,
    closed: bool,
    step: CheckStep,
    rates: &Vec<Rate>,
    shown: Vec<TunnelInfo>,
    growths: Vec<Growth>,
    age: u64,
    status: ConnectionStatus,
    connected: bool,
)
    ensures
        ({
            let before = old(s)@;
            let after = final(s)@;
            &&& call_ensures(TunnelManager::on_traffic, (s, port, serial, event), ()) ==> after
                == before.after_traffic(port, serial, event@)
            &&& call_ensures(TunnelManager::on_progress, (s, progress), ()) ==> after
                == before.after_progress(progress)
            &&& call_ensures(TunnelManager::check, (s, now, closed), step) ==> step
                == before.check_step(now, closed) && after == before.checked(now, closed)
            &&& call_ensures(TunnelManager::on_ping, (s, true), step) ==> step == CheckStep::Keep
                && after == before
            &&& call_ensures(TunnelManager::on_ping, (s, false), step) ==> step
                == CheckStep::Reconnect && after == SessionView {
                status: ConnectionStatus::Reconnecting(0),
                ..before
            }
            &&& call_ensures(TunnelManager::list, (s, now, rates), shown) ==> info_views(shown@)
                == listing(before.tunnels, rates@) && after == before.sampled(now)
            &&& call_ensures(TunnelManager::growths, (&*old(s),), growths) ==> growths@
                == before.growths()
            &&& call_ensures(TunnelManager::sample_age, (&*old(s), now), age) ==> age == since(
                before.last_sample,
                now,
            )
            &&& call_ensures(TunnelManager::status, (&*old(s),), status) ==> status
                == before.status
            &&& call_ensures(TunnelManager::shutdown, (s,), connected) ==> connected
                == before.connected && after == before.ended()
        }),
{
}

/// A run of attempts goes on as it should.
pub proof fn lemma_attempt_calls(
    r: &mut Reconnect,
    begun: Reconnect,
    connected: bool,
    step: ReconnectStep,
    told: Option<Progress>,
    secs: u64,
)
    ensures
        call_ensures(Reconnect::new, (), begun) ==> begun.attempt == 0,
        call_ensures(Reconnect::next_attempt, (r,), step) ==> step == step_after_waiting(
            old(r).attempt,
        ) && (old(r).attempt < 5 ==> final(r).attempt == old(r).attempt + 1),
        call_ensures(Reconnect::on_result, (&*old(r), connected), step) ==> step
            == step_after_result(old(r).attempt, connected),
        call_ensures(Reconnect::wait_secs, (&*old(r),), secs) ==> secs == backoff(old(r).attempt),
        call_ensures(ReconnectStep::told, (&step,), told) ==> told == step.progress(),
{
}

// ---------- All hosts ----------

/// A request is carried out, and what it needs is told, as it should.
pub proof fn lemma_request_calls(
    m: &mut MultiTunnelManager,
    command: Command,
    need: Need,
    serial: u64,
    outcome: Result<(), String>,
    now: i64,
    done: Executed,
)
    ensures
        call_ensures(MultiTunnelManager::need, (&*old(m), &command), need) ==> need
            == old(m)@.need(command@),
        call_ensures(MultiTunnelManager::execute, (m, command, serial, outcome, now), done) ==> {
            let r = old(m)@.executing(command@, serial, verdict(outcome), now);
            &&& final(m)@ == r.0
            &&& verdict(done.result) == r.1
            &&& done.action == old(m)@.action(command@, serial, verdict(outcome), now)
            &&& done.save == (r.1 is Ok && !(command is ReconnectHost) && !(command is ScanPorts)
                && !(command is Quit))
        },
{
}

/// Each request on a host or a tunnel does by itself what it does among the others.
pub proof fn lemma_host_and_tunnel_calls(
    m: &mut MultiTunnelManager,
    serial: u64,
    params: ConnectParams,
    outcome: Result<(), String>,
    now: i64,
    id: &str,
    port: u16,
    host: &str,
    remote_port: u32,
    r: Result<(), String>,
)
    ensures
        ({
            let before = old(m)@;
            let after = (final(m)@, verdict(r));
            let bound = verdict(outcome);
            &&& call_ensures(
                MultiTunnelManager::add_session,
                (m, serial, params, outcome, now),
                r,
            ) ==> after == before.adding_session(serial, params@, bound, now)
            &&& call_ensures(MultiTunnelManager::remove_session, (m, id), r) ==> after
                == before.removing_session(id@)
            &&& call_ensures(
                MultiTunnelManager::add_tunnel,
                (m, id, serial, port, host, remote_port, &outcome),
                r,
            ) ==> after == before.adding_tunnel(id@, serial, port, host@, remote_port, bound)
            &&& call_ensures(MultiTunnelManager::remove_tunnel, (m, id, port), r) ==> after
                == before.removing_tunnel(id@, port)
            &&& call_ensures(MultiTunnelManager::enable_tunnel, (m, id, port, &outcome), r)
                ==> after == before.enabling_tunnel(id@, port, bound)
            &&& call_ensures(MultiTunnelManager::disable_tunnel, (m, id, port), r) ==> after
                == before.disabling_tunnel(id@, port)
            &&& call_ensures(MultiTunnelManager::reconnect_session, (m, id), r) ==> after
                == before.reconnecting_session(id@)
        }),
{
}

/// What is asked beforehand is answered by the hosts and tunnels that are there: a host can be
/// added where none of its name is, a tunnel where its host is and no host has the port, and a
/// tunnel can be started where it is there and does not run. A kept host is to be brought back
/// where none of its name is there, with the ports of those tunnels bound that ran.
pub proof fn lemma_asked_beforehand(
    m: &MultiTunnelManager,
    params: &ConnectParams,
    id: &str,
    port: u16,
    r: Result<(), String>,
    saved: &SavedHost,
    need: Option<Vec<bool>>,
    serial: u64,
    place: Option<usize>,
    named: Option<usize>,
)
    ensures
        call_ensures(MultiTunnelManager::may_add_session, (m, params), r) ==> (r is Ok <==> forall|
            i: int,
        |
            0 <= i < m@.sessions.len() ==> (#[trigger] m@.sessions[i]).params.display_name()
                != params@.display_name()),
        call_ensures(MultiTunnelManager::may_add_tunnel, (m, id, port), r) ==> (r is Ok <==> {
            &&& exists|i: int|
                0 <= i < m@.sessions.len() && (
                #[trigger] m@.sessions[i]).params.display_name() == id@
            &&& forall|i: int|
                0 <= i < m@.sessions.len() ==> !(
                #[trigger] m@.sessions[i]).tunnels.contains_key(port)
        }),
        call_ensures(MultiTunnelManager::may_enable_tunnel, (m, id, port), r) && r is Ok
            ==> exists|i: int|
            0 <= i < m@.sessions.len() && (#[trigger] m@.sessions[i]).params.display_name() == id@
                && m@.sessions[i].tunnels.contains_key(port)
                && !m@.sessions[i].tunnels[port].running,
        call_ensures(MultiTunnelManager::restore_need, (m, saved), need) ==> {
            &&& need is None <==> exists|i: int|
                0 <= i < m@.sessions.len() && (
                #[trigger] m@.sessions[i]).params.display_name() == saved.params@.display_name()
            &&& need is Some ==> need->0@.len() == saved.tunnels@.len() && forall|i: int|
                0 <= i < saved.tunnels@.len() ==> #[trigger] need->0@[i]
                    == saved.tunnels@[i].enabled
        },
        call_ensures(MultiTunnelManager::find_session, (m, id), named) ==> {
            &&& named is Some ==> (named->0 as int) < m@.sessions.len()
                && m@.sessions[named->0 as int].params.display_name() == id@
            &&& named is None ==> forall|i: int|
                0 <= i < m@.sessions.len() ==> (
                #[trigger] m@.sessions[i]).params.display_name() != id@
        },
        call_ensures(MultiTunnelManager::find_serial, (m, serial), place) ==> {
            &&& place is Some ==> (place->0 as int) < m@.sessions.len()
                && m@.sessions[place->0 as int].serial == serial
            &&& place is None ==> forall|i: int|
                0 <= i < m@.sessions.len() ==> (#[trigger] m@.sessions[i]).serial != serial
        },
{
    let sessions = m@.sessions;
    let kept = saved@;
    lemma_place_bounds(sessions, params@.display_name());
    lemma_place_bounds(sessions, id@);
    lemma_place_bounds(sessions, kept.params.display_name());
    lemma_holder_bounds(sessions, port);
    lemma_serial_bounds(sessions, serial);
    if need is Some {
        assert forall|i: int|
            call_ensures(MultiTunnelManager::restore_need, (m, saved), need) && 0 <= i
                < saved.tunnels@.len() implies #[trigger] need->0@[i]
            == saved.tunnels@[i].enabled by {
            assert(kept.tunnels[i] == saved.tunnels@[i]@);
        }
    }
}

/// The place of a serial is that of the first session of that serial.
pub proof fn lemma_serial_bounds(sessions: Seq<SessionView>, serial: u64)
    ensures
        0 <= serial_place(sessions, serial) <= sessions.len(),
        forall|i: int|
            0 <= i < serial_place(sessions, serial) ==> (#[trigger] sessions[i]).serial != serial,
        serial_place(sessions, serial) < sessions.len() ==> sessions[serial_place(
            sessions,
            serial,
        )].serial == serial,
    decreases sessions.len(),
{
    if sessions.len() > 0 && sessions[0].serial != serial {
        let rest = sessions.drop_first();
        lemma_serial_bounds(rest, serial);
        assert forall|i: int| 0 <= i < serial_place(sessions, serial) implies (
        #[trigger] sessions[i]).serial != serial by {
            if i > 0 {
                assert(rest[i - 1] == sessions[i]);
            }
        }
    }
}

/// Kept hosts come back, what is to be kept is told, news is taken in, and all is ended, as it
/// should be.
pub proof fn lemma_manager_calls(
    m: &mut MultiTunnelManager,
    path: FilePath,
    begun: MultiTunnelManager,
    serial: u64,
    saved: &SavedHost,
    outcome: Result<(), String>,
    binds: &Vec<Bind>,
    now: i64,
    config: AppConfig,
    port: u16,
    tunnel: u64,
    event: Traffic,
    progress: Progress,
    id: &str,
    there: bool,
)
    ensures
        ({
            let before = old(m)@;
            let after = final(m)@;
            &&& call_ensures(MultiTunnelManager::new, (path,), begun) ==> begun@.sessions.len() == 0
                && begun@.config_path == path@
            &&& call_ensures(
                MultiTunnelManager::restore_session,
                (m, serial, saved, outcome, binds, now),
                (),
            ) ==> after == before.restoring_session(
                serial,
                saved@,
                verdict(outcome),
                bind_views(binds@),
                now,
            )
            &&& call_ensures(MultiTunnelManager::to_config, (&*old(m),), config) ==> config@
                == before.config()
            &&& call_ensures(
                MultiTunnelManager::on_traffic,
                (m, serial, port, tunnel, event),
                (),
            ) ==> after == before.after_traffic(serial, port, tunnel, event@)
            &&& call_ensures(MultiTunnelManager::on_progress, (m, serial, progress), ()) ==> after
                == before.after_progress(serial, progress)
            &&& call_ensures(MultiTunnelManager::shutdown_all, (m,), ()) ==> after == ManagerView {
                sessions: Seq::empty(),
                ..before
            }
            &&& call_ensures(MultiTunnelManager::has_session, (&*old(m), id), there) ==> there
                == before.has(id@)
        }),
{
}

/// Requests are served and the hosts shown as they should be, in turn.
pub proof fn lemma_service_calls(
    service: &mut Service,
    manager: MultiTunnelManager,
    begun: Service,
    request: Option<Command>,
    trial: Trial,
    served: Served,
    now: i64,
    rates: &Vec<Vec<Rate>>,
    shown: Vec<HostSummary>,
)
    ensures
        ({
            let before = old(service)@;
            let after = final(service)@;
            &&& call_ensures(Service::new, (manager,), begun) ==> begun@.manager == manager@
                && begun@.phase == Phase::Waiting
            &&& call_ensures(Service::on_tick, (service,), ()) ==> after == ServiceView {
                phase: Phase::Showing,
                ..before
            }
            &&& call_ensures(Service::on_request, (service, request, trial), served) ==> (
                after,
                served@,
            ) == before.serving(request_view(request), trial@)
            &&& call_ensures(Service::show, (service, now, rates), shown) ==> summary_views(shown@)
                == before.manager.summaries(rate_views(rates@)) && after.manager
                == before.manager.sampled(now) && after.phase == Phase::Waiting
        }),
{
}

// ---------- Ports ----------

/// The ports of a listing, and the process of a line, are read as they should be. A listing is
/// collected from both streams, in the order in which they come, until it ends.
pub proof fn lemma_port_calls(
    output: &str,
    ports: Vec<RemotePort>,
    name: String,
    command: &'static str,
    scan: &mut PortScan,
    begun: PortScan,
    data: Vec<u8>,
)
    ensures
        call_ensures(parse_listen_ports, (output,), ports) ==> listed(port_views(ports@), output@),
        call_ensures(extract_process, (output,), name) ==> name@ == process_of(output@),
        call_ensures(scan_command, (), command) ==> command@
            == "ss -tln 2>/dev/null || netstat -tln 2>/dev/null"@,
        call_ensures(PortScan::new, (), begun) ==> begun.output@.len() == 0 && !begun.done,
        call_ensures(PortScan::receive, (scan, ChannelEvent::Data(data)), ())
            ==> final(scan).output@ == old(scan).output@ + data@ && !final(scan).done,
        call_ensures(PortScan::receive, (scan, ChannelEvent::ExtendedData(data)), ())
            ==> final(scan).output@ == old(scan).output@ + data@ && !final(scan).done,
        call_ensures(PortScan::receive, (scan, ChannelEvent::Eof), ()) ==> final(scan).output@
            == old(scan).output@ && final(scan).done,
        call_ensures(PortScan::receive, (scan, ChannelEvent::Closed), ()) ==> final(scan).output@
            == old(scan).output@ && final(scan).done,
        call_ensures(PortScan::receive, (scan, ChannelEvent::Other), ()) ==> final(scan).output@
            == old(scan).output@ && !final(scan).done,
        call_ensures(PortScan::ports, (&*old(scan),), ports) ==> listed(
            port_views(ports@),
            utf8_lossy(old(scan).output@),
        ),
{
}

// ---------- Targets, hosts and paths ----------

/// A target means what it should, and hosts are named and listed as they should be.
pub proof fn lemma_target_calls(
    target: &str,
    auth: Option<AuthMethod>,
    default_port: u16,
    no_host_key_check: bool,
    env: &Environment,
    settings: &Option<HostSettings>,
    r: Result<ConnectParams, String>,
    params: &ConnectParams,
    name: String,
    host: &SshConfigHost,
    check_host_key: bool,
    listed_params: ConnectParams,
    said: &HostSettings,
    described: SshConfigHost,
    names: Vec<String>,
)
    ensures
        call_ensures(
            resolve_with,
            (target, auth, default_port, no_host_key_check, env, settings),
            r,
        ) ==> resolution(r) == resolved(
            target@,
            match auth {
                Some(auth) => Some(auth@),
                None => None,
            },
            default_port,
            no_host_key_check,
            env@,
            settings_view(*settings),
        ),
        call_ensures(ConnectParams::display_name, (params,), name) ==> name@
            == params@.display_name(),
        call_ensures(
            SshConfigHost::to_connect_params,
            (host, check_host_key, env),
            listed_params,
        ) ==> listed_params@ == host@.connect_params(check_host_key, env@),
        call_ensures(describe_host, (target, said, env), described) ==> described@ == host_of(
            target@,
            said@,
            env@,
        ),
        call_ensures(list_host_names, (target,), names) ==> string_views(names@) == host_names(
            target@,
        ),
        settings is None ==> settings_view(*settings) is None,
        settings is Some ==> settings_view(*settings) == Some(settings->0@),
        r is Ok ==> resolution(r)->Ok_0 == r->Ok_0@,
{
}

/// Paths are expanded, and files lie, where they should.
pub proof fn lemma_path_calls(
    path: &FilePath,
    env: &Environment,
    text: &str,
    r: FilePath,
    some: Option<FilePath>,
)
    ensures
        call_ensures(expand_tilde, (path, env), r) ==> r@ == path@.expanded(env@),
        call_ensures(default_key_path, (env,), r) ==> r@ == default_key(env@),
        call_ensures(default_config_path, (env,), r) ==> r@ == config_file(env@),
        call_ensures(ssh_config_path, (env,), some) ==> match (some, ssh_config_file(env@)) {
            (Some(path), Some(expected)) => path@ == expected,
            (None, None) => true,
            _ => false,
        },
        call_ensures(FilePath::of_text, (text,), r) ==> r@ == plain_path(encode_utf8(text@)),
{
}

/// A target is taken with what the configuration says of its host. What stands in the form is
/// taken without the space around it, with port 22 where it gives none, and with the host key
/// looked at. The hosts listed are those of the configuration.
pub proof fn lemma_configuration_calls(
    app: &mut App,
    target: &str,
    auth: Option<AuthMethod>,
    default_port: u16,
    no_host_key_check: bool,
    env: &Environment,
    config: Option<&[u8]>,
    now: i64,
    r: Result<ConnectParams, String>,
    content: &str,
    hosts: Vec<SshConfigHost>,
)
    ensures
        call_ensures(
            resolve_target_str,
            (target, auth, default_port, no_host_key_check, env, config),
            r,
        ) ==> exists|table: Option<Map<Seq<char>, HostSettingsView>>|
            #[trigger] may_say(bytes_of(config), env@.known_home(), table) && resolution(r)
                == resolved(
                target@,
                auth_view(auth),
                default_port,
                no_host_key_check,
                env@,
                settings_for(table, target@),
            ),
        call_ensures(App::submit_connect_host, (app, env, config, now), ()) ==> exists|
            table: Option<Map<Seq<char>, HostSettingsView>>,
        |
            #[trigger] may_say(bytes_of(config), env@.known_home(), table) && final(app)@ == old(
                app)@.submitting(
                resolved(
                    trim(old(app)@.form_connect.target),
                    old(app)@.form_connect.auth(),
                    22,
                    false,
                    env@,
                    settings_for(table, trim(old(app)@.form_connect.target)),
                ),
                now,
            ),
        call_ensures(list_ssh_config_hosts, (content, env), hosts) ==> exists|
            table: Option<Map<Seq<char>, HostSettingsView>>,
        |
            #[trigger] may_say(Some(encode_utf8(content@)), env@.known_home(), table)
                && host_views(hosts@) == hosts_listed(content@, table, env@),
        config is Some ==> bytes_of(config) == Some(config->0@),
        config is None ==> bytes_of(config) is None,
        auth is Some ==> auth_view(auth) == Some(auth->0@),
        auth is None ==> auth_view(auth) is None,
{
}

/// What can be asked of a session, of the hosts and of what is on the screen is answered by
/// what they hold.
pub proof fn lemma_answers(
    s: &TunnelManager,
    port: u16,
    r: Result<(), String>,
    m: &MultiTunnelManager,
    rates: &Vec<Vec<Rate>>,
    usable: bool,
    serials: Vec<u64>,
    app: &App,
    host: Option<&HostSummary>,
    tunnels: &Vec<TunnelInfo>,
    tunnel: Option<&TunnelInfo>,
    total: Option<Rate>,
    form: &FormConnectHost,
    listed_host: Option<&SshConfigHost>,
)
    ensures
        call_ensures(TunnelManager::may_enable, (s, port), r) ==> (r is Ok <==> (
        s@.tunnels.contains_key(port) && !s@.tunnels[port].running)),
        call_ensures(MultiTunnelManager::rates_usable, (m, rates), usable) ==> (usable <==> {
            let all = rate_views(rates@);
            &&& all.len() == m@.sessions.len()
            &&& forall|i: int|
                0 <= i < all.len() ==> {
                    let s = #[trigger] m@.sessions[i];
                    &&& all[i].len() == s.ports().len()
                    &&& total_rx(listing(s.tunnels, all[i])) <= u64::MAX
                    &&& total_tx(listing(s.tunnels, all[i])) <= u64::MAX
                }
        }),
        call_ensures(MultiTunnelManager::serials, (m,), serials) ==> serials@.len()
            == m.sessions@.len() && forall|i: int|
            0 <= i < serials@.len() ==> #[trigger] serials@[i] == m.sessions@[i].serial,
        call_ensures(App::current_host, (app,), host) ==> {
            &&& host is Some <==> app.active_host < app.hosts@.len()
            &&& host is Some ==> host->0@ == app.hosts@[app.active_host as int]@
        },
        call_ensures(find_tunnel, (tunnels, port), tunnel) ==> {
            &&& tunnel is Some ==> tunnel->0@.local_port == port
            &&& tunnel is None ==> forall|i: int|
                0 <= i < tunnels@.len() ==> (#[trigger] tunnels@[i]).local_port != port
        },
        call_ensures(total_rates, (tunnels,), total) && total is Some ==> total->0.rx == total_rx(
            info_views(tunnels@),
        ) && total->0.tx == total_tx(info_views(tunnels@)),
        call_ensures(total_rates, (tunnels,), total) && total is None ==> total_rx(
            info_views(tunnels@),
        ) > u64::MAX || total_tx(info_views(tunnels@)) > u64::MAX,
        call_ensures(FormConnectHost::selected_host, (form,), listed_host) ==> {
            &&& listed_host is Some <==> form@.config_selected < form@.config_hosts.len()
            &&& listed_host is Some ==> listed_host->0@
                == form@.config_hosts[form@.config_selected as int]
        },
{
    let views = info_views(tunnels@);
    lemma_tunnel_found(views, port);
    assert forall|i: int|
        0 <= i < tunnels@.len() && tunnel_on(views, port) is None implies (
    #[trigger] tunnels@[i]).local_port != port by {
        assert(views[i] == tunnels@[i]@);
    }
    assert forall|i: int|
        call_ensures(MultiTunnelManager::serials, (m,), serials) && 0 <= i
            < serials@.len() implies #[trigger] serials@[i] == m.sessions@[i].serial by {
        assert(m@.sessions[i] == m.sessions@[i]@);
    }
    if app.active_host < app.hosts@.len() {
        assert(app@.hosts[app.active_host as int] == app.hosts@[app.active_host as int]@);
    }
}

/// A tunnel that is found on a port has that port, and none is found where none has it.
pub proof fn lemma_tunnel_found(tunnels: Seq<TunnelInfoView>, port: u16)
    ensures
        tunnel_on(tunnels, port) is Some ==> tunnel_on(tunnels, port)->0.local_port == port
            && tunnels.contains(tunnel_on(tunnels, port)->0),
        tunnel_on(tunnels, port) is None ==> forall|i: int|
            0 <= i < tunnels.len() ==> (#[trigger] tunnels[i]).local_port != port,
    decreases tunnels.len(),
{
    if tunnels.len() > 0 {
        let rest = tunnels.drop_first();
        if tunnels[0].local_port == port {
            assert(tunnels.contains(tunnels[0]));
        } else {
            lemma_tunnel_found(rest, port);
            assert forall|t: TunnelInfoView| rest.contains(t) implies tunnels.contains(t) by {
                let k = choose|k: int| 0 <= k < rest.len() && rest[k] == t;
                assert(tunnels[k + 1] == t);
            }
            assert forall|i: int|
                tunnel_on(tunnels, port) is None && 0 <= i < tunnels.len() implies (
            #[trigger] tunnels[i]).local_port != port by {
                if i > 0 {
                    assert(rest[i - 1] == tunnels[i]);
                }
            }
        }
    }
}

/// Texts are read and written as they should be.
pub proof fn lemma_text_calls(
    text: &str,
    chars: &[char],
    trimmed_chars: &[char],
    max: u32,
    number: Option<u32>,
    n: u64,
    s: String,
    env: &Environment,
    path: FilePath,
    r: FilePath,
    host: &str,
    port: u16,
    kind: AuthType,
    flipped: AuthType,
)
    ensures
        call_ensures(trimmed_text, (text,), s) ==> s@ == trim(text@),
        call_ensures(trimmed, (chars,), trimmed_chars) ==> trimmed_chars@ == trim(chars@),
        call_ensures(parse_unsigned, (chars, max), number) ==> {
            &&& number is Some ==> unsigned(chars@, max as nat) == Some(number->0 as nat)
            &&& number is None ==> unsigned(chars@, max as nat) is None
        },
        call_ensures(decimal, (n,), s) ==> s@ == dec(n as nat),
        call_ensures(user_name, (env,), s) ==> {
            &&& env.user is Some ==> s@ == env.user->0@
            &&& env.user is None && env.logname is Some ==> s@ == env.logname->0@
            &&& env.user is None && env.logname is None ==> s@ == "root"@
        },
        call_ensures(FilePath::join, (path, text), r) ==> r@ == path@.joined(text@),
        call_ensures(write_address, (text, host, port), s) ==> s@ == text@ + seq!['@'] + host@
            + seq![':'] + dec(port as nat),
        call_ensures(AuthType::other, (kind,), flipped) ==> flipped != kind,
{
    reveal_strlit("@");
    reveal_strlit(":");
    if call_ensures(write_address, (text, host, port), s) {
        assert(s@ =~= text@ + seq!['@'] + host@ + seq![':'] + dec(port as nat));
    }
}

// ---------- The screen ----------

/// A key does what it should, and so does what was found out for it.
pub proof fn lemma_app_calls(
    app: &mut App,
    press: KeyPress,
    env: &Environment,
    now: i64,
    ask: Ask,
    meaning: Result<ConnectParams, String>,
    port: u16,
    local: u16,
    hosts: Vec<SshConfigHost>,
    begun: App,
    delta: isize,
)
    ensures
        ({
            let before = old(app)@;
            let after = final(app)@;
            &&& call_ensures(App::on_key, (app, press, env, now), ask) ==> (after, ask)
                == before.after_key(press, env@, now)
            &&& call_ensures(App::submit_resolved, (app, meaning, now), ()) ==> after
                == before.submitting(resolution(meaning), now)
            &&& call_ensures(App::add_tunnel_from_port, (app, port, local, now), ()) ==> after
                == before.adding_from_port(port, local, now)
            &&& call_ensures(App::fill_form_from_port, (app, port, local), ()) ==> after
                == before.filling_from_port(port, local)
            &&& call_ensures(App::open_connect_form, (app, hosts), ()) ==> {
                &&& after.mode == Mode::ConnectHost
                &&& after.status is None
                &&& after.form_connect == crate::forms::empty_connect_form(host_views(hosts@))
                &&& after == AppView {
                    mode: after.mode,
                    status: after.status,
                    form_connect: after.form_connect,
                    ..before
                }
            }
            &&& call_ensures(App::new, (hosts,), begun) ==> begun@ == crate::app::initial(
                host_views(hosts@),
            )
            &&& call_ensures(App::select_tunnel, (app, delta), ()) ==> after == before.selecting(
                delta as int,
            )
        }),
{
}

/// News is taken in, and requests are handed over, as they should be.
pub proof fn lemma_news_calls(
    app: &mut App,
    hosts: Vec<HostSummary>,
    ports: Vec<RemotePort>,
    reply: Option<Result<(), String>>,
    now: i64,
    commands: Vec<Command>,
    search: &mut PortSearch,
    start: u16,
    begun: PortSearch,
    free: bool,
    found: bool,
)
    ensures
        ({
            let before = old(app)@;
            let after = final(app)@;
            &&& call_ensures(App::on_state, (app, hosts), ()) ==> after == before.with_hosts(
                summary_views(hosts@),
            )
            &&& call_ensures(App::on_ports, (app, ports), ()) ==> after == before.with_ports(
                port_views(ports@),
            )
            &&& call_ensures(App::on_reply, (app, reply, now), ()) ==> after == before.with_reply(
                reply_value(reply),
                now,
            )
            &&& call_ensures(App::on_manager_gone, (app,), ()) ==> after == AppView {
                status: Some(("后台任务已退出"@, true)),
                ..before
            }
            &&& call_ensures(App::take_commands, (app,), commands) ==> {
                &&& commands@.len() == before.pending_cmds.len()
                &&& forall|i: int|
                    0 <= i < commands@.len() ==> (#[trigger] commands@[i])@
                        == before.pending_cmds[i]
                &&& after == AppView { pending_cmds: Seq::empty(), ..before }
            }
            &&& call_ensures(PortSearch::new, (start,), begun) ==> begun.local == start
            &&& call_ensures(PortSearch::on_probe, (search, free), found) ==> {
                &&& found == (free || old(search).local == 65535)
                &&& found ==> final(search).local == old(search).local
                &&& !found ==> final(search).local == old(search).local + 1
            }
        }),
{
    if call_ensures(App::take_commands, (app,), commands) {
        let views = crate::commands::command_views(commands@);
        assert(views == old(app)@.pending_cmds);
        assert forall|i: int| 0 <= i < commands@.len() implies (#[trigger] commands@[i])@
            == old(app)@.pending_cmds[i] by {
            assert(views[i] == commands@[i]@);
        }
    }
}

/// The forms open and are read as they should be.
pub proof fn lemma_form_calls(
    host: &mut FormConnectHost,
    key: Key,
    auth: Option<AuthMethod>,
    hosts: Vec<SshConfigHost>,
    begun: FormConnectHost,
    tunnel: &FormTunnel,
    session_id: String,
    opened: FormTunnel,
    r: Result<(u16, String, u32), String>,
)
    ensures
        call_ensures(FormConnectHost::on_key, (host, key), ()) ==> final(host)@
            == old(host)@.after_key(key),
        call_ensures(FormConnectHost::auth, (&*old(host),), auth) ==> match (
            auth,
            old(host)@.auth(),
        ) {
            (Some(auth), Some(expected)) => auth@ == expected,
            (None, None) => true,
            _ => false,
        },
        call_ensures(FormConnectHost::new, (hosts,), begun) ==> begun@
            == crate::forms::empty_connect_form(host_views(hosts@)),
        call_ensures(FormTunnel::new, (session_id,), opened) ==> opened@.session_id == session_id@
            && opened@.local_port.len() == 0 && opened@.remote.len() == 0,
        call_ensures(FormTunnel::parse, (tunnel,), r) ==> match (r, tunnel@.parsed()) {
            (Ok((local, host, port)), Ok((l, h, p))) => local == l && host@ == h && port == p,
            (Err(message), Err(expected)) => message@ == expected,
            _ => false,
        },
{
}

/// What is drawn, written and summed up is what should be.
pub proof fn lemma_drawing_calls(
    app: &App,
    backdrop: Backdrop,
    popup: Popup,
    bytes: u64,
    text: String,
    width: u16,
    height: u16,
    area: Area,
    r: Area,
    params: &ConnectParams,
    status: ConnectionStatus,
    tunnels: Vec<TunnelInfo>,
    summary: HostSummary,
)
    ensures
        call_ensures(App::draw_backdrop, (app,), backdrop) ==> backdrop@ == app@.backdrop(),
        call_ensures(App::draw_popup, (app,), popup) ==> popup@ == app@.popup(),
        call_ensures(fmt_bytes, (bytes,), text) ==> text@ == amount(bytes, ""@),
        call_ensures(fmt_rate, (bytes,), text) ==> text@ == amount(bytes, "/s"@),
        call_ensures(centered_rect, (width, height, area), r) ==> {
            &&& width + 2 <= area.width ==> r.width == width
            &&& width + 2 > area.width >= 2 ==> r.width == area.width - 2
            &&& height + 2 <= area.height ==> r.height == height
            &&& height + 2 > area.height >= 2 ==> r.height == area.height - 2
            &&& 0 <= (area.width - r.width) - 2 * (r.x - area.x) <= 1
            &&& 0 <= (area.height - r.height) - 2 * (r.y - area.y) <= 1
        },
        call_ensures(summarize, (params, status, tunnels), summary) ==> summary@ == summarized(
            params@,
            status,
            info_views(tunnels@),
        ),
{
}

} // verus!
