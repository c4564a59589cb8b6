//! What each request does to the hosts, and what is kept of them.

use vstd::prelude::*;

use crate::commands::alters_config;
use crate::commands::Action;
use crate::commands::CommandView;
use crate::commands::Need;
use crate::config::SavedHostView;
use crate::config::SavedTunnelView;
use crate::login::reply_view;
use crate::manager::holder_of;
use crate::manager::lemma_holder_bounds;
use crate::manager::lemma_place_bounds;
use crate::manager::place_of;
use crate::manager::saved_tunnels;
use crate::manager::serial_place;
use crate::manager::verdict;
use crate::manager::BindView;
use crate::manager::ManagerView;
use crate::news::reply_value;
use crate::port_map::lemma_ports_below;
use crate::service::Phase;
use crate::service::ReplyView;
use crate::service::ServiceView;
use crate::service::TrialView;
use crate::session::connected_session;
use crate::session::disconnected_session;
use crate::session::listing;
use crate::session::ConnectionStatus;
use crate::session::Progress;
use crate::session::SessionView;
use crate::target::auth_view;
use crate::target::resolution;
use crate::target::settings_view;
use crate::target::ConnectParamsView;
use crate::text::dec;
use crate::tunnel::Rate;
use crate::tunnel::TrafficView;
use crate::tunnel::TunnelView;

verus! {

// ---------- Finding ----------

/// Whether the session at that place is the first of that name.
pub open spec fn found_at(m: ManagerView, i: int, id: Seq<char>) -> bool {
    &&& 0 <= i < m.sessions.len()
    &&& m.sessions[i].params.display_name() == id
    &&& forall|k: int|
        0 <= k < i ==> (#[trigger] m.sessions[k]).params.display_name() != id
}

/// Whether there is no session of that name.
pub open spec fn nowhere(m: ManagerView, id: Seq<char>) -> bool {
    forall|k: int|
        0 <= k < m.sessions.len() ==> (#[trigger] m.sessions[k]).params.display_name() != id
}

/// Whether the session at that place is the first with a tunnel on that port.
pub open spec fn held_at(m: ManagerView, i: int, port: u16) -> bool {
    &&& 0 <= i < m.sessions.len()
    &&& m.sessions[i].tunnels.contains_key(port)
    &&& forall|k: int| 0 <= k < i ==> !(#[trigger] m.sessions[k]).tunnels.contains_key(port)
}

/// Whether no session has a tunnel on that port.
pub open spec fn unheld(m: ManagerView, port: u16) -> bool {
    forall|k: int|
        0 <= k < m.sessions.len() ==> !(#[trigger] m.sessions[k]).tunnels.contains_key(port)
}

proof fn lemma_found(m: ManagerView, i: int, id: Seq<char>)
    ensures
        found_at(m, i, id) ==> m.has(id) && place_of(m.sessions, id) == i && m.session(id)
            == m.sessions[i],
        nowhere(m, id) ==> !m.has(id),
{
    lemma_place_bounds(m.sessions, id);
    let k = place_of(m.sessions, id);
    if found_at(m, i, id) {
        if k < i {
            assert(m.sessions[k].name() == id);
        } else if k > i {
            assert(m.sessions[i].name() != id);
        }
    }
    if nowhere(m, id) && m.has(id) {
        assert(m.sessions[k].name() == id);
    }
}

proof fn lemma_held(m: ManagerView, i: int, port: u16)
    ensures
        held_at(m, i, port) ==> holder_of(m.sessions, port) == i,
        unheld(m, port) ==> holder_of(m.sessions, port) == m.sessions.len(),
{
    lemma_holder_bounds(m.sessions, port);
    let k = holder_of(m.sessions, port);
    if held_at(m, i, port) {
        if k < i {
            assert(m.sessions[k].tunnels.contains_key(port));
        } else if k > i {
            assert(!m.sessions[i].tunnels.contains_key(port));
        }
    }
    if unheld(m, port) && k < m.sessions.len() {
        assert(m.sessions[k].tunnels.contains_key(port));
    }
}

/// A request that comes out as told, and changes nothing.
pub open spec fn refused(
    m: ManagerView,
    r: (ManagerView, Result<(), Seq<char>>),
    message: Seq<char>,
) -> bool {
    r.0 == m && r.1 == Err::<(), Seq<char>>(message)
}

/// A request that goes well, and changes the session at that place and nothing else.
pub open spec fn changed(
    m: ManagerView,
    r: (ManagerView, Result<(), Seq<char>>),
    i: int,
    session: SessionView,
) -> bool {
    &&& r.1 == Ok::<(), Seq<char>>(())
    &&& r.0.config_path == m.config_path
    &&& r.0.sessions.len() == m.sessions.len()
    &&& r.0.sessions[i] == session
    &&& forall|k: int|
        0 <= k < m.sessions.len() && k != i ==> #[trigger] r.0.sessions[k] == m.sessions[k]
}

/// A name in brackets, as messages have it.
pub open spec fn bracketed(id: Seq<char>) -> Seq<char> {
    "主机 ["@ + id + "] "@
}

proof fn lemma_messages(id: Seq<char>)
    ensures
        "主机 ["@ + id + "] 已经连接，请勿重复连接"@ == bracketed(id) + "已经连接，请勿重复连接"@,
        "主机 ["@ + id + "] 未找到"@ == bracketed(id) + "未找到"@,
        "主机 ["@ + id + "] 未连接"@ == bracketed(id) + "未连接"@,
{
    reveal_strlit("] ");
    reveal_strlit("] 已经连接，请勿重复连接");
    reveal_strlit("已经连接，请勿重复连接");
    reveal_strlit("] 未找到");
    reveal_strlit("未找到");
    reveal_strlit("] 未连接");
    reveal_strlit("未连接");
    assert("] 已经连接，请勿重复连接"@ =~= "] "@ + "已经连接，请勿重复连接"@);
    assert("] 未找到"@ =~= "] "@ + "未找到"@);
    assert("] 未连接"@ =~= "] "@ + "未连接"@);
    assert("主机 ["@ + id + ("] "@ + "已经连接，请勿重复连接"@) =~= bracketed(id)
        + "已经连接，请勿重复连接"@);
    assert("主机 ["@ + id + ("] "@ + "未找到"@) =~= bracketed(id) + "未找到"@);
    assert("主机 ["@ + id + ("] "@ + "未连接"@) =~= bracketed(id) + "未连接"@);
}

// ---------- Hosts ----------

/// A host is added behind the others where there is none of its name and it could be
/// connected. Otherwise nothing changes, and it is said that it is there already, or why it
/// could not be connected.
pub proof fn lemma_connect(
    m: ManagerView,
    params: ConnectParamsView,
    serial: u64,
    outcome: Result<(), Seq<char>>,
    now: i64,
    i: int,
)
    ensures
        ({
            let command = CommandView::ConnectHost { params };
            let r = m.executing(command, serial, outcome, now);
            let id = params.display_name();
            &&& found_at(m, i, id) ==> refused(
                m,
                r,
                bracketed(id) + "已经连接，请勿重复连接"@,
            )
            &&& nowhere(m, id) && outcome is Err ==> refused(m, r, outcome->Err_0)
            &&& nowhere(m, id) && outcome is Ok ==> {
                &&& r.1 is Ok
                &&& r.0.config_path == m.config_path
                &&& r.0.sessions == m.sessions.push(connected_session(serial, params, now))
            }
            &&& nowhere(m, id) ==> m.need(command) == Need::Connection
            &&& found_at(m, i, id) ==> m.need(command) == Need::Nothing
            &&& nowhere(m, id) && outcome is Ok ==> m.action(command, serial, outcome, now)
                == Action::KeepConnection(serial)
        }),
{
    lemma_found(m, i, params.display_name());
    lemma_messages(params.display_name());
}

/// A host is let go where it is there: the others stay, in their order, and what it had is to
/// be ended.
pub proof fn lemma_disconnect(
    m: ManagerView,
    id: Seq<char>,
    serial: u64,
    outcome: Result<(), Seq<char>>,
    now: i64,
    i: int,
)
    ensures
        ({
            let command = CommandView::DisconnectHost { session_id: id };
            let r = m.executing(command, serial, outcome, now);
            &&& nowhere(m, id) ==> refused(m, r, bracketed(id) + "未找到"@)
            &&& found_at(m, i, id) ==> {
                &&& r.1 is Ok
                &&& r.0.config_path == m.config_path
                &&& r.0.sessions == m.sessions.take(i) + m.sessions.skip(i + 1)
                &&& m.action(command, serial, outcome, now) == Action::EndSession(
                    m.sessions[i].serial,
                )
            }
            &&& m.need(command) == Need::Nothing
        }),
{
    lemma_found(m, i, id);
    lemma_messages(id);
    if found_at(m, i, id) {
        assert(m.sessions.remove(i) =~= m.sessions.take(i) + m.sessions.skip(i + 1));
    }
}

/// A new connection is begun for a host that is there, unless one is being made already.
pub proof fn lemma_reconnect(
    m: ManagerView,
    id: Seq<char>,
    serial: u64,
    outcome: Result<(), Seq<char>>,
    now: i64,
    i: int,
)
    ensures
        ({
            let command = CommandView::ReconnectHost { session_id: id };
            let r = m.executing(command, serial, outcome, now);
            let making = m.sessions[i].status is Reconnecting;
            &&& nowhere(m, id) ==> refused(m, r, bracketed(id) + "未连接"@)
            &&& found_at(m, i, id) && !making ==> {
                &&& changed(
                    m,
                    r,
                    i,
                    SessionView { status: ConnectionStatus::Reconnecting(0), ..m.sessions[i] },
                )
                &&& m.action(command, serial, outcome, now) == Action::Reconnect(
                    m.sessions[i].serial,
                )
            }
            &&& found_at(m, i, id) && making ==> {
                &&& r.1 is Ok
                &&& r.0 == m
                &&& m.action(command, serial, outcome, now) == Action::Nothing
            }
            &&& m.need(command) == Need::Nothing
        }),
{
    lemma_found(m, i, id);
    lemma_messages(id);
}

// ---------- Tunnels ----------

/// A tunnel is added to the host that is named where no host has one on that local port and
/// the port could be bound; it leads where it is said to. Otherwise nothing changes, and it is
/// said which host has the port, that there is no such host, or why the port could not be
/// bound.
pub proof fn lemma_add_tunnel(
    m: ManagerView,
    id: Seq<char>,
    port: u16,
    remote_host: Seq<char>,
    remote_port: u32,
    serial: u64,
    outcome: Result<(), Seq<char>>,
    now: i64,
    i: int,
    h: int,
)
    ensures
        ({
            let command = CommandView::AddTunnel {
                session_id: id,
                local_port: port,
                remote_host,
                remote_port,
            };
            let r = m.executing(command, serial, outcome, now);
            &&& held_at(m, h, port) ==> refused(
                m,
                r,
                "本地端口 "@ + dec(port as nat) + " 已被主机 ["@
                    + m.sessions[h].params.display_name() + "] 的隧道占用"@,
            )
            &&& unheld(m, port) && nowhere(m, id) ==> refused(m, r, bracketed(id) + "未连接"@)
            &&& unheld(m, port) && found_at(m, i, id) && outcome is Err ==> refused(
                m,
                r,
                "本地端口 "@ + dec(port as nat) + " 绑定失败："@ + outcome->Err_0,
            )
            &&& unheld(m, port) && found_at(m, i, id) && outcome is Ok ==> {
                &&& changed(
                    m,
                    r,
                    i,
                    m.sessions[i].with_running(serial, port, remote_host, remote_port),
                )
                &&& m.action(command, serial, outcome, now) == Action::Listen(
                    m.sessions[i].serial,
                    port,
                )
            }
            &&& unheld(m, port) && found_at(m, i, id) ==> m.need(command) == Need::Port(port)
            &&& unheld(m, port) && nowhere(m, id) ==> m.need(command) == Need::Nothing
            &&& held_at(m, h, port) ==> m.need(command) == Need::Nothing
        }),
{
    lemma_found(m, i, id);
    lemma_held(m, h, port);
    lemma_messages(id);
}

/// The tunnel of a host on a port is removed, where both are there; its listener is to be
/// stopped where it runs.
pub proof fn lemma_remove_tunnel(
    m: ManagerView,
    id: Seq<char>,
    port: u16,
    serial: u64,
    outcome: Result<(), Seq<char>>,
    now: i64,
    i: int,
)
    ensures
        ({
            let command = CommandView::RemoveTunnel { session_id: id, local_port: port };
            let r = m.executing(command, serial, outcome, now);
            let s = m.sessions[i];
            let there = s.tunnels.contains_key(port);
            &&& nowhere(m, id) ==> refused(m, r, bracketed(id) + "未连接"@)
            &&& found_at(m, i, id) && !there ==> refused(
                m,
                r,
                "隧道 "@ + dec(port as nat) + " 不存在"@,
            )
            &&& found_at(m, i, id) && there ==> {
                &&& changed(
                    m,
                    r,
                    i,
                    SessionView { tunnels: s.tunnels.remove(port), ..s },
                )
                &&& m.action(command, serial, outcome, now) == if s.tunnels[port].running {
                    Action::StopListening(s.serial, port)
                } else {
                    Action::Nothing
                }
            }
            &&& m.need(command) == Need::Nothing
        }),
{
    lemma_found(m, i, id);
    lemma_messages(id);
}

/// The tunnel of a host on a port is stopped, where it runs; its listener is to be stopped.
pub proof fn lemma_disable_tunnel(
    m: ManagerView,
    id: Seq<char>,
    port: u16,
    serial: u64,
    outcome: Result<(), Seq<char>>,
    now: i64,
    i: int,
)
    ensures
        ({
            let command = CommandView::DisableTunnel { session_id: id, local_port: port };
            let r = m.executing(command, serial, outcome, now);
            let s = m.sessions[i];
            let there = s.tunnels.contains_key(port);
            let runs = there && s.tunnels[port].running;
            &&& nowhere(m, id) ==> refused(m, r, bracketed(id) + "未连接"@)
            &&& found_at(m, i, id) && !there ==> refused(
                m,
                r,
                "隧道 "@ + dec(port as nat) + " 不存在"@,
            )
            &&& found_at(m, i, id) && there && !runs ==> refused(
                m,
                r,
                "隧道 "@ + dec(port as nat) + " 已经是停用状态"@,
            )
            &&& found_at(m, i, id) && runs ==> {
                &&& changed(
                    m,
                    r,
                    i,
                    SessionView {
                        tunnels: s.tunnels.insert(port, s.tunnels[port].stopped(port)),
                        ..s
                    },
                )
                &&& m.action(command, serial, outcome, now) == Action::StopListening(
                    s.serial,
                    port,
                )
            }
            &&& m.need(command) == Need::Nothing
        }),
{
    lemma_found(m, i, id);
    lemma_messages(id);
}

/// The tunnel of a host on a port is started, where it is stopped and the port could be bound;
/// it listens again.
pub proof fn lemma_enable_tunnel(
    m: ManagerView,
    id: Seq<char>,
    port: u16,
    serial: u64,
    outcome: Result<(), Seq<char>>,
    now: i64,
    i: int,
)
    ensures
        ({
            let command = CommandView::EnableTunnel { session_id: id, local_port: port };
            let r = m.executing(command, serial, outcome, now);
            let s = m.sessions[i];
            let there = s.tunnels.contains_key(port);
            let runs = there && s.tunnels[port].running;
            &&& nowhere(m, id) ==> refused(m, r, bracketed(id) + "未连接"@) && m.need(command)
                == Need::Nothing
            &&& found_at(m, i, id) && !there ==> refused(
                m,
                r,
                "隧道 "@ + dec(port as nat) + " 不存在"@,
            ) && m.need(command) == Need::Nothing
            &&& found_at(m, i, id) && runs ==> refused(
                m,
                r,
                "隧道 "@ + dec(port as nat) + " 已经在运行中"@,
            ) && m.need(command) == Need::Nothing
            &&& found_at(m, i, id) && there && !runs ==> m.need(command) == Need::Port(port)
            &&& found_at(m, i, id) && there && !runs && outcome is Err ==> refused(
                m,
                r,
                "本地端口 "@ + dec(port as nat) + " 绑定失败："@ + outcome->Err_0,
            )
            &&& found_at(m, i, id) && there && !runs && outcome is Ok ==> {
                &&& changed(
                    m,
                    r,
                    i,
                    SessionView {
                        tunnels: s.tunnels.insert(port, s.tunnels[port].started(port)),
                        ..s
                    },
                )
                &&& m.action(command, serial, outcome, now) == Action::Listen(s.serial, port)
            }
        }),
{
    lemma_found(m, i, id);
    lemma_messages(id);
}

/// To look for ports, and to quit, changes nothing; the host whose ports are looked for is
/// asked, where it is there.
pub proof fn lemma_scan_and_quit(
    m: ManagerView,
    id: Seq<char>,
    serial: u64,
    outcome: Result<(), Seq<char>>,
    now: i64,
    i: int,
)
    ensures
        ({
            let scan = CommandView::ScanPorts { session_id: id };
            &&& m.executing(scan, serial, outcome, now).0 == m
            &&& m.executing(CommandView::Quit, serial, outcome, now).0 == m
            &&& found_at(m, i, id) ==> m.need(scan) == Need::Listing(m.sessions[i].serial)
            &&& nowhere(m, id) ==> m.need(scan) == Need::Nothing
            &&& m.need(CommandView::Quit) == Need::Nothing
            &&& m.action(scan, serial, outcome, now) == Action::Nothing
            &&& m.action(CommandView::Quit, serial, outcome, now) == Action::Nothing
        }),
{
    lemma_found(m, i, id);
}

/// What is kept is written anew after a host or a tunnel was added, let go, started or
/// stopped, and after nothing else.
pub proof fn lemma_what_is_written(command: CommandView)
    ensures
        alters_config(command) <==> (command is ConnectHost || command is DisconnectHost
            || command is AddTunnel || command is RemoveTunnel || command is EnableTunnel
            || command is DisableTunnel),
{
}

// ---------- Answers ----------

/// A request but the last is answered with what it came to, and a look for ports with the
/// ports that were found, or none where the host is not there; the last one ends every
/// session, and keeps what there was before.
pub proof fn lemma_served(
    service: ServiceView,
    command: CommandView,
    trial: TrialView,
    i: int,
)
    requires
        command !is Quit,
    ensures
        ({
            let m = service.manager;
            let r = m.executing(command, trial.serial, trial.outcome, trial.now);
            let (after, served) = service.serving(Some(command), trial);
            &&& after.phase == Phase::Showing
            &&& after.manager == r.0
            &&& served is Answered
            &&& served->action == m.action(command, trial.serial, trial.outcome, trial.now)
            &&& served->save == (r.1 is Ok && alters_config(command))
            &&& command !is ScanPorts ==> served->reply == ReplyView::Done(r.1)
            &&& command is ScanPorts && found_at(m, i, command->ScanPorts_session_id)
                ==> served->reply == ReplyView::Ports(trial.ports)
            &&& command is ScanPorts && nowhere(m, command->ScanPorts_session_id)
                ==> served->reply == ReplyView::Ports(Seq::empty())
            &&& forall|last: Option<CommandView>|
                last is None || last->0 is Quit ==> {
                    let ended = #[trigger] service.serving(last, trial);
                    &&& ended.0.phase == Phase::Ended
                    &&& ended.0.manager.sessions.len() == 0
                    &&& ended.1 is Ended
                    &&& ended.1->keep == m.config()
                    &&& ended.1->close.len() == m.sessions.len()
                    &&& forall|k: int|
                        0 <= k < m.sessions.len() ==> #[trigger] ended.1->close[k]
                            == m.sessions[k].serial
                }
        }),
{
    if let CommandView::ScanPorts { session_id } = command {
        lemma_found(service.manager, i, session_id);
    }
}

// ---------- What is kept ----------

/// Whether a tunnel is kept as it is.
pub open spec fn keeps(kept: SavedTunnelView, tunnel: TunnelView) -> bool {
    &&& kept.remote_host == tunnel.remote_host
    &&& kept.remote_port == tunnel.remote_port
    &&& kept.enabled == tunnel.running
}

/// Every host is kept, in order, with its parameters and with all its tunnels by rising port,
/// each with where it leads and whether it runs.
pub proof fn lemma_kept(m: ManagerView, i: int)
    requires
        0 <= i < m.sessions.len(),
    ensures
        m.config().len() == m.sessions.len(),
        m.config()[i].params == m.sessions[i].params,
        ({
            let kept = m.config()[i].tunnels;
            let tunnels = m.sessions[i].tunnels;
            &&& forall|a: int, b: int|
                0 <= a < b < kept.len() ==> (#[trigger] kept[a]).local_port < (
                #[trigger] kept[b]).local_port
            &&& forall|k: int|
                0 <= k < kept.len() ==> tunnels.contains_key((#[trigger] kept[k]).local_port)
                    && keeps(kept[k], tunnels[kept[k].local_port])
            &&& forall|p: u16| #[trigger]
                tunnels.contains_key(p) ==> exists|k: int|
                    0 <= k < kept.len() && (#[trigger] kept[k]).local_port == p
        }),
{
    let tunnels = m.sessions[i].tunnels;
    let kept = m.config()[i].tunnels;
    assert(kept == saved_tunnels(tunnels));
    lemma_ports_below(tunnels.dom(), 65536);
    let ports = crate::port_map::ports_in(tunnels.dom());
    assert forall|k: int| 0 <= k < kept.len() implies tunnels.contains_key(
        (#[trigger] kept[k]).local_port,
    ) && keeps(kept[k], tunnels[kept[k].local_port]) by {
        assert(tunnels.dom().contains(ports[k]));
    }
    assert forall|p: u16| #[trigger] tunnels.contains_key(p) implies exists|k: int|
        0 <= k < kept.len() && (#[trigger] kept[k]).local_port == p by {
        assert(ports.contains(p));
        let k = choose|k: int| 0 <= k < ports.len() && ports[k] == p;
        assert(kept[k].local_port == p);
    }
}

/// A kept tunnel comes back where it led to. It runs where it did and its port could be bound;
/// where it could not, it is stopped, and its log says why.
pub proof fn lemma_comes_back(s: SessionView, kept: SavedTunnelView, bind: BindView)
    ensures
        ({
            let p = kept.local_port;
            let after = s.with_restored(kept, bind);
            let t = after.tunnels[p];
            let runs = kept.enabled && bind.bound is Ok;
            &&& after.tunnels.contains_key(p)
            &&& t.remote_host == kept.remote_host
            &&& t.remote_port == kept.remote_port
            &&& t.running == runs
            &&& t.serial == bind.serial
            &&& t.connections == 0 && t.rx_bytes == 0 && t.tx_bytes == 0
            &&& kept.enabled && bind.bound is Err ==> t.log.last() == "启动监听失败："@ + (
            "本地端口 "@ + dec(p as nat) + " 绑定失败："@ + bind.bound->Err_0)
                + "，已设为停用状态"@
            &&& after.tunnels.remove(p) == s.tunnels.remove(p)
            &&& after == SessionView { tunnels: after.tunnels, ..s }
        }),
{
    let p = kept.local_port;
    let after = s.with_restored(kept, bind);
    assert(after.tunnels.remove(p) =~= s.tunnels.remove(p));
    crate::tunnel_laws::lemma_logged(
        s.with_stopped(bind.serial, p, kept.remote_host, kept.remote_port).tunnels[p].log,
        "启动监听失败："@ + ("本地端口 "@ + dec(p as nat) + " 绑定失败："@
            + bind.bound->Err_0) + "，已设为停用状态"@,
    );
}

// ---------- News ----------

/// News of a session reaches the session that it is about, by its serial, and no other.
pub proof fn lemma_news_reaches(
    m: ManagerView,
    i: int,
    session: u64,
    port: u16,
    tunnel: u64,
    event: TrafficView,
    progress: Progress,
)
    requires
        0 <= i < m.sessions.len(),
        m.sessions[i].serial == session,
        forall|k: int| 0 <= k < i ==> (#[trigger] m.sessions[k]).serial != session,
    ensures
        m.after_traffic(session, port, tunnel, event).sessions == m.sessions.update(
            i,
            m.sessions[i].after_traffic(port, tunnel, event),
        ),
        m.after_progress(session, progress).sessions == m.sessions.update(
            i,
            m.sessions[i].after_progress(progress),
        ),
        m.after_traffic(session, port, tunnel, event).config_path == m.config_path,
        m.after_progress(session, progress).config_path == m.config_path,
{
    lemma_serial_found(m.sessions, session, i);
}

proof fn lemma_serial_found(sessions: Seq<SessionView>, serial: u64, n: int)
    requires
        0 <= n < sessions.len(),
        sessions[n].serial == serial,
        forall|k: int| 0 <= k < n ==> (#[trigger] sessions[k]).serial != serial,
    ensures
        serial_place(sessions, serial) == n,
    decreases n,
{
    if n > 0 {
        assert(sessions[0].serial != serial);
        let rest = sessions.drop_first();
        assert forall|k: int| 0 <= k < n - 1 implies (#[trigger] rest[k]).serial != serial by {
            assert(rest[k] == sessions[k + 1]);
        }
        lemma_serial_found(rest, serial, n - 1);
    }
}

// ---------- Bringing back ----------

/// A kept host comes back behind the others, with or without a connection, and is left as it
/// is where it is there already; for the former the ports are bound of those of its tunnels
/// that ran.
pub proof fn lemma_host_comes_back(
    m: ManagerView,
    serial: u64,
    saved: SavedHostView,
    outcome: Result<(), Seq<char>>,
    binds: Seq<BindView>,
    now: i64,
    i: int,
)
    requires
        binds.len() == saved.tunnels.len(),
    ensures
        ({
            let id = saved.params.display_name();
            let after = m.restoring_session(serial, saved, outcome, binds, now);
            let need = m.restore_need(saved);
            &&& found_at(m, i, id) ==> after == m && need is None
            &&& nowhere(m, id) ==> {
                let back = after.sessions.last();
                &&& after.config_path == m.config_path
                &&& after.sessions.len() == m.sessions.len() + 1
                &&& after.sessions.drop_last() == m.sessions
                &&& back.params == saved.params
                &&& back.serial == serial
                &&& back.connected == (outcome is Ok)
                &&& outcome is Ok ==> back.status == ConnectionStatus::Connected
                &&& outcome is Err ==> back.status == ConnectionStatus::Disconnected
                &&& need is Some && need->0.len() == saved.tunnels.len()
                &&& forall|k: int|
                    0 <= k < saved.tunnels.len() ==> #[trigger] need->0[k]
                        == saved.tunnels[k].enabled
            }
        }),
{
    let id = saved.params.display_name();
    lemma_found(m, i, id);
    let begun = match outcome {
        Ok(_) => connected_session(serial, saved.params, now),
        Err(_) => disconnected_session(serial, saved.params, now),
    };
    lemma_restoring_keeps(begun, saved.tunnels, binds, saved.tunnels.len() as int);
    if nowhere(m, id) {
        let after = m.restoring_session(serial, saved, outcome, binds, now);
        assert(after.sessions.drop_last() =~= m.sessions);
    }
}

proof fn lemma_restoring_keeps(
    s: SessionView,
    tunnels: Seq<SavedTunnelView>,
    binds: Seq<BindView>,
    n: int,
)
    ensures
        ({
            let after = s.with_all_restored(tunnels, binds, n);
            after == SessionView { tunnels: after.tunnels, ..s }
        }),
    decreases n,
{
    if n > 0 {
        lemma_restoring_keeps(s, tunnels, binds, n - 1);
    }
}

// ---------- Showing ----------

/// What is shown of the hosts is one summary for each, in order: its name, its parameters, the
/// state of its connection, and its tunnels with the rates that are given for them. Showing
/// them changes nothing but what the next rates are counted from.
pub proof fn lemma_hosts_shown(m: ManagerView, rates: Seq<Seq<Rate>>, now: i64, i: int)
    requires
        0 <= i < m.sessions.len(),
    ensures
        m.summaries(rates).len() == m.sessions.len(),
        m.summaries(rates)[i].id == m.sessions[i].params.display_name(),
        m.summaries(rates)[i].display_name == m.sessions[i].params.display_name(),
        m.summaries(rates)[i].params == m.sessions[i].params,
        m.summaries(rates)[i].status == m.sessions[i].status,
        m.summaries(rates)[i].tunnels == listing(m.sessions[i].tunnels, rates[i]),
        m.sampled(now).sessions.len() == m.sessions.len(),
        m.sampled(now).sessions[i] == m.sessions[i].sampled(now),
        m.sampled(now).config_path == m.config_path,
{
}

/// How something came out is passed on as it is.
pub proof fn lemma_outcomes(message: String)
    ensures
        verdict(Ok(())) == Ok::<(), Seq<char>>(()),
        verdict(Err(message)) == Err::<(), Seq<char>>(message@),
        reply_value(None) is None,
        reply_value(Some(Ok(()))) == Some(Ok::<(), Seq<char>>(())),
        reply_value(Some(Err(message))) == Some(Err::<(), Seq<char>>(message@)),
        reply_view(Ok(true)) == Ok::<bool, Seq<char>>(true),
        reply_view(Ok(false)) == Ok::<bool, Seq<char>>(false),
        reply_view(Err(message)) == Err::<bool, Seq<char>>(message@),
        resolution(Err(message)) == Err::<ConnectParamsView, Seq<char>>(message@),
        auth_view(None) is None,
        settings_view(None) is None,
{
}

} // verus!
