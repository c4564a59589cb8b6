//! What holds of the hosts whatever is asked of them.

use vstd::prelude::*;

use crate::commands::CommandView;
use crate::config::SavedHostView;
use crate::config::SavedTunnelView;
use crate::manager::already_connected;
use crate::manager::lemma_holder_bounds;
use crate::manager::lemma_place_bounds;
use crate::manager::place_of;
use crate::manager::restored;
use crate::manager::saved_tunnels;
use crate::manager::serial_place;
use crate::manager::BindView;
use crate::manager::ManagerView;
use crate::paths::FilePathView;
use crate::port_map::lemma_ports_below;
use crate::port_map::lemma_ports_unique;
use crate::session::connected_session;
use crate::session::disconnected_session;
use crate::session::Progress;
use crate::session::SessionView;
use crate::target::ConnectParamsView;
use crate::tunnel::TrafficView;
use crate::tunnel::TunnelView;

verus! {

// ---------- Refused requests ----------

/// A request that is refused changes nothing.
pub proof fn lemma_refused_changes_nothing(
    m: ManagerView,
    id: Seq<char>,
    serial: u64,
    params: ConnectParamsView,
    port: u16,
    remote_host: Seq<char>,
    remote_port: u32,
    outcome: Result<(), Seq<char>>,
    now: i64,
)
    ensures
        m.adding_session(serial, params, outcome, now).1 is Err ==> m.adding_session(
            serial,
            params,
            outcome,
            now,
        ).0 == m,
        m.removing_session(id).1 is Err ==> m.removing_session(id).0 == m,
        m.adding_tunnel(id, serial, port, remote_host, remote_port, outcome).1 is Err
            ==> m.adding_tunnel(id, serial, port, remote_host, remote_port, outcome).0 == m,
        m.removing_tunnel(id, port).1 is Err ==> m.removing_tunnel(id, port).0 == m,
        m.enabling_tunnel(id, port, outcome).1 is Err ==> m.enabling_tunnel(id, port, outcome).0
            == m,
        m.disabling_tunnel(id, port).1 is Err ==> m.disabling_tunnel(id, port).0 == m,
        m.reconnecting_session(id).1 is Err ==> m.reconnecting_session(id).0 == m,
{
}

// ---------- Names ----------

/// No two sessions share a name.
pub open spec fn distinct_names(m: ManagerView) -> bool {
    forall|i: int, j: int|
        0 <= i < j < m.sessions.len() ==> (#[trigger] m.sessions[i]).name() != (
        #[trigger] m.sessions[j]).name()
}

/// Replacing a session by one of the same name keeps the place of every name.
proof fn lemma_update_keeps_places(
    sessions: Seq<SessionView>,
    i: int,
    session: SessionView,
    id: Seq<char>,
)
    requires
        0 <= i < sessions.len(),
        session.name() == sessions[i].name(),
    ensures
        place_of(sessions.update(i, session), id) == place_of(sessions, id),
    decreases sessions.len(),
{
    let after = sessions.update(i, session);
    if sessions[0].name() != id {
        if i == 0 {
            assert(after.drop_first() =~= sessions.drop_first());
        } else {
            assert(after.drop_first() =~= sessions.drop_first().update(i - 1, session));
            lemma_update_keeps_places(sessions.drop_first(), i - 1, session, id);
        }
    }
}

/// Replacing the session of a name by one of the same name keeps names distinct.
proof fn lemma_update_keeps_names(m: ManagerView, id: Seq<char>, session: SessionView)
    requires
        distinct_names(m),
        m.has(id),
        session.name() == m.session(id).name(),
    ensures
        distinct_names(m.with_updated(id, session)),
{
    lemma_place_bounds(m.sessions, id);
    let k = place_of(m.sessions, id);
    let after = m.with_updated(id, session);
    assert forall|i: int, j: int| 0 <= i < j < after.sessions.len() implies (
    #[trigger] after.sessions[i]).name() != (#[trigger] after.sessions[j]).name() by {
        assert(after.sessions[i].name() == m.sessions[i].name());
        assert(after.sessions[j].name() == m.sessions[j].name());
    }
}

/// A name that is not there differs from every name that is.
proof fn lemma_absent(m: ManagerView, id: Seq<char>)
    requires
        !m.has(id),
    ensures
        forall|i: int| 0 <= i < m.sessions.len() ==> (#[trigger] m.sessions[i]).name() != id,
{
    lemma_place_bounds(m.sessions, id);
}

/// A session with all its kept tunnels back has the parameters that it began with.
proof fn lemma_restored_params(
    s: SessionView,
    tunnels: Seq<SavedTunnelView>,
    binds: Seq<BindView>,
    n: int,
)
    ensures
        s.with_all_restored(tunnels, binds, n).params == s.params,
    decreases n,
{
    if n > 0 {
        lemma_restored_params(s, tunnels, binds, n - 1);
    }
}

/// No request gives two sessions the same name.
pub proof fn lemma_names_stay_distinct(
    m: ManagerView,
    id: Seq<char>,
    serial: u64,
    params: ConnectParamsView,
    saved: SavedHostView,
    binds: Seq<BindView>,
    port: u16,
    remote_host: Seq<char>,
    remote_port: u32,
    outcome: Result<(), Seq<char>>,
    now: i64,
)
    requires
        distinct_names(m),
    ensures
        distinct_names(m.adding_session(serial, params, outcome, now).0),
        distinct_names(m.restoring_session(serial, saved, outcome, binds, now)),
        distinct_names(m.removing_session(id).0),
        distinct_names(m.adding_tunnel(id, serial, port, remote_host, remote_port, outcome).0),
        distinct_names(m.removing_tunnel(id, port).0),
        distinct_names(m.enabling_tunnel(id, port, outcome).0),
        distinct_names(m.disabling_tunnel(id, port).0),
        distinct_names(m.reconnecting_session(id).0),
{
    lemma_place_bounds(m.sessions, id);
    if !m.has(params.display_name()) {
        lemma_absent(m, params.display_name());
    }
    if !m.has(saved.params.display_name()) {
        lemma_absent(m, saved.params.display_name());
        let begun = match outcome {
            Ok(_) => connected_session(serial, saved.params, now),
            Err(_) => disconnected_session(serial, saved.params, now),
        };
        lemma_restored_params(begun, saved.tunnels, binds, saved.tunnels.len() as int);
    }
    if m.has(id) {
        let s = m.session(id);
        lemma_update_keeps_names(m, id, s.with_running(serial, port, remote_host, remote_port));
        lemma_update_keeps_names(m, id, s.without(port));
        lemma_update_keeps_names(m, id, s.with(port, s.tunnels[port].started(port)));
        lemma_update_keeps_names(m, id, s.with(port, s.tunnels[port].stopped(port)));
        lemma_update_keeps_names(m, id, s.reconnecting());
        let k = place_of(m.sessions, id);
        let after = m.removing_session(id).0;
        assert forall|i: int, j: int| 0 <= i < j < after.sessions.len() implies (
        #[trigger] after.sessions[i]).name() != (#[trigger] after.sessions[j]).name() by {
            let a = if i < k { i } else { i + 1 };
            let b = if j < k { j } else { j + 1 };
            assert(after.sessions[i] == m.sessions[a]);
            assert(after.sessions[j] == m.sessions[b]);
        }
    }
}

/// A host that was added is there, and is not added again.
pub proof fn lemma_added_once(
    m: ManagerView,
    serial: u64,
    params: ConnectParamsView,
    outcome: Result<(), Seq<char>>,
    now: i64,
    again: u64,
    again_outcome: Result<(), Seq<char>>,
    later: i64,
)
    requires
        m.adding_session(serial, params, outcome, now).1 is Ok,
    ensures
        ({
            let after = m.adding_session(serial, params, outcome, now).0;
            &&& after.has(params.display_name())
            &&& after.adding_session(again, params, again_outcome, later) == (
                after,
                Err::<(), Seq<char>>(already_connected(params.display_name())),
            )
        }),
{
    let after = m.adding_session(serial, params, outcome, now).0;
    lemma_place_bounds(after.sessions, params.display_name());
    assert(after.sessions.last().name() == params.display_name());
}

/// A host whose session has ended is not there any more.
pub proof fn lemma_removed_is_gone(m: ManagerView, id: Seq<char>)
    requires
        distinct_names(m),
        m.removing_session(id).1 is Ok,
    ensures
        !m.removing_session(id).0.has(id),
        m.removing_session(id).0.sessions.len() == m.sessions.len() - 1,
{
    let after = m.removing_session(id).0;
    let k = place_of(m.sessions, id);
    lemma_place_bounds(m.sessions, id);
    lemma_place_bounds(after.sessions, id);
    if after.has(id) {
        let i = place_of(after.sessions, id);
        let a = if i < k { i } else { i + 1 };
        assert(after.sessions[i] == m.sessions[a]);
        assert(m.sessions[k].name() == m.sessions[a].name());
        if a < k {
            assert(m.sessions[a].name() != m.sessions[k].name());
        } else {
            assert(m.sessions[k].name() != m.sessions[a].name());
        }
    }
}

// ---------- Local ports ----------

/// No two sessions have tunnels on the same local port.
pub open spec fn disjoint_ports(m: ManagerView) -> bool {
    forall|i: int, j: int, p: u16|
        0 <= i < j < m.sessions.len() ==> !(#[trigger] m.sessions[i].tunnels.contains_key(p)
            && #[trigger] m.sessions[j].tunnels.contains_key(p))
}

/// Replacing the session of a name by one with no more ports keeps ports disjoint.
proof fn lemma_update_keeps_ports(m: ManagerView, id: Seq<char>, session: SessionView)
    requires
        disjoint_ports(m),
        m.has(id),
        forall|p: u16| #[trigger]
            session.tunnels.contains_key(p) ==> m.session(id).tunnels.contains_key(p),
    ensures
        disjoint_ports(m.with_updated(id, session)),
{
    lemma_place_bounds(m.sessions, id);
    let k = place_of(m.sessions, id);
    let after = m.with_updated(id, session);
    assert forall|i: int, j: int, p: u16| 0 <= i < j < after.sessions.len() implies !(
    #[trigger] after.sessions[i].tunnels.contains_key(p)
        && #[trigger] after.sessions[j].tunnels.contains_key(p)) by {
        if after.sessions[i].tunnels.contains_key(p) && after.sessions[j].tunnels.contains_key(p) {
            assert(m.sessions[i].tunnels.contains_key(p));
            assert(m.sessions[j].tunnels.contains_key(p));
        }
    }
}

/// No request lets two tunnels share a local port, whichever hosts they belong to.
pub proof fn lemma_ports_stay_disjoint(
    m: ManagerView,
    id: Seq<char>,
    serial: u64,
    params: ConnectParamsView,
    port: u16,
    remote_host: Seq<char>,
    remote_port: u32,
    outcome: Result<(), Seq<char>>,
    now: i64,
)
    requires
        disjoint_ports(m),
    ensures
        disjoint_ports(m.adding_session(serial, params, outcome, now).0),
        disjoint_ports(m.removing_session(id).0),
        disjoint_ports(m.adding_tunnel(id, serial, port, remote_host, remote_port, outcome).0),
        disjoint_ports(m.removing_tunnel(id, port).0),
        disjoint_ports(m.enabling_tunnel(id, port, outcome).0),
        disjoint_ports(m.disabling_tunnel(id, port).0),
        disjoint_ports(m.reconnecting_session(id).0),
{
    lemma_place_bounds(m.sessions, id);
    lemma_holder_bounds(m.sessions, port);
    let begun = m.adding_session(serial, params, outcome, now).0;
    assert(disjoint_ports(begun)) by {
        assert forall|i: int, j: int, p: u16| 0 <= i < j < begun.sessions.len() implies !(
        #[trigger] begun.sessions[i].tunnels.contains_key(p)
            && #[trigger] begun.sessions[j].tunnels.contains_key(p)) by {
            if j < m.sessions.len() {
                assert(begun.sessions[i] == m.sessions[i]);
                assert(begun.sessions[j] == m.sessions[j]);
            }
        }
    }
    if m.has(id) {
        let s = m.session(id);
        let k = place_of(m.sessions, id);
        lemma_update_keeps_ports(m, id, s.without(port));
        lemma_update_keeps_ports(m, id, s.reconnecting());
        if s.tunnels.contains_key(port) {
            lemma_update_keeps_ports(m, id, s.with(port, s.tunnels[port].started(port)));
            lemma_update_keeps_ports(m, id, s.with(port, s.tunnels[port].stopped(port)));
        }
        let ended = m.removing_session(id).0;
        assert(disjoint_ports(ended)) by {
            assert forall|i: int, j: int, p: u16| 0 <= i < j < ended.sessions.len() implies !(
            #[trigger] ended.sessions[i].tunnels.contains_key(p)
                && #[trigger] ended.sessions[j].tunnels.contains_key(p)) by {
                let a = if i < k { i } else { i + 1 };
                let b = if j < k { j } else { j + 1 };
                assert(ended.sessions[i] == m.sessions[a]);
                assert(ended.sessions[j] == m.sessions[b]);
                assert(!(m.sessions[a].tunnels.contains_key(p) && m.sessions[b].tunnels.contains_key(
                    p,
                )));
            }
        }
        let added = m.adding_tunnel(id, serial, port, remote_host, remote_port, outcome).0;
        assert(disjoint_ports(added)) by {
            assert forall|i: int, j: int, p: u16| 0 <= i < j < added.sessions.len() implies !(
            #[trigger] added.sessions[i].tunnels.contains_key(p)
                && #[trigger] added.sessions[j].tunnels.contains_key(p)) by {
                if added.sessions[i].tunnels.contains_key(p)
                    && added.sessions[j].tunnels.contains_key(p) {
                    if p != port {
                        assert(m.sessions[i].tunnels.contains_key(p));
                        assert(m.sessions[j].tunnels.contains_key(p));
                    } else if added != m {
                        assert(!m.sessions[i].tunnels.contains_key(p));
                        assert(!m.sessions[j].tunnels.contains_key(p));
                    }
                }
            }
        }
    }
}

/// The names of the hosts are distinct and their local ports disjoint.
pub open spec fn in_order(m: ManagerView) -> bool {
    distinct_names(m) && disjoint_ports(m)
}

/// Where there are no hosts yet, they are in order.
pub proof fn lemma_order_begins(config_path: FilePathView)
    ensures
        in_order(ManagerView { sessions: Seq::empty(), config_path }),
{
}

/// Whatever is requested, the names of the hosts stay distinct and their local ports
/// disjoint.
pub proof fn lemma_requests_keep_order(
    m: ManagerView,
    command: CommandView,
    serial: u64,
    outcome: Result<(), Seq<char>>,
    now: i64,
)
    requires
        in_order(m),
    ensures
        in_order(m.executing(command, serial, outcome, now).0),
{
    let params = match command {
        CommandView::ConnectHost { params } => params,
        _ => arbitrary(),
    };
    let (id, port): (Seq<char>, u16) = match command {
        CommandView::DisconnectHost { session_id } => (session_id, 0),
        CommandView::ReconnectHost { session_id } => (session_id, 0),
        CommandView::AddTunnel { session_id, local_port, .. } => (session_id, local_port),
        CommandView::RemoveTunnel { session_id, local_port } => (session_id, local_port),
        CommandView::EnableTunnel { session_id, local_port } => (session_id, local_port),
        CommandView::DisableTunnel { session_id, local_port } => (session_id, local_port),
        _ => (Seq::empty(), 0),
    };
    let (host, remote): (Seq<char>, u32) = match command {
        CommandView::AddTunnel { remote_host, remote_port, .. } => (remote_host, remote_port),
        _ => (Seq::empty(), 0),
    };
    let saved = SavedHostView { params, tunnels: Seq::empty() };
    lemma_names_stay_distinct(
        m,
        id,
        serial,
        params,
        saved,
        Seq::empty(),
        port,
        host,
        remote,
        outcome,
        now,
    );
    lemma_ports_stay_disjoint(m, id, serial, params, port, host, remote, outcome, now);
}

/// Whether two sessions have the same name and tunnels on the same ports.
spec fn alike(a: SessionView, b: SessionView) -> bool {
    a.params == b.params && a.tunnels.dom() == b.tunnels.dom()
}

/// Hosts that are alike one by one are in order together.
proof fn lemma_alike_in_order(m: ManagerView, after: ManagerView)
    requires
        in_order(m),
        after.sessions.len() == m.sessions.len(),
        forall|i: int|
            0 <= i < m.sessions.len() ==> alike(#[trigger] after.sessions[i], m.sessions[i]),
    ensures
        in_order(after),
{
    assert forall|i: int, j: int| 0 <= i < j < after.sessions.len() implies (
    #[trigger] after.sessions[i]).name() != (#[trigger] after.sessions[j]).name() by {
        assert(alike(after.sessions[i], m.sessions[i]));
        assert(alike(after.sessions[j], m.sessions[j]));
    }
    assert forall|i: int, j: int, p: u16| 0 <= i < j < after.sessions.len() implies !(
    #[trigger] after.sessions[i].tunnels.contains_key(p)
        && #[trigger] after.sessions[j].tunnels.contains_key(p)) by {
        assert(alike(after.sessions[i], m.sessions[i]));
        assert(alike(after.sessions[j], m.sessions[j]));
        assert(!(m.sessions[i].tunnels.contains_key(p) && m.sessions[j].tunnels.contains_key(p)));
    }
}

/// Whatever is told of traffic and connections, and whenever the hosts are shown, their names
/// stay distinct and their local ports disjoint.
pub proof fn lemma_news_keeps_order(
    m: ManagerView,
    session: u64,
    port: u16,
    tunnel: u64,
    event: TrafficView,
    progress: Progress,
    now: i64,
)
    requires
        in_order(m),
    ensures
        in_order(m.after_traffic(session, port, tunnel, event)),
        in_order(m.after_progress(session, progress)),
        in_order(m.sampled(now)),
{
    lemma_serial_place_low(m.sessions, session);
    let told = m.after_traffic(session, port, tunnel, event);
    assert forall|i: int| 0 <= i < m.sessions.len() implies alike(
        #[trigger] told.sessions[i],
        m.sessions[i],
    ) by {
        assert(told.sessions[i].tunnels.dom() =~= m.sessions[i].tunnels.dom());
    }
    lemma_alike_in_order(m, told);
    lemma_alike_in_order(m, m.after_progress(session, progress));
    lemma_alike_in_order(m, m.sampled(now));
}

proof fn lemma_serial_place_low(sessions: Seq<SessionView>, serial: u64)
    ensures
        0 <= serial_place(sessions, serial),
    decreases sessions.len(),
{
    if sessions.len() > 0 {
        lemma_serial_place_low(sessions.drop_first(), serial);
    }
}

/// Removing a tunnel that was just added leaves the hosts as they were.
pub proof fn lemma_remove_undoes_add(
    m: ManagerView,
    id: Seq<char>,
    serial: u64,
    port: u16,
    remote_host: Seq<char>,
    remote_port: u32,
    bound: Result<(), Seq<char>>,
)
    requires
        m.adding_tunnel(id, serial, port, remote_host, remote_port, bound).1 is Ok,
    ensures
        m.adding_tunnel(
            id,
            serial,
            port,
            remote_host,
            remote_port,
            bound,
        ).0.removing_tunnel(id, port) == (m, Ok::<(), Seq<char>>(())),
{
    lemma_place_bounds(m.sessions, id);
    lemma_holder_bounds(m.sessions, port);
    let k = place_of(m.sessions, id);
    let before = m.sessions[k];
    let grown = before.with_running(serial, port, remote_host, remote_port);
    let added = m.adding_tunnel(id, serial, port, remote_host, remote_port, bound).0;
    lemma_update_keeps_places(m.sessions, k, grown, id);
    assert(added.session(id) == grown);
    assert(!before.tunnels.contains_key(port));
    assert(grown.tunnels.remove(port) =~= before.tunnels);
    assert(grown.without(port) == before);
    assert(added.sessions.update(k, before) =~= m.sessions);
}

// ---------- What is kept comes back ----------

/// The ports of kept tunnels rise.
pub open spec fn rising_ports(tunnels: Seq<SavedTunnelView>) -> bool {
    forall|i: int, j: int|
        0 <= i < j < tunnels.len() ==> (#[trigger] tunnels[i]).local_port < (
        #[trigger] tunnels[j]).local_port
}

/// What is kept of a session lists its tunnels by rising port.
pub proof fn lemma_saved_ports_rise(s: SessionView)
    ensures
        rising_ports(s.saved().tunnels),
{
    lemma_ports_below(s.tunnels.dom(), 65536);
}

/// Kept tunnels of which those run whose port could be bound.
pub open spec fn as_bound(tunnels: Seq<SavedTunnelView>, binds: Seq<BindView>) -> Seq<
    SavedTunnelView,
> {
    Seq::new(
        tunnels.len(),
        |i: int|
            SavedTunnelView { enabled: tunnels[i].enabled && binds[i].bound is Ok, ..tunnels[i] },
    )
}

/// Whether the tunnel on the port of the kept tunnel `i` is what came back of it: to the same
/// target, and running where it was kept as such and its port could be bound.
pub open spec fn came_back(
    tunnels: Map<u16, TunnelView>,
    saved: Seq<SavedTunnelView>,
    binds: Seq<BindView>,
    i: int,
) -> bool {
    let port = saved[i].local_port;
    tunnels.contains_key(port) && tunnels[port].saved(port) == as_bound(saved, binds)[i]
}

/// Whether none of the first `n` kept tunnels behind the tunnel `i` has its port.
pub open spec fn last_on_port(saved: Seq<SavedTunnelView>, i: int, n: int) -> bool {
    forall|j: int| i < j < n ==> (#[trigger] saved[j]).local_port != saved[i].local_port
}

proof fn lemma_restored_tunnels(
    s: SessionView,
    saved: Seq<SavedTunnelView>,
    binds: Seq<BindView>,
    n: int,
)
    requires
        0 <= n <= saved.len(),
        saved.len() == binds.len(),
        s.tunnels == Map::<u16, TunnelView>::empty(),
    ensures
        forall|i: int|
            0 <= i < n && last_on_port(saved, i, n) ==> #[trigger] came_back(
                s.with_all_restored(saved, binds, n).tunnels,
                saved,
                binds,
                i,
            ),
        forall|p: u16| #[trigger]
            s.with_all_restored(saved, binds, n).tunnels.contains_key(p) ==> exists|i: int|
                0 <= i < n && (#[trigger] saved[i]).local_port == p,
    decreases n,
{
    if n > 0 {
        lemma_restored_tunnels(s, saved, binds, n - 1);
        let before = s.with_all_restored(saved, binds, n - 1);
        let after = s.with_all_restored(saved, binds, n);
        assert forall|i: int| 0 <= i < n && last_on_port(saved, i, n) implies #[trigger] came_back(
            after.tunnels,
            saved,
            binds,
            i,
        ) by {
            if i < n - 1 {
                assert(last_on_port(saved, i, n - 1));
                assert(came_back(before.tunnels, saved, binds, i));
                assert(saved[n - 1].local_port != saved[i].local_port);
            }
        }
        assert forall|p: u16| #[trigger] after.tunnels.contains_key(p) implies exists|i: int|
            0 <= i < n && (#[trigger] saved[i]).local_port == p by {
            if p == saved[n - 1].local_port {
                assert(saved[n - 1].local_port == p);
            } else {
                assert(before.tunnels.contains_key(p));
            }
        }
    }
}

/// The session that a kept host begins with.
spec fn begun_for(
    serial: u64,
    saved: SavedHostView,
    outcome: Result<(), Seq<char>>,
    now: i64,
) -> SessionView {
    match outcome {
        Ok(_) => connected_session(serial, saved.params, now),
        Err(_) => disconnected_session(serial, saved.params, now),
    }
}

/// A host that is brought back has each of its kept tunnels again, whatever their order: to
/// the same target, running where it was and its port could be bound; and no others. Of kept
/// tunnels that share a port the last one is there. Whether the host could be connected plays
/// no part.
pub proof fn lemma_kept_tunnels_come_back(
    serial: u64,
    saved: SavedHostView,
    outcome: Result<(), Seq<char>>,
    binds: Seq<BindView>,
    now: i64,
)
    requires
        binds.len() == saved.tunnels.len(),
    ensures
        ({
            let back = restored(serial, saved, outcome, binds, now);
            &&& back.params == saved.params
            &&& forall|i: int|
                0 <= i < saved.tunnels.len() && last_on_port(
                    saved.tunnels,
                    i,
                    saved.tunnels.len() as int,
                ) ==> #[trigger] came_back(back.tunnels, saved.tunnels, binds, i)
            &&& forall|p: u16| #[trigger]
                back.tunnels.contains_key(p) ==> exists|i: int|
                    0 <= i < saved.tunnels.len() && (#[trigger] saved.tunnels[i]).local_port == p
        }),
{
    let begun = begun_for(serial, saved, outcome, now);
    let n = saved.tunnels.len() as int;
    lemma_restored_params(begun, saved.tunnels, binds, n);
    lemma_restored_tunnels(begun, saved.tunnels, binds, n);
}

/// A host that is brought back, whose tunnels are kept by rising port as hosts are kept, is
/// kept as it was, but that the tunnels whose port could not be bound are kept as stopped.
/// Whether the host could be connected plays no part.
pub proof fn lemma_restored_is_kept(
    serial: u64,
    saved: SavedHostView,
    outcome: Result<(), Seq<char>>,
    binds: Seq<BindView>,
    now: i64,
)
    requires
        rising_ports(saved.tunnels),
        binds.len() == saved.tunnels.len(),
    ensures
        restored(serial, saved, outcome, binds, now).saved() == (SavedHostView {
            tunnels: as_bound(saved.tunnels, binds),
            ..saved
        }),
{
    let begun = begun_for(serial, saved, outcome, now);
    let n = saved.tunnels.len() as int;
    let after = begun.with_all_restored(saved.tunnels, binds, n);
    lemma_restored_params(begun, saved.tunnels, binds, n);
    lemma_restored_tunnels(begun, saved.tunnels, binds, n);
    assert forall|i: int| 0 <= i < n implies last_on_port(saved.tunnels, i, n) by {}
    let ports = Seq::new(saved.tunnels.len(), |i: int| saved.tunnels[i].local_port);
    let set = after.tunnels.dom();
    assert forall|i: int| 0 <= i < ports.len() implies set.contains(#[trigger] ports[i]) by {
        assert(came_back(after.tunnels, saved.tunnels, binds, i));
    }
    assert forall|p: u16| set.contains(p) implies #[trigger] ports.contains(p) by {
        assert(after.tunnels.contains_key(p));
        let i = choose|i: int| 0 <= i < n && (#[trigger] saved.tunnels[i]).local_port == p;
        assert(ports[i] == p);
    }
    lemma_ports_unique(set, ports);
    assert forall|i: int| 0 <= i < n implies saved_tunnels(after.tunnels)[i] == as_bound(
        saved.tunnels,
        binds,
    )[i] by {
        assert(came_back(after.tunnels, saved.tunnels, binds, i));
    }
    assert(saved_tunnels(after.tunnels) =~= as_bound(saved.tunnels, binds));
}

/// How the kept hosts come back: serial, connection, bound ports and moment of each.
pub struct Comeback {
    pub serial: u64,
    pub outcome: Result<(), Seq<char>>,
    pub binds: Seq<BindView>,
    pub now: i64,
}

/// The first `n` kept hosts brought back one after the other, where there were none.
pub open spec fn restored_hosts(
    config_path: FilePathView,
    kept: Seq<SavedHostView>,
    comebacks: Seq<Comeback>,
    n: int,
) -> ManagerView
    decreases n,
{
    if n <= 0 {
        ManagerView { sessions: Seq::empty(), config_path }
    } else {
        restored_hosts(config_path, kept, comebacks, n - 1).restoring_session(
            comebacks[n - 1].serial,
            kept[n - 1],
            comebacks[n - 1].outcome,
            comebacks[n - 1].binds,
            comebacks[n - 1].now,
        )
    }
}

/// Whether every running tunnel of a kept host could bind its port.
pub open spec fn all_bound(host: SavedHostView, binds: Seq<BindView>) -> bool {
    &&& binds.len() == host.tunnels.len()
    &&& forall|i: int|
        0 <= i < binds.len() && (#[trigger] host.tunnels[i]).enabled ==> binds[i].bound is Ok
}

proof fn lemma_hosts_come_back(
    m: ManagerView,
    config_path: FilePathView,
    comebacks: Seq<Comeback>,
    n: int,
)
    requires
        distinct_names(m),
        0 <= n <= m.sessions.len(),
        comebacks.len() == m.sessions.len(),
        forall|i: int|
            0 <= i < m.sessions.len() ==> all_bound(
                #[trigger] m.config()[i],
                comebacks[i].binds,
            ),
    ensures
        restored_hosts(config_path, m.config(), comebacks, n).sessions.len() == n,
        forall|i: int|
            0 <= i < n ==> (#[trigger] restored_hosts(
                config_path,
                m.config(),
                comebacks,
                n,
            ).sessions[i]).saved() == m.config()[i],
    decreases n,
{
    if n > 0 {
        lemma_hosts_come_back(m, config_path, comebacks, n - 1);
        let before = restored_hosts(config_path, m.config(), comebacks, n - 1);
        let after = restored_hosts(config_path, m.config(), comebacks, n);
        let host = m.config()[n - 1];
        let c = comebacks[n - 1];
        let id = host.params.display_name();
        lemma_place_bounds(before.sessions, id);
        if before.has(id) {
            let i = place_of(before.sessions, id);
            assert(before.sessions[i].saved() == m.config()[i]);
            assert(m.sessions[i].name() == m.sessions[n - 1].name());
        }
        assert(!before.has(id));
        assert(all_bound(host, c.binds));
        lemma_saved_ports_rise(m.sessions[n - 1]);
        lemma_restored_is_kept(c.serial, host, c.outcome, c.binds, c.now);
        assert(as_bound(host.tunnels, c.binds) =~= host.tunnels);
        assert forall|i: int| 0 <= i < n implies (#[trigger] after.sessions[i]).saved()
            == m.config()[i] by {
            if i < n - 1 {
                assert(after.sessions[i] == before.sessions[i]);
            }
        }
    }
}

/// What is kept of the hosts, brought back where there were none, is kept as it was, where
/// every running tunnel can bind its port.
pub proof fn lemma_config_round_trip(
    m: ManagerView,
    config_path: FilePathView,
    comebacks: Seq<Comeback>,
)
    requires
        distinct_names(m),
        comebacks.len() == m.sessions.len(),
        forall|i: int|
            0 <= i < m.sessions.len() ==> all_bound(
                #[trigger] m.config()[i],
                comebacks[i].binds,
            ),
    ensures
        restored_hosts(
            config_path,
            m.config(),
            comebacks,
            m.sessions.len() as int,
        ).config() == m.config(),
{
    let n = m.sessions.len() as int;
    lemma_hosts_come_back(m, config_path, comebacks, n);
    let after = restored_hosts(config_path, m.config(), comebacks, n);
    assert forall|i: int| 0 <= i < n implies after.config()[i] == m.config()[i] by {
        assert(after.sessions[i].saved() == m.config()[i]);
    }
    assert(after.config() =~= m.config());
}

} // verus!
