//! One host and its tunnels: the state of the connection, and what each request does.
//!
//! Moments are nanoseconds on a clock that the program reads; only their differences count.

use std::collections::BTreeMap;

use vstd::prelude::*;

use crate::port_map::lemma_ports_below;
use crate::port_map::port_list;
use crate::port_map::ports_below;
use crate::port_map::ports_in;
use crate::target::ConnectParams;
use crate::target::ConnectParamsView;
use crate::tunnel::already_running;
use crate::tunnel::already_stopped;
use crate::tunnel::bind_failed;
use crate::tunnel::fresh_tunnel;
use crate::tunnel::info_views;
use crate::tunnel::no_tunnel;
use crate::tunnel::route;
use crate::tunnel::write_bind_failed;
use crate::tunnel::write_numbered;
use crate::tunnel::write_route;
use crate::tunnel::Rate;
use crate::tunnel::Traffic;
use crate::tunnel::TrafficView;
use crate::tunnel::TunnelEntry;
use crate::tunnel::TunnelInfo;
use crate::tunnel::TunnelInfoView;
use crate::tunnel::TunnelView;

verus! {

/// How long a connection is left alone before it is probed.
pub const KEEPALIVE_NANOS: i64 = 30_000_000_000;

/// How long the answer to a probe is waited for.
pub const PING_TIMEOUT_SECS: u64 = 10;

/// How often a lost connection is tried again.
pub const RECONNECT_ATTEMPTS: usize = 5;

/// The state of a connection.
#[derive(Clone, Copy, PartialEq, Eq, Debug, Structural)]
pub enum ConnectionStatus {
    Connected,
    /// A new connection is being made; the number of the attempt.
    Reconnecting(usize),
    Disconnected,
}

/// One host with its tunnels.
pub struct TunnelManager {
    /// Tells this session from all others, earlier ones too.
    pub serial: u64,
    pub params: ConnectParams,
    /// Whether there is an SSH connection, be it alive or not.
    pub connected: bool,
    pub tunnels: BTreeMap<u16, TunnelEntry>,
    pub status: ConnectionStatus,
    /// The traffic of each tunnel at the last snapshot.
    pub last_rx: BTreeMap<u16, u64>,
    pub last_tx: BTreeMap<u16, u64>,
    pub last_sample: i64,
    pub last_keepalive: i64,
}

/// A host with its tunnels, as a mathematical value.
#[verifier::ext_equal]
pub struct SessionView {
    pub serial: u64,
    pub params: ConnectParamsView,
    pub connected: bool,
    pub tunnels: Map<u16, TunnelView>,
    pub status: ConnectionStatus,
    pub last_rx: Map<u16, u64>,
    pub last_tx: Map<u16, u64>,
    pub last_sample: i64,
    pub last_keepalive: i64,
}

/// The values of a table of tunnels.
pub open spec fn tunnel_views(table: Map<u16, TunnelEntry>) -> Map<u16, TunnelView> {
    table.map_values(|t: TunnelEntry| t@)
}

impl View for TunnelManager {
    type V = SessionView;

    open spec fn view(&self) -> SessionView {
        SessionView {
            serial: self.serial,
            params: self.params@,
            connected: self.connected,
            tunnels: tunnel_views(self.tunnels@),
            status: self.status,
            last_rx: self.last_rx@,
            last_tx: self.last_tx@,
            last_sample: self.last_sample,
            last_keepalive: self.last_keepalive,
        }
    }
}

// ---------- Beginning ----------

/// A session right after its connection was made.
pub open spec fn connected_session(
    serial: u64,
    params: ConnectParamsView,
    now: i64,
) -> SessionView {
    SessionView {
        serial,
        params,
        connected: true,
        tunnels: Map::empty(),
        status: ConnectionStatus::Connected,
        last_rx: Map::empty(),
        last_tx: Map::empty(),
        last_sample: now,
        last_keepalive: now,
    }
}

/// A session that waits for its first connection. It counts as probed so long ago that the
/// next probe is due at once.
pub open spec fn disconnected_session(
    serial: u64,
    params: ConnectParamsView,
    now: i64,
) -> SessionView {
    SessionView {
        connected: false,
        status: ConnectionStatus::Disconnected,
        last_keepalive: if now - KEEPALIVE_NANOS >= i64::MIN {
            (now - KEEPALIVE_NANOS) as i64
        } else {
            now
        },
        ..connected_session(serial, params, now)
    }
}

impl TunnelManager {
    /// A session right after its connection was made, or the reason why none was made.
    pub fn connect(
        serial: u64,
        params: ConnectParams,
        outcome: Result<(), String>,
        now: i64,
    ) -> (r: Result<TunnelManager, String>)
        ensures
            match (r, outcome) {
                (Ok(session), Ok(_)) => session@ == connected_session(serial, params@, now),
                (Err(message), Err(error)) => message@ == error@,
                _ => false,
            },
    {
        match outcome {
            Ok(_) => {
                let session = TunnelManager {
                    serial,
                    params,
                    connected: true,
                    tunnels: BTreeMap::new(),
                    status: ConnectionStatus::Connected,
                    last_rx: BTreeMap::new(),
                    last_tx: BTreeMap::new(),
                    last_sample: now,
                    last_keepalive: now,
                };
                assert(session@.tunnels =~= Map::empty());
                Ok(session)
            },
            Err(error) => Err(error),
        }
    }

    /// A session that waits for its first connection.
    pub fn new_disconnected(serial: u64, params: ConnectParams, now: i64) -> (session:
        TunnelManager)
        ensures
            session@ == disconnected_session(serial, params@, now),
    {
        let last_keepalive: i64 = match now.checked_sub(KEEPALIVE_NANOS) {
            Some(moment) => moment,
            None => now,
        };
        let session = TunnelManager {
            serial,
            params,
            connected: false,
            tunnels: BTreeMap::new(),
            status: ConnectionStatus::Disconnected,
            last_rx: BTreeMap::new(),
            last_tx: BTreeMap::new(),
            last_sample: now,
            last_keepalive,
        };
        assert(session@.tunnels =~= Map::empty());
        session
    }
}

// ---------- Tunnels ----------

impl SessionView {
    /// The session with `tunnel` on `port`.
    pub open spec fn with(self, port: u16, tunnel: TunnelView) -> SessionView {
        SessionView { tunnels: self.tunnels.insert(port, tunnel), ..self }
    }

    /// The session without a tunnel on `port`.
    pub open spec fn without(self, port: u16) -> SessionView {
        SessionView { tunnels: self.tunnels.remove(port), ..self }
    }

    /// The session with a new tunnel that is stopped.
    pub open spec fn with_stopped(
        self,
        serial: u64,
        port: u16,
        remote_host: Seq<char>,
        remote_port: u32,
    ) -> SessionView {
        self.with(
            port,
            fresh_tunnel(
                serial,
                remote_host,
                remote_port,
                false,
                "隧道已加载（停用状态）："@ + route(port, remote_host, remote_port),
            ),
        )
    }

    /// The session with a new tunnel that runs.
    pub open spec fn with_running(
        self,
        serial: u64,
        port: u16,
        remote_host: Seq<char>,
        remote_port: u32,
    ) -> SessionView {
        self.with(
            port,
            fresh_tunnel(
                serial,
                remote_host,
                remote_port,
                true,
                "隧道已创建："@ + route(port, remote_host, remote_port),
            ),
        )
    }

    /// Why the tunnel of a port cannot be removed.
    pub open spec fn remove_refusal(self, port: u16) -> Option<Seq<char>> {
        if self.tunnels.contains_key(port) {
            None
        } else {
            Some(no_tunnel(port))
        }
    }

    /// Why the tunnel of a port cannot be stopped.
    pub open spec fn disable_refusal(self, port: u16) -> Option<Seq<char>> {
        if !self.tunnels.contains_key(port) {
            Some(no_tunnel(port))
        } else if !self.tunnels[port].running {
            Some(already_stopped(port))
        } else {
            None
        }
    }

    /// Why the tunnel of a port cannot be started, before its port is bound.
    pub open spec fn enable_refusal(self, port: u16) -> Option<Seq<char>> {
        if !self.tunnels.contains_key(port) {
            Some(no_tunnel(port))
        } else if self.tunnels[port].running {
            Some(already_running(port))
        } else {
            None
        }
    }

    /// The session after something happened on the tunnel `serial` of a port. What is told
    /// of a tunnel that is gone changes nothing.
    pub open spec fn after_traffic(self, port: u16, serial: u64, event: TrafficView) -> SessionView {
        if self.tunnels.contains_key(port) && self.tunnels[port].serial == serial {
            self.with(port, self.tunnels[port].after(event))
        } else {
            self
        }
    }
}

impl TunnelManager {
    /// Puts a tunnel into the table.
    fn put(&mut self, port: u16, entry: TunnelEntry)
        ensures
            final(self)@ == old(self)@.with(port, entry@),
    {
        self.tunnels.insert(port, entry);
        assert(self@.tunnels =~= old(self)@.tunnels.insert(port, entry@));
    }

    /// Takes a tunnel out of the table.
    fn take(&mut self, port: u16) -> (r: Option<TunnelEntry>)
        ensures
            final(self)@ == old(self)@.without(port),
            match r {
                Some(entry) => old(self)@.tunnels.contains_key(port) && entry@
                    == old(self)@.tunnels[port],
                None => !old(self)@.tunnels.contains_key(port),
            },
    {
        let r = self.tunnels.remove(&port);
        assert(self@.tunnels =~= old(self)@.tunnels.remove(port));
        r
    }

    /// Adds a tunnel that is stopped: no port is bound, only its settings are kept.
    pub fn restore_disabled(
        &mut self,
        serial: u64,
        local_port: u16,
        remote_host: &str,
        remote_port: u32,
    )
        ensures
            final(self)@ == old(self)@.with_stopped(serial, local_port, remote_host@, remote_port),
    {
        let message = write_route(
            "隧道已加载（停用状态）：",
            local_port,
            remote_host,
            remote_port,
        );
        let entry = TunnelEntry::new(serial, remote_host, remote_port, false, message);
        self.put(local_port, entry);
    }

    /// Adds a tunnel whose local port was bound, or says why it was not.
    pub fn add(
        &mut self,
        serial: u64,
        local_port: u16,
        remote_host: &str,
        remote_port: u32,
        bound: &Result<(), String>,
    ) -> (r: Result<(), String>)
        ensures
            match (r, *bound) {
                (Ok(_), Ok(_)) => final(self)@ == old(self)@.with_running(
                    serial,
                    local_port,
                    remote_host@,
                    remote_port,
                ),
                (Err(message), Err(error)) => {
                    &&& message@ == bind_failed(local_port, error@)
                    &&& final(self)@ == old(self)@
                },
                _ => false,
            },
    {
        match bound {
            Ok(_) => {
                let message = write_route("隧道已创建：", local_port, remote_host, remote_port);
                let entry = TunnelEntry::new(serial, remote_host, remote_port, true, message);
                self.put(local_port, entry);
                Ok(())
            },
            Err(error) => Err(write_bind_failed(local_port, error.as_str())),
        }
    }

    /// Removes a tunnel. The answer tells whether its listener is to be stopped.
    pub fn remove(&mut self, local_port: u16) -> (r: Result<bool, String>)
        ensures
            match (r, old(self)@.remove_refusal(local_port)) {
                (Ok(listening), None) => {
                    &&& final(self)@ == old(self)@.without(local_port)
                    &&& listening == old(self)@.tunnels[local_port].running
                },
                (Err(message), Some(refusal)) => {
                    &&& message@ == refusal
                    &&& final(self)@ == old(self)@
                },
                _ => false,
            },
    {
        match self.take(local_port) {
            Some(entry) => Ok(entry.running),
            None => {
                assert(self@ =~= old(self)@);
                Err(write_numbered("隧道 ", local_port as u64, " 不存在"))
            },
        }
    }

    /// Stops a tunnel, whose listener is then to be stopped.
    pub fn disable(&mut self, local_port: u16) -> (r: Result<(), String>)
        ensures
            match (r, old(self)@.disable_refusal(local_port)) {
                (Ok(_), None) => final(self)@ == old(self)@.with(
                    local_port,
                    old(self)@.tunnels[local_port].stopped(local_port),
                ),
                (Err(message), Some(refusal)) => {
                    &&& message@ == refusal
                    &&& final(self)@ == old(self)@
                },
                _ => false,
            },
    {
        match self.take(local_port) {
            Some(mut entry) => {
                if entry.running {
                    entry.stop(local_port);
                    self.put(local_port, entry);
                    assert(self@.tunnels =~= old(self)@.tunnels.insert(local_port, entry@));
                    Ok(())
                } else {
                    self.put(local_port, entry);
                    assert(self@.tunnels =~= old(self)@.tunnels);
                    Err(write_numbered("隧道 ", local_port as u64, " 已经是停用状态"))
                }
            },
            None => {
                assert(self@ =~= old(self)@);
                Err(write_numbered("隧道 ", local_port as u64, " 不存在"))
            },
        }
    }

    /// Whether a tunnel can be started once its port is bound.
    pub fn may_enable(&self, local_port: u16) -> (r: Result<(), String>)
        ensures
            match (r, self@.enable_refusal(local_port)) {
                (Ok(_), None) => true,
                (Err(message), Some(refusal)) => message@ == refusal,
                _ => false,
            },
    {
        match self.tunnels.get(&local_port) {
            Some(entry) => {
                assert(self@.tunnels[local_port] == entry@);
                if entry.running {
                    Err(write_numbered("隧道 ", local_port as u64, " 已经在运行中"))
                } else {
                    Ok(())
                }
            },
            None => Err(write_numbered("隧道 ", local_port as u64, " 不存在")),
        }
    }

    /// Starts a stopped tunnel whose local port was bound, or says why it was not.
    pub fn enable(&mut self, local_port: u16, bound: &Result<(), String>) -> (r: Result<(), String>)
        ensures
            match (r, old(self)@.enable_refusal(local_port), *bound) {
                (Ok(_), None, Ok(_)) => final(self)@ == old(self)@.with(
                    local_port,
                    old(self)@.tunnels[local_port].started(local_port),
                ),
                (Err(message), None, Err(error)) => {
                    &&& message@ == bind_failed(local_port, error@)
                    &&& final(self)@ == old(self)@
                },
                (Err(message), Some(refusal), _) => {
                    &&& message@ == refusal
                    &&& final(self)@ == old(self)@
                },
                _ => false,
            },
    {
        if let Err(refusal) = self.may_enable(local_port) {
            return Err(refusal);
        }
        if let Err(error) = bound {
            return Err(write_bind_failed(local_port, error.as_str()));
        }
        if let Some(mut entry) = self.take(local_port) {
            entry.start(local_port);
            self.put(local_port, entry);
            assert(self@.tunnels =~= old(self)@.tunnels.insert(local_port, entry@));
        }
        Ok(())
    }

    /// Adds a message to the log of a tunnel, where there is one.
    pub fn note(&mut self, local_port: u16, message: String)
        ensures
            final(self)@ == if old(self)@.tunnels.contains_key(local_port) {
                old(self)@.with(local_port, old(self)@.tunnels[local_port].noting(message@))
            } else {
                old(self)@
            },
    {
        if let Some(mut entry) = self.take(local_port) {
            entry.note(message);
            self.put(local_port, entry);
            assert(self@.tunnels =~= old(self)@.tunnels.insert(local_port, entry@));
        } else {
            assert(self@ =~= old(self)@);
        }
    }

    /// Takes in what happened on a tunnel.
    pub fn on_traffic(&mut self, local_port: u16, serial: u64, event: Traffic)
        ensures
            final(self)@ == old(self)@.after_traffic(local_port, serial, event@),
    {
        if let Some(mut entry) = self.take(local_port) {
            if entry.serial == serial {
                entry.on_traffic(event);
                self.put(local_port, entry);
                assert(self@.tunnels =~= old(self)@.tunnels.insert(local_port, entry@));
            } else {
                self.put(local_port, entry);
                assert(self@.tunnels =~= old(self)@.tunnels);
            }
        } else {
            assert(self@ =~= old(self)@);
        }
    }
}

// ---------- Snapshots ----------

/// How far a moment lies behind another, and nothing where it does not.
pub open spec fn since(earlier: i64, now: i64) -> u64 {
    if now > earlier {
        (now - earlier) as u64
    } else {
        0
    }
}

/// By how much a total has grown since the last snapshot. A total that was not seen then
/// counts from zero, and one that has become smaller has not grown.
pub open spec fn growth(total: u64, seen: Map<u16, u64>, port: u16) -> u64 {
    let before: u64 = if seen.contains_key(port) {
        seen[port]
    } else {
        0
    };
    if total > before {
        (total - before) as u64
    } else {
        0
    }
}

/// Bytes since the last snapshot, both ways.
#[derive(Debug, Clone, Copy, PartialEq, Eq)]
pub struct Growth {
    pub rx: u64,
    pub tx: u64,
}

/// The snapshots of a table of tunnels by rising port, with the rates that go with them.
pub open spec fn listing(tunnels: Map<u16, TunnelView>, rates: Seq<Rate>) -> Seq<TunnelInfoView> {
    let ports = ports_in(tunnels.dom());
    Seq::new(ports.len(), |i: int| tunnels[ports[i]].info(ports[i], rates[i]))
}

impl SessionView {
    /// The ports of the tunnels, in rising order.
    pub open spec fn ports(self) -> Seq<u16> {
        ports_in(self.tunnels.dom())
    }

    /// The traffic of each tunnel since the last snapshot, by rising port.
    pub open spec fn growths(self) -> Seq<Growth> {
        Seq::new(
            self.ports().len(),
            |i: int|
                Growth {
                    rx: growth(self.tunnels[self.ports()[i]].rx_bytes, self.last_rx, self.ports()[i]),
                    tx: growth(self.tunnels[self.ports()[i]].tx_bytes, self.last_tx, self.ports()[i]),
                },
        )
    }

    /// The session once a snapshot was taken.
    pub open spec fn sampled(self, now: i64) -> SessionView {
        SessionView {
            last_rx: self.tunnels.map_values(|t: TunnelView| t.rx_bytes),
            last_tx: self.tunnels.map_values(|t: TunnelView| t.tx_bytes),
            last_sample: now,
            ..self
        }
    }
}

fn grown(total: u64, seen: &BTreeMap<u16, u64>, port: u16) -> (r: u64)
    ensures
        r == growth(total, seen@, port),
{
    let before: u64 = match seen.get(&port) {
        Some(before) => *before,
        None => 0,
    };
    total.saturating_sub(before)
}

impl TunnelManager {
    /// How many nanoseconds ago the last snapshot was taken.
    pub fn sample_age(&self, now: i64) -> (r: u64)
        ensures
            r == since(self@.last_sample, now),
    {
        if now > self.last_sample {
            (now as i128 - self.last_sample as i128) as u64
        } else {
            0
        }
    }

    /// The traffic of each tunnel since the last snapshot, by rising port.
    pub fn growths(&self) -> (v: Vec<Growth>)
        ensures
            v@ == self@.growths(),
    {
        let ports = port_list(&self.tunnels);
        assert(self@.tunnels.dom() =~= self.tunnels@.dom());
        let mut v: Vec<Growth> = Vec::new();
        for i in 0..ports.len()
            invariant
                ports@ == self@.ports(),
                self@.tunnels.dom() == self.tunnels@.dom(),
                v@.len() == i,
                forall|k: int| 0 <= k < i ==> v@[k] == self@.growths()[k],
        {
            let port: u16 = ports[i];
            proof {
                lemma_listed_port(self@.tunnels, i as int);
            }
            let growth = match self.tunnels.get(&port) {
                Some(entry) => {
                    assert(self@.tunnels[port] == entry@);
                    Growth {
                        rx: grown(entry.rx_bytes, &self.last_rx, port),
                        tx: grown(entry.tx_bytes, &self.last_tx, port),
                    }
                },
                None => Growth { rx: 0, tx: 0 },
            };
            v.push(growth);
        }
        assert(v@ =~= self@.growths());
        v
    }

    /// The snapshots of all tunnels by rising port, with the rates that go with them.
    pub fn snapshots(&self, rates: &Vec<Rate>) -> (v: Vec<TunnelInfo>)
        requires
            rates@.len() == self@.ports().len(),
        ensures
            info_views(v@) == listing(self@.tunnels, rates@),
    {
        let ports = port_list(&self.tunnels);
        assert(self@.tunnels.dom() =~= self.tunnels@.dom());
        let mut v: Vec<TunnelInfo> = Vec::new();
        for i in 0..ports.len()
            invariant
                ports@ == self@.ports(),
                self@.tunnels.dom() == self.tunnels@.dom(),
                rates@.len() == ports@.len(),
                v@.len() == i,
                forall|k: int|
                    0 <= k < i ==> #[trigger] v@[k]@ == listing(self@.tunnels, rates@)[k],
        {
            let port: u16 = ports[i];
            proof {
                lemma_listed_port(self@.tunnels, i as int);
            }
            if let Some(entry) = self.tunnels.get(&port) {
                assert(self@.tunnels[port] == entry@);
                v.push(entry.info(port, rates[i]));
            }
        }
        assert(info_views(v@) =~= listing(self@.tunnels, rates@));
        v
    }

    /// Remembers the traffic of each tunnel and the moment.
    fn sample(&mut self, now: i64)
        ensures
            final(self)@ == old(self)@.sampled(now),
    {
        let ports = port_list(&self.tunnels);
        assert(self@.tunnels.dom() =~= self.tunnels@.dom());
        let mut last_rx: BTreeMap<u16, u64> = BTreeMap::new();
        let mut last_tx: BTreeMap<u16, u64> = BTreeMap::new();
        for i in 0..ports.len()
            invariant
                self@ == old(self)@,
                ports@ == self@.ports(),
                self@.tunnels.dom() == self.tunnels@.dom(),
                forall|p: u16|
                    #![trigger last_rx@.contains_key(p)]
                    last_rx@.contains_key(p) <==> exists|k: int|
                        0 <= k < i && #[trigger] ports@[k] == p,
                forall|p: u16|
                    #![trigger last_tx@.contains_key(p)]
                    last_tx@.contains_key(p) <==> exists|k: int|
                        0 <= k < i && #[trigger] ports@[k] == p,
                forall|p: u16|
                    last_rx@.contains_key(p) ==> #[trigger] last_rx@[p]
                        == self@.tunnels[p].rx_bytes,
                forall|p: u16|
                    last_tx@.contains_key(p) ==> #[trigger] last_tx@[p]
                        == self@.tunnels[p].tx_bytes,
        {
            let port: u16 = ports[i];
            proof {
                lemma_listed_port(self@.tunnels, i as int);
            }
            let ghost before_rx = last_rx@;
            let ghost before_tx = last_tx@;
            if let Some(entry) = self.tunnels.get(&port) {
                assert(self@.tunnels[port] == entry@);
                last_rx.insert(port, entry.rx_bytes);
                last_tx.insert(port, entry.tx_bytes);
            }
            assert forall|p: u16| #[trigger]
                last_rx@.contains_key(p) implies exists|k: int|
                0 <= k < i + 1 && #[trigger] ports@[k] == p by {
                if p == port {
                    assert(ports@[i as int] == p);
                } else {
                    assert(before_rx.contains_key(p));
                }
            }
            assert forall|p: u16| #[trigger]
                last_tx@.contains_key(p) implies exists|k: int|
                0 <= k < i + 1 && #[trigger] ports@[k] == p by {
                if p == port {
                    assert(ports@[i as int] == p);
                } else {
                    assert(before_tx.contains_key(p));
                }
            }
        }
        self.last_rx = last_rx;
        self.last_tx = last_tx;
        self.last_sample = now;
        proof {
            let tunnels = old(self)@.tunnels;
            lemma_ports_cover(tunnels);
            assert(last_rx@ =~= tunnels.map_values(|t: TunnelView| t.rx_bytes));
            assert(last_tx@ =~= tunnels.map_values(|t: TunnelView| t.tx_bytes));
        }
    }

    /// Takes a snapshot of all tunnels by rising port. The rates are those that the traffic
    /// since the last snapshot amounts to, tunnel by tunnel.
    pub fn list(&mut self, now: i64, rates: &Vec<Rate>) -> (v: Vec<TunnelInfo>)
        requires
            rates@.len() == old(self)@.ports().len(),
        ensures
            info_views(v@) == listing(old(self)@.tunnels, rates@),
            final(self)@ == old(self)@.sampled(now),
    {
        let v = self.snapshots(rates);
        self.sample(now);
        v
    }
}

/// A listed port is the port of a tunnel.
proof fn lemma_listed_port(tunnels: Map<u16, TunnelView>, i: int)
    requires
        0 <= i < ports_in(tunnels.dom()).len(),
    ensures
        tunnels.contains_key(ports_in(tunnels.dom())[i]),
{
    lemma_ports_below(tunnels.dom(), 65536);
}

/// The listed ports are those of the tunnels.
proof fn lemma_ports_cover(tunnels: Map<u16, TunnelView>)
    ensures
        forall|p: u16|
            #![trigger tunnels.contains_key(p)]
            tunnels.contains_key(p) <==> exists|k: int|
                0 <= k < ports_in(tunnels.dom()).len() && #[trigger] ports_in(tunnels.dom())[k]
                    == p,
{
    lemma_ports_below(tunnels.dom(), 65536);
    let ports = ports_in(tunnels.dom());
    assert forall|p: u16| #[trigger] tunnels.contains_key(p) implies exists|k: int|
        0 <= k < ports.len() && #[trigger] ports[k] == p by {
        assert(ports_below(tunnels.dom(), 65536).contains(p));
    }
}

// ---------- Losing and regaining the connection ----------

/// What is to be done for the connection.
#[derive(Debug, Clone, Copy, PartialEq, Eq, Structural)]
pub enum CheckStep {
    /// Nothing.
    Keep,
    /// Probe it, and report whether it answered in time.
    Ping,
    /// Make a new one.
    Reconnect,
}

impl SessionView {
    /// Whether the connection was left alone long enough.
    pub open spec fn probe_due(self, now: i64) -> bool {
        now - self.last_keepalive >= KEEPALIVE_NANOS
    }

    /// The session while a new connection is about to be made.
    pub open spec fn reconnecting(self) -> SessionView {
        SessionView { status: ConnectionStatus::Reconnecting(0), ..self }
    }

    /// What a look at the connection leads to, where `closed` tells whether there is one
    /// that is known to be closed.
    pub open spec fn check_step(self, now: i64, closed: bool) -> CheckStep {
        if self.status is Reconnecting {
            CheckStep::Keep
        } else if self.connected && closed {
            CheckStep::Reconnect
        } else if !self.probe_due(now) {
            CheckStep::Keep
        } else if self.connected {
            CheckStep::Ping
        } else {
            CheckStep::Reconnect
        }
    }

    /// The session after a look at the connection.
    pub open spec fn checked(self, now: i64, closed: bool) -> SessionView {
        let probed = if self.status !is Reconnecting && self.probe_due(now) {
            SessionView { last_keepalive: now, ..self }
        } else {
            self
        };
        if self.check_step(now, closed) is Reconnect {
            probed.reconnecting()
        } else {
            probed
        }
    }
}

/// How a new connection comes about.
#[derive(Debug, Clone, Copy, PartialEq, Eq, Structural)]
pub enum Progress {
    /// An attempt begins; its number.
    Attempting(usize),
    /// There is a new connection.
    Connected,
    /// The last attempt has failed.
    GaveUp,
}

impl SessionView {
    /// The session after news of a new connection.
    pub open spec fn after_progress(self, progress: Progress) -> SessionView {
        match progress {
            Progress::Attempting(n) => SessionView {
                status: ConnectionStatus::Reconnecting(n),
                ..self
            },
            Progress::Connected => SessionView {
                status: ConnectionStatus::Connected,
                connected: true,
                ..self
            },
            Progress::GaveUp => SessionView { status: ConnectionStatus::Disconnected, ..self },
        }
    }

    /// The session after its end.
    pub open spec fn ended(self) -> SessionView {
        SessionView {
            status: ConnectionStatus::Disconnected,
            tunnels: Map::empty(),
            connected: false,
            ..self
        }
    }
}

impl TunnelManager {
    /// The state of the connection.
    pub fn status(&self) -> (r: ConnectionStatus)
        ensures
            r == self@.status,
    {
        self.status
    }

    /// Looks at the connection. It is left alone while a new one is being made; otherwise a
    /// closed one is replaced, and one that was left alone for long is probed.
    pub fn check(&mut self, now: i64, closed: bool) -> (step: CheckStep)
        ensures
            step == old(self)@.check_step(now, closed),
            final(self)@ == old(self)@.checked(now, closed),
    {
        if let ConnectionStatus::Reconnecting(_) = self.status {
            return CheckStep::Keep;
        }
        let need_probe: bool = now as i128 - self.last_keepalive as i128 >= KEEPALIVE_NANOS as i128;
        if need_probe {
            self.last_keepalive = now;
        }
        if self.connected && !closed {
            if need_probe {
                CheckStep::Ping
            } else {
                CheckStep::Keep
            }
        } else if self.connected || need_probe {
            self.status = ConnectionStatus::Reconnecting(0);
            CheckStep::Reconnect
        } else {
            CheckStep::Keep
        }
    }

    /// Takes in whether a probe was answered in time. A connection that does not answer is
    /// replaced.
    pub fn on_ping(&mut self, answered: bool) -> (step: CheckStep)
        ensures
            answered ==> step is Keep && final(self)@ == old(self)@,
            !answered ==> step is Reconnect && final(self)@ == old(self)@.reconnecting(),
    {
        if answered {
            CheckStep::Keep
        } else {
            self.status = ConnectionStatus::Reconnecting(0);
            CheckStep::Reconnect
        }
    }

    /// Takes in news of a new connection.
    pub fn on_progress(&mut self, progress: Progress)
        ensures
            final(self)@ == old(self)@.after_progress(progress),
    {
        match progress {
            Progress::Attempting(n) => {
                self.status = ConnectionStatus::Reconnecting(n);
            },
            Progress::Connected => {
                self.status = ConnectionStatus::Connected;
                self.connected = true;
            },
            Progress::GaveUp => {
                self.status = ConnectionStatus::Disconnected;
            },
        }
    }

    /// Ends the session: every listener is to be stopped, and the connection closed where the
    /// answer tells that there is one.
    pub fn shutdown(&mut self) -> (connected: bool)
        ensures
            connected == old(self)@.connected,
            final(self)@ == old(self)@.ended(),
    {
        let connected = self.connected;
        self.status = ConnectionStatus::Disconnected;
        self.tunnels.clear();
        self.connected = false;
        assert(self@.tunnels =~= Map::empty());
        connected
    }
}

/// The attempts at a new connection.
pub struct Reconnect {
    /// How many attempts were begun.
    pub attempt: usize,
}

/// The number of attempts begun after one more was asked for.
pub open spec fn after_asking(attempt: usize) -> usize {
    if attempt < RECONNECT_ATTEMPTS {
        (attempt + 1) as usize
    } else {
        attempt
    }
}

/// How long to wait after a failed attempt, in seconds: twice as long each time, and no more
/// than sixteen.
pub open spec fn backoff(attempt: usize) -> u64 {
    match attempt {
        0 => 1,
        1 => 2,
        2 => 4,
        3 => 8,
        _ => 16,
    }
}

/// What is to be done next for a new connection, or how it ended.
#[derive(Debug, Clone, Copy, PartialEq, Eq, Structural)]
pub enum ReconnectStep {
    /// Try to connect; the number of the attempt.
    Attempt(usize),
    /// Wait for so many seconds, and ask for the next attempt.
    Wait(u64),
    /// There is a new connection.
    Connected,
    /// All attempts have failed.
    GaveUp,
}

impl ReconnectStep {
    /// What is told of a step, before it is done.
    pub open spec fn progress(self) -> Option<Progress> {
        match self {
            ReconnectStep::Attempt(n) => Some(Progress::Attempting(n)),
            ReconnectStep::Wait(_) => None,
            ReconnectStep::Connected => Some(Progress::Connected),
            ReconnectStep::GaveUp => Some(Progress::GaveUp),
        }
    }

    /// What is told of the step, before it is done.
    pub fn told(&self) -> (r: Option<Progress>)
        ensures
            r == self.progress(),
    {
        match *self {
            ReconnectStep::Attempt(n) => Some(Progress::Attempting(n)),
            ReconnectStep::Wait(_) => None,
            ReconnectStep::Connected => Some(Progress::Connected),
            ReconnectStep::GaveUp => Some(Progress::GaveUp),
        }
    }
}

/// What follows once so many attempts were begun and the wait after the last one is over.
pub open spec fn step_after_waiting(attempt: usize) -> ReconnectStep {
    if attempt < RECONNECT_ATTEMPTS {
        ReconnectStep::Attempt((attempt + 1) as usize)
    } else {
        ReconnectStep::GaveUp
    }
}

/// What follows an attempt.
pub open spec fn step_after_result(attempt: usize, connected: bool) -> ReconnectStep {
    if connected {
        ReconnectStep::Connected
    } else {
        ReconnectStep::Wait(backoff(attempt))
    }
}

impl Reconnect {
    /// No attempt was begun.
    pub fn new() -> (r: Reconnect)
        ensures
            r.attempt == 0,
    {
        Reconnect { attempt: 0 }
    }

    /// Begins the next attempt, where there is one left.
    pub fn next_attempt(&mut self) -> (step: ReconnectStep)
        ensures
            final(self).attempt == after_asking(old(self).attempt),
            step == step_after_waiting(old(self).attempt),
    {
        if self.attempt < RECONNECT_ATTEMPTS {
            self.attempt = self.attempt + 1;
            ReconnectStep::Attempt(self.attempt)
        } else {
            ReconnectStep::GaveUp
        }
    }

    /// Takes in whether the attempt that was begun has led to a connection.
    pub fn on_result(&self, connected: bool) -> (step: ReconnectStep)
        ensures
            step == step_after_result(self.attempt, connected),
    {
        if connected {
            ReconnectStep::Connected
        } else {
            ReconnectStep::Wait(self.wait_secs())
        }
    }

    /// How long to wait after the attempt just made has failed, in seconds.
    pub fn wait_secs(&self) -> (r: u64)
        ensures
            r == backoff(self.attempt),
    {
        let shift: u64 = if self.attempt < 4 {
            self.attempt as u64
        } else {
            4
        };
        assert(shift == 0 ==> 1u64 << shift == 1) by (bit_vector);
        assert(shift == 1 ==> 1u64 << shift == 2) by (bit_vector);
        assert(shift == 2 ==> 1u64 << shift == 4) by (bit_vector);
        assert(shift == 3 ==> 1u64 << shift == 8) by (bit_vector);
        assert(shift == 4 ==> 1u64 << shift == 16) by (bit_vector);
        1u64 << shift
    }
}

// ---------- Laws ----------

/// A session that waits for its first connection begins to make it at the first look.
pub proof fn lemma_first_check_reconnects(
    serial: u64,
    params: ConnectParamsView,
    made: i64,
    now: i64,
    closed: bool,
)
    requires
        made - KEEPALIVE_NANOS >= i64::MIN,
        now >= made,
    ensures
        disconnected_session(serial, params, made).check_step(now, closed) is Reconnect,
{
}

/// A live connection is probed at most once in a keepalive period.
pub proof fn lemma_probed_once(s: SessionView, first: i64, second: i64, closed: bool)
    requires
        s.check_step(first, closed) is Ping,
        second - first < KEEPALIVE_NANOS,
    ensures
        s.checked(first, closed).check_step(second, closed) is Keep,
{
}

/// The attempts that were begun once `n` were asked for.
pub open spec fn attempts_begun(n: nat) -> usize
    decreases n,
{
    if n == 0 {
        0
    } else {
        after_asking(attempts_begun((n - 1) as nat))
    }
}

/// The seconds that are waited over the first `n` attempts, all of them failed.
pub open spec fn total_wait(n: nat) -> nat
    decreases n,
{
    if n == 0 {
        0
    } else {
        total_wait((n - 1) as nat) + backoff(n as usize) as nat
    }
}

/// However often an attempt is asked for, no more than the allowed number is begun, and over
/// all of them forty-six seconds are waited.
pub proof fn lemma_reconnect_bounded(n: nat)
    ensures
        attempts_begun(n) == if n < RECONNECT_ATTEMPTS {
            n
        } else {
            RECONNECT_ATTEMPTS as nat
        },
        total_wait(attempts_begun(n) as nat) <= 46,
        n >= RECONNECT_ATTEMPTS ==> total_wait(attempts_begun(n) as nat) == 46,
    decreases n,
{
    reveal_with_fuel(total_wait, 6);
    if n > 0 {
        lemma_reconnect_bounded((n - 1) as nat);
    }
}

/// A tunnel that is stopped and started again has its settings, its traffic and the
/// connections that are open, and the other tunnels have not changed.
pub proof fn lemma_stop_then_start(s: SessionView, port: u16)
    requires
        s.disable_refusal(port) is None,
    ensures
        ({
            let stopped = s.with(port, s.tunnels[port].stopped(port));
            let started = stopped.with(port, stopped.tunnels[port].started(port));
            &&& stopped.disable_refusal(port) == Some(already_stopped(port))
            &&& stopped.enable_refusal(port) is None
            &&& started.enable_refusal(port) == Some(already_running(port))
            &&& started.tunnels[port].remote_host == s.tunnels[port].remote_host
            &&& started.tunnels[port].remote_port == s.tunnels[port].remote_port
            &&& started.tunnels[port].rx_bytes == s.tunnels[port].rx_bytes
            &&& started.tunnels[port].tx_bytes == s.tunnels[port].tx_bytes
            &&& started.tunnels[port].connections == s.tunnels[port].connections
            &&& started.tunnels.remove(port) == s.tunnels.remove(port)
        }),
{
    let stopped = s.with(port, s.tunnels[port].stopped(port));
    let started = stopped.with(port, stopped.tunnels[port].started(port));
    assert(started.tunnels.remove(port) =~= s.tunnels.remove(port));
}

/// The snapshots come by rising port, one for each tunnel, and those of stopped tunnels show
/// no rates and no connections.
pub proof fn lemma_listing(tunnels: Map<u16, TunnelView>, rates: Seq<Rate>)
    ensures
        forall|i: int, j: int|
            0 <= i < j < listing(tunnels, rates).len() ==> listing(tunnels, rates)[i].local_port
                < listing(tunnels, rates)[j].local_port,
        forall|p: u16|
            #![trigger tunnels.contains_key(p)]
            tunnels.contains_key(p) <==> exists|i: int|
                0 <= i < listing(tunnels, rates).len() && (#[trigger] listing(
                    tunnels,
                    rates,
                )[i]).local_port == p,
        forall|i: int|
            0 <= i < listing(tunnels, rates).len() && !(#[trigger] listing(
                tunnels,
                rates,
            )[i]).enabled ==> {
                &&& listing(tunnels, rates)[i].rx_rate == 0
                &&& listing(tunnels, rates)[i].tx_rate == 0
                &&& listing(tunnels, rates)[i].connections == 0
            },
{
    lemma_ports_below(tunnels.dom(), 65536);
    lemma_ports_cover(tunnels);
    let ports = ports_in(tunnels.dom());
    let all = listing(tunnels, rates);
    assert forall|p: u16| #[trigger] tunnels.contains_key(p) implies exists|i: int|
        0 <= i < all.len() && (#[trigger] all[i]).local_port == p by {
        let k = choose|k: int| 0 <= k < ports.len() && #[trigger] ports[k] == p;
        assert(all[k].local_port == p);
    }
    assert forall|p: u16|
        (exists|i: int|
            0 <= i < all.len() && (#[trigger] all[i]).local_port == p) implies #[trigger] tunnels.contains_key(
        p,
    ) by {
        let i = choose|i: int| 0 <= i < all.len() && (#[trigger] all[i]).local_port == p;
        assert(ports[i] == p);
    }
}

/// Right after a snapshot no tunnel has any traffic to show.
pub proof fn lemma_no_growth_after_sample(s: SessionView, now: i64)
    ensures
        forall|i: int|
            0 <= i < s.sampled(now).growths().len() ==> (#[trigger] s.sampled(now).growths()[i]).rx
                == 0 && s.sampled(now).growths()[i].tx == 0,
{
    lemma_ports_cover(s.tunnels);
    let after = s.sampled(now);
    assert forall|i: int| 0 <= i < after.growths().len() implies (#[trigger] after.growths()[i]).rx
        == 0 && after.growths()[i].tx == 0 by {
        let p = after.ports()[i];
        assert(s.tunnels.contains_key(p));
        assert(after.last_rx[p] == s.tunnels[p].rx_bytes);
        assert(after.last_tx[p] == s.tunnels[p].tx_bytes);
    }
}

} // verus!
