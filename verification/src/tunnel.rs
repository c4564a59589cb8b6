//! Tunnels of one host: what each forwards, its traffic, and the messages about it.

use vstd::prelude::*;

use crate::target::copy_strings;
use crate::target::string_views;
use crate::text::dec;
use crate::text::decimal;
use crate::tunnel_log::log_push;
use crate::tunnel_log::logged;
use crate::tunnel_log::TunnelLog;

verus! {

// ---------- Messages ----------

/// `local -> host:port`.
pub open spec fn route(local_port: u16, remote_host: Seq<char>, remote_port: u32) -> Seq<char> {
    dec(local_port as nat) + " -> "@ + remote_host + ":"@ + dec(remote_port as nat)
}

/// `before`, and behind it the route of a tunnel.
pub fn write_route(before: &str, local_port: u16, remote_host: &str, remote_port: u32) -> (s: String)
    ensures
        s@ == before@ + route(local_port, remote_host@, remote_port),
{
    let local = decimal(local_port as u64);
    let remote = decimal(remote_port as u64);
    let mut s = before.to_string();
    s.append(local.as_str());
    s.append(" -> ");
    s.append(remote_host);
    s.append(":");
    s.append(remote.as_str());
    assert(s@ =~= before@ + route(local_port, remote_host@, remote_port));
    s
}

/// A number between two texts.
pub open spec fn numbered(before: Seq<char>, number: nat, after: Seq<char>) -> Seq<char> {
    before + dec(number) + after
}

/// A number between two texts.
pub fn write_numbered(before: &str, number: u64, after: &str) -> (s: String)
    ensures
        s@ == numbered(before@, number as nat, after@),
{
    let digits = decimal(number);
    let mut s = before.to_string();
    s.append(digits.as_str());
    s.append(after);
    s
}

/// A text between two others.
pub open spec fn quoted(before: Seq<char>, text: Seq<char>, after: Seq<char>) -> Seq<char> {
    before + text + after
}

/// A text between two others.
pub fn write_quoted(before: &str, text: &str, after: &str) -> (s: String)
    ensures
        s@ == quoted(before@, text@, after@),
{
    let mut s = before.to_string();
    s.append(text);
    s.append(after);
    s
}

/// No tunnel listens on the port.
pub open spec fn no_tunnel(port: u16) -> Seq<char> {
    numbered("隧道 "@, port as nat, " 不存在"@)
}

/// The tunnel of the port is stopped already.
pub open spec fn already_stopped(port: u16) -> Seq<char> {
    numbered("隧道 "@, port as nat, " 已经是停用状态"@)
}

/// The tunnel of the port runs already.
pub open spec fn already_running(port: u16) -> Seq<char> {
    numbered("隧道 "@, port as nat, " 已经在运行中"@)
}

/// The port could not be bound.
pub open spec fn bind_failed(port: u16, error: Seq<char>) -> Seq<char> {
    numbered("本地端口 "@, port as nat, " 绑定失败："@) + error
}

/// The port could not be bound.
pub fn write_bind_failed(port: u16, error: &str) -> (s: String)
    ensures
        s@ == bind_failed(port, error@),
{
    let mut s = write_numbered("本地端口 ", port as u64, " 绑定失败：");
    s.append(error);
    s
}

// ---------- One tunnel ----------

/// A tunnel, running or stopped.
#[derive(Debug)]
pub struct TunnelEntry {
    /// Tells this tunnel from an earlier one on the same port.
    pub serial: u64,
    pub remote_host: String,
    pub remote_port: u32,
    /// How many connections are forwarded now, whether or not new ones are accepted.
    pub connections: usize,
    /// Bytes from the remote end to the clients, in all.
    pub rx_bytes: u64,
    /// Bytes from the clients to the remote end, in all.
    pub tx_bytes: u64,
    /// Whether the local port is listened on.
    pub running: bool,
    pub log: TunnelLog,
}

/// A tunnel as a mathematical value.
#[verifier::ext_equal]
pub struct TunnelView {
    pub serial: u64,
    pub remote_host: Seq<char>,
    pub remote_port: u32,
    pub connections: usize,
    pub rx_bytes: u64,
    pub tx_bytes: u64,
    pub running: bool,
    pub log: Seq<Seq<char>>,
}

impl View for TunnelEntry {
    type V = TunnelView;

    open spec fn view(&self) -> TunnelView {
        TunnelView {
            serial: self.serial,
            remote_host: self.remote_host@,
            remote_port: self.remote_port,
            connections: self.connections,
            rx_bytes: self.rx_bytes,
            tx_bytes: self.tx_bytes,
            running: self.running,
            log: self.log@,
        }
    }
}

/// A tunnel that has forwarded nothing yet, whose log holds one message.
pub open spec fn fresh_tunnel(
    serial: u64,
    remote_host: Seq<char>,
    remote_port: u32,
    running: bool,
    message: Seq<char>,
) -> TunnelView {
    TunnelView {
        serial,
        remote_host,
        remote_port,
        connections: 0,
        rx_bytes: 0,
        tx_bytes: 0,
        running,
        log: seq![message],
    }
}

/// What happens on a tunnel.
#[derive(Debug, PartialEq, Eq)]
pub enum Traffic {
    /// A connection could not be accepted; the error.
    AcceptFailed(String),
    /// A client has connected; its address.
    Accepted(String),
    /// Bytes went from a client to the remote end.
    Sent(u64),
    /// Bytes came from the remote end to a client.
    Received(u64),
    /// The connection of a client has ended; its address.
    Finished(String),
    /// The connection of a client has failed; its address and the error.
    Failed(String, String),
}

/// What happens on a tunnel, as a mathematical value.
#[verifier::ext_equal]
pub enum TrafficView {
    AcceptFailed(Seq<char>),
    Accepted(Seq<char>),
    Sent(u64),
    Received(u64),
    Finished(Seq<char>),
    Failed(Seq<char>, Seq<char>),
}

impl View for Traffic {
    type V = TrafficView;

    open spec fn view(&self) -> TrafficView {
        match self {
            Traffic::AcceptFailed(error) => TrafficView::AcceptFailed(error@),
            Traffic::Accepted(peer) => TrafficView::Accepted(peer@),
            Traffic::Sent(n) => TrafficView::Sent(*n),
            Traffic::Received(n) => TrafficView::Received(*n),
            Traffic::Finished(peer) => TrafficView::Finished(peer@),
            Traffic::Failed(peer, error) => TrafficView::Failed(peer@, error@),
        }
    }
}

impl TunnelView {
    /// The tunnel with one more message in its log.
    pub open spec fn noting(self, message: Seq<char>) -> TunnelView {
        TunnelView { log: logged(self.log, message), ..self }
    }

    /// The tunnel after something happened on it. Connections outlive a stop of the tunnel,
    /// so they are counted on while it is stopped.
    pub open spec fn after(self, event: TrafficView) -> TunnelView {
        match event {
            TrafficView::AcceptFailed(error) => self.noting("accept 失败："@ + error),
            TrafficView::Accepted(peer) => TunnelView {
                connections: self.connections.wrapping_add(1),
                ..self
            }.noting(peer + " 接入"@),
            TrafficView::Sent(n) => TunnelView { tx_bytes: self.tx_bytes.wrapping_add(n), ..self },
            TrafficView::Received(n) => TunnelView {
                rx_bytes: self.rx_bytes.wrapping_add(n),
                ..self
            },
            TrafficView::Finished(peer) => TunnelView {
                connections: self.connections.saturating_sub(1),
                ..self
            }.noting(peer + " 连接结束"@),
            TrafficView::Failed(peer, error) => TunnelView {
                connections: self.connections.saturating_sub(1),
                ..self
            }.noting(quoted(peer, " 转发失败："@, error)),
        }
    }

    /// The tunnel with its listener stopped. The connections that it forwards go on.
    pub open spec fn stopped(self, port: u16) -> TunnelView {
        TunnelView { running: false, ..self }.noting(
            "隧道已停用："@ + route(port, self.remote_host, self.remote_port),
        )
    }

    /// The tunnel with its listener started.
    pub open spec fn started(self, port: u16) -> TunnelView {
        TunnelView { running: true, ..self }.noting(
            "隧道已启用："@ + route(port, self.remote_host, self.remote_port),
        )
    }
}

/// One text behind another.
pub fn write_pair(first: &str, second: &str) -> (s: String)
    ensures
        s@ == first@ + second@,
{
    let mut s = first.to_string();
    s.append(second);
    s
}

impl TunnelEntry {
    /// A tunnel that has forwarded nothing yet, whose log holds one message.
    pub fn new(
        serial: u64,
        remote_host: &str,
        remote_port: u32,
        running: bool,
        message: String,
    ) -> (entry: TunnelEntry)
        ensures
            entry@ == fresh_tunnel(serial, remote_host@, remote_port, running, message@),
    {
        let mut log = TunnelLog::new();
        log_push(&mut log, message);
        assert(log@ =~= seq![message@]);
        TunnelEntry {
            serial,
            remote_host: remote_host.to_string(),
            remote_port,
            connections: 0,
            rx_bytes: 0,
            tx_bytes: 0,
            running,
            log,
        }
    }

    /// Adds a message to the log of the tunnel.
    pub fn note(&mut self, message: String)
        ensures
            final(self)@ == old(self)@.noting(message@),
    {
        log_push(&mut self.log, message);
    }

    /// Takes in what happened on the tunnel.
    pub fn on_traffic(&mut self, event: Traffic)
        ensures
            final(self)@ == old(self)@.after(event@),
    {
        match event {
            Traffic::AcceptFailed(error) => {
                let message = write_pair("accept 失败：", error.as_str());
                self.note(message);
            },
            Traffic::Accepted(peer) => {
                self.connections = self.connections.wrapping_add(1);
                let message = write_pair(peer.as_str(), " 接入");
                self.note(message);
            },
            Traffic::Sent(n) => {
                self.tx_bytes = self.tx_bytes.wrapping_add(n);
            },
            Traffic::Received(n) => {
                self.rx_bytes = self.rx_bytes.wrapping_add(n);
            },
            Traffic::Finished(peer) => {
                self.connections = self.connections.saturating_sub(1);
                let message = write_pair(peer.as_str(), " 连接结束");
                self.note(message);
            },
            Traffic::Failed(peer, error) => {
                self.connections = self.connections.saturating_sub(1);
                let message = write_quoted(peer.as_str(), " 转发失败：", error.as_str());
                self.note(message);
            },
        }
    }

    /// Marks the tunnel as stopped.
    pub fn stop(&mut self, port: u16)
        ensures
            final(self)@ == old(self)@.stopped(port),
    {
        self.running = false;
        let message = write_route(
            "隧道已停用：",
            port,
            self.remote_host.as_str(),
            self.remote_port,
        );
        self.note(message);
    }

    /// Marks the tunnel as running.
    pub fn start(&mut self, port: u16)
        ensures
            final(self)@ == old(self)@.started(port),
    {
        self.running = true;
        let message = write_route(
            "隧道已启用：",
            port,
            self.remote_host.as_str(),
            self.remote_port,
        );
        self.note(message);
    }
}

// ---------- Snapshots ----------

/// What is shown of a tunnel.
#[derive(Debug, PartialEq, Eq)]
pub struct TunnelInfo {
    pub local_port: u16,
    pub remote_host: String,
    pub remote_port: u32,
    pub enabled: bool,
    pub connections: usize,
    pub rx_bytes: u64,
    pub tx_bytes: u64,
    /// Bytes per second.
    pub rx_rate: u64,
    pub tx_rate: u64,
    /// Oldest message first.
    pub log: Vec<String>,
}

/// What is shown of a tunnel, as a mathematical value.
#[verifier::ext_equal]
pub struct TunnelInfoView {
    pub local_port: u16,
    pub remote_host: Seq<char>,
    pub remote_port: u32,
    pub enabled: bool,
    pub connections: usize,
    pub rx_bytes: u64,
    pub tx_bytes: u64,
    pub rx_rate: u64,
    pub tx_rate: u64,
    pub log: Seq<Seq<char>>,
}

impl View for TunnelInfo {
    type V = TunnelInfoView;

    open spec fn view(&self) -> TunnelInfoView {
        TunnelInfoView {
            local_port: self.local_port,
            remote_host: self.remote_host@,
            remote_port: self.remote_port,
            enabled: self.enabled,
            connections: self.connections,
            rx_bytes: self.rx_bytes,
            tx_bytes: self.tx_bytes,
            rx_rate: self.rx_rate,
            tx_rate: self.tx_rate,
            log: string_views(self.log@),
        }
    }
}

impl Clone for TunnelInfo {
    fn clone(&self) -> (r: TunnelInfo)
        ensures
            r@ == self@,
    {
        TunnelInfo {
            local_port: self.local_port,
            remote_host: self.remote_host.clone(),
            remote_port: self.remote_port,
            enabled: self.enabled,
            connections: self.connections,
            rx_bytes: self.rx_bytes,
            tx_bytes: self.tx_bytes,
            rx_rate: self.rx_rate,
            tx_rate: self.tx_rate,
            log: copy_strings(&self.log),
        }
    }
}

/// The values of a list of snapshots.
pub open spec fn info_views(v: Seq<TunnelInfo>) -> Seq<TunnelInfoView> {
    v.map_values(|t: TunnelInfo| t@)
}

/// Bytes per second, both ways.
#[derive(Debug, Clone, Copy, PartialEq, Eq)]
pub struct Rate {
    pub rx: u64,
    pub tx: u64,
}

impl TunnelView {
    /// What is shown of the tunnel: a stopped one has no rates and no connections.
    pub open spec fn info(self, port: u16, rate: Rate) -> TunnelInfoView {
        TunnelInfoView {
            local_port: port,
            remote_host: self.remote_host,
            remote_port: self.remote_port,
            enabled: self.running,
            connections: if self.running {
                self.connections
            } else {
                0
            },
            rx_bytes: self.rx_bytes,
            tx_bytes: self.tx_bytes,
            rx_rate: if self.running {
                rate.rx
            } else {
                0
            },
            tx_rate: if self.running {
                rate.tx
            } else {
                0
            },
            log: self.log,
        }
    }
}

impl TunnelEntry {
    /// What is shown of the tunnel.
    pub fn info(&self, port: u16, rate: Rate) -> (r: TunnelInfo)
        ensures
            r@ == self@.info(port, rate),
    {
        let running = self.running;
        TunnelInfo {
            local_port: port,
            remote_host: self.remote_host.clone(),
            remote_port: self.remote_port,
            enabled: running,
            connections: if running {
                self.connections
            } else {
                0
            },
            rx_bytes: self.rx_bytes,
            tx_bytes: self.tx_bytes,
            rx_rate: if running {
                rate.rx
            } else {
                0
            },
            tx_rate: if running {
                rate.tx
            } else {
                0
            },
            log: self.log.messages(),
        }
    }
}

} // verus!
