//! What holds of tunnels: their traffic, their logs, and what is shown of them.

use vstd::prelude::*;

use crate::port_map::lemma_ports_below;
use crate::relay::after_local;
use crate::relay::after_remote;
use crate::relay::RelayStepView;
use crate::session::growth;
use crate::session::lemma_listing;
use crate::session::listing;
use crate::session::since;
use crate::session::ConnectionStatus;
use crate::session::SessionView;
use crate::session_laws::counted;
use crate::session_laws::lemma_bytes_counted;
use crate::session_laws::replaces;
use crate::session_laws::Happening;
use crate::summary::summarized;
use crate::summary::total_rx;
use crate::summary::total_tx;
use crate::target::string_views;
use crate::target::ConnectParamsView;
use crate::text::dec;
use crate::tunnel::route;
use crate::tunnel::Rate;
use crate::tunnel::TrafficView;
use crate::tunnel::TunnelEntry;
use crate::tunnel::TunnelInfo;
use crate::tunnel::TunnelInfoView;
use crate::tunnel::TunnelView;
use crate::tunnel_log::logged;

verus! {

// ---------- What is shown ----------

/// A snapshot shows the tunnel as it is: where it leads, how many bytes came and went in all,
/// and its messages. Connections and rates are shown while it runs.
pub proof fn lemma_snapshot(entry: TunnelEntry, port: u16, rate: Rate, shown: TunnelInfo)
    requires
        shown@ == entry@.info(port, rate),
    ensures
        shown.local_port == port,
        shown.remote_host@ == entry.remote_host@,
        shown.remote_port == entry.remote_port,
        shown.enabled == entry.running,
        shown.rx_bytes == entry.rx_bytes,
        shown.tx_bytes == entry.tx_bytes,
        entry.running ==> shown.connections == entry.connections,
        entry.running ==> shown.rx_rate == rate.rx && shown.tx_rate == rate.tx,
        !entry.running ==> shown.connections == 0 && shown.rx_rate == 0 && shown.tx_rate == 0,
        shown.log@.len() == entry.log.entries@.len(),
        forall|i: int|
            0 <= i < shown.log@.len() ==> (#[trigger] shown.log@[i])@ == entry.log.entries@[i]@,
{
    assert(string_views(shown.log@) == string_views(entry.log.entries@));
    assert forall|i: int| 0 <= i < shown.log@.len() implies (#[trigger] shown.log@[i])@
        == entry.log.entries@[i]@ by {
        assert(string_views(shown.log@)[i] == shown.log@[i]@);
        assert(string_views(entry.log.entries@)[i] == entry.log.entries@[i]@);
    }
}

/// Whether a snapshot shows a tunnel as it is.
pub open spec fn shows(shown: TunnelInfoView, tunnel: TunnelView, rate: Rate) -> bool {
    &&& shown.remote_host == tunnel.remote_host
    &&& shown.remote_port == tunnel.remote_port
    &&& shown.enabled == tunnel.running
    &&& shown.rx_bytes == tunnel.rx_bytes
    &&& shown.tx_bytes == tunnel.tx_bytes
    &&& shown.log == tunnel.log
    &&& tunnel.running ==> shown.connections == tunnel.connections && shown.rx_rate == rate.rx
        && shown.tx_rate == rate.tx
    &&& !tunnel.running ==> shown.connections == 0 && shown.rx_rate == 0 && shown.tx_rate == 0
}

/// A listing has one snapshot for each tunnel, by rising port, and each of them shows the
/// tunnel on its port as it is.
pub proof fn lemma_listing_true(tunnels: Map<u16, TunnelView>, rates: Seq<Rate>)
    ensures
        forall|i: int, j: int|
            0 <= i < j < listing(tunnels, rates).len() ==> listing(tunnels, rates)[i].local_port
                < listing(tunnels, rates)[j].local_port,
        forall|p: u16|
            #![trigger tunnels.contains_key(p)]
            tunnels.contains_key(p) <==> exists|i: int|
                0 <= i < listing(tunnels, rates).len() && (#[trigger] listing(
                    tunnels,
                    rates,
                )[i]).local_port == p,
        forall|i: int|
            0 <= i < listing(tunnels, rates).len() ==> shows(
                #[trigger] listing(tunnels, rates)[i],
                tunnels[listing(tunnels, rates)[i].local_port],
                rates[i],
            ),
{
    lemma_listing(tunnels, rates);
}

/// What a snapshot shows as received and as sent is the sum of what came and of what went,
/// whatever else happened while the tunnel was there.
pub proof fn lemma_shown_bytes(
    s: SessionView,
    port: u16,
    events: Seq<Happening>,
    rates: Seq<Rate>,
    i: int,
)
    requires
        s.tunnels.contains_key(port),
        forall|n: int| 0 <= n < events.len() ==> !replaces(#[trigger] events[n], port),
        0 <= i < listing(s.after_all(events).tunnels, rates).len(),
        listing(s.after_all(events).tunnels, rates)[i].local_port == port,
    ensures
        ({
            let shown = listing(s.after_all(events).tunnels, rates)[i];
            &&& shown.rx_bytes as int == (s.tunnels[port].rx_bytes + s.received_in(port, events))
                % 0x1_0000_0000_0000_0000
            &&& shown.tx_bytes as int == (s.tunnels[port].tx_bytes + s.sent_in(port, events))
                % 0x1_0000_0000_0000_0000
            &&& shown.remote_port == s.after_all(events).tunnels[port].remote_port
        }),
{
    lemma_bytes_counted(s, port, events);
    lemma_listing_true(s.after_all(events).tunnels, rates);
    assert(counted(0) == 0);
}

/// The rates of a host are the sums of those of its tunnels, and the rest of its summary is
/// what it is made from.
pub proof fn lemma_totals(
    params: ConnectParamsView,
    status: ConnectionStatus,
    tunnels: Seq<TunnelInfoView>,
    t: TunnelInfoView,
)
    ensures
        total_rx(Seq::empty()) == 0,
        total_tx(Seq::empty()) == 0,
        total_rx(tunnels.push(t)) == total_rx(tunnels) + t.rx_rate,
        total_tx(tunnels.push(t)) == total_tx(tunnels) + t.tx_rate,
        summarized(params, status, tunnels).id == params.display_name(),
        summarized(params, status, tunnels).display_name == params.display_name(),
        summarized(params, status, tunnels).params == params,
        summarized(params, status, tunnels).status == status,
        summarized(params, status, tunnels).tunnels == tunnels,
        total_rx(tunnels) <= u64::MAX ==> summarized(params, status, tunnels).total_rx_rate
            == total_rx(tunnels),
        total_tx(tunnels) <= u64::MAX ==> summarized(params, status, tunnels).total_tx_rate
            == total_tx(tunnels),
{
    assert(tunnels.push(t).drop_last() =~= tunnels);
}

// ---------- What happens on a tunnel ----------

/// A message goes to the end of a log; one that is full has lost its oldest message by that,
/// and nothing else. Two hundred messages fill it.
pub proof fn lemma_logged(log: Seq<Seq<char>>, message: Seq<char>)
    ensures
        logged(log, message).len() > 0,
        logged(log, message).last() == message,
        log.len() < 200 ==> logged(log, message).drop_last() == log,
        log.len() >= 200 ==> logged(log, message).drop_last() == log.skip(1),
{
    assert(logged(log, message).drop_last() =~= if log.len() < 200 {
        log
    } else {
        log.skip(1)
    });
}

/// Whether a tunnel is another with one more message, and the counters as given.
pub open spec fn noted(
    after: TunnelView,
    before: TunnelView,
    message: Seq<char>,
    connections: int,
) -> bool {
    &&& after.log == logged(before.log, message)
    &&& after.connections == connections
    &&& after.serial == before.serial
    &&& after.remote_host == before.remote_host
    &&& after.remote_port == before.remote_port
    &&& after.running == before.running
    &&& after.rx_bytes == before.rx_bytes
    &&& after.tx_bytes == before.tx_bytes
}

/// What happens on a tunnel: a client that is let in counts as a connection until it is done,
/// well or not; what it sends counts as sent and what comes back as received; and the log says
/// who came and went, and what went wrong.
pub proof fn lemma_traffic(t: TunnelView, peer: Seq<char>, error: Seq<char>, n: u64)
    requires
        0 < t.connections < usize::MAX,
        t.rx_bytes + n <= u64::MAX,
        t.tx_bytes + n <= u64::MAX,
    ensures
        noted(
            t.after(TrafficView::Accepted(peer)),
            t,
            peer + " 接入"@,
            t.connections + 1,
        ),
        noted(
            t.after(TrafficView::Finished(peer)),
            t,
            peer + " 连接结束"@,
            t.connections - 1,
        ),
        noted(
            t.after(TrafficView::Failed(peer, error)),
            t,
            peer + " 转发失败："@ + error,
            t.connections - 1,
        ),
        noted(
            t.after(TrafficView::AcceptFailed(error)),
            t,
            "accept 失败："@ + error,
            t.connections as int,
        ),
        ({
            let sent = t.after(TrafficView::Sent(n));
            &&& sent.tx_bytes == t.tx_bytes + n
            &&& sent == TunnelView { tx_bytes: sent.tx_bytes, ..t }
        }),
        ({
            let received = t.after(TrafficView::Received(n));
            &&& received.rx_bytes == t.rx_bytes + n
            &&& received == TunnelView { rx_bytes: received.rx_bytes, ..t }
        }),
{
}

/// Where a tunnel leads, as its messages have it.
pub open spec fn arrow(port: u16, t: TunnelView) -> Seq<char> {
    dec(port as nat) + " -> "@ + t.remote_host + ":"@ + dec(t.remote_port as nat)
}

/// A tunnel that is stopped or started is the same tunnel otherwise, and its log says so.
pub proof fn lemma_stopped_started(t: TunnelView, port: u16)
    ensures
        t.stopped(port) == (TunnelView {
            running: false,
            log: logged(t.log, "隧道已停用："@ + arrow(port, t)),
            ..t
        }),
        t.started(port) == (TunnelView {
            running: true,
            log: logged(t.log, "隧道已启用："@ + arrow(port, t)),
            ..t
        }),
{
    assert(route(port, t.remote_host, t.remote_port) == arrow(port, t));
}

/// A new tunnel leads where it is said to, has forwarded nothing, and runs or not as it is
/// meant to; the other tunnels of the session stay as they are.
pub proof fn lemma_new_tunnel(
    s: SessionView,
    serial: u64,
    port: u16,
    remote_host: Seq<char>,
    remote_port: u32,
)
    ensures
        ({
            let run = s.with_running(serial, port, remote_host, remote_port);
            let stop = s.with_stopped(serial, port, remote_host, remote_port);
            &&& run.tunnels.contains_key(port) && stop.tunnels.contains_key(port)
            &&& run.tunnels[port].running && !stop.tunnels[port].running
            &&& run.tunnels[port].remote_host == remote_host
            &&& stop.tunnels[port].remote_host == remote_host
            &&& run.tunnels[port].remote_port == remote_port
            &&& stop.tunnels[port].remote_port == remote_port
            &&& run.tunnels[port].serial == serial && stop.tunnels[port].serial == serial
            &&& run.tunnels[port].connections == 0 && stop.tunnels[port].connections == 0
            &&& run.tunnels[port].rx_bytes == 0 && run.tunnels[port].tx_bytes == 0
            &&& stop.tunnels[port].rx_bytes == 0 && stop.tunnels[port].tx_bytes == 0
            &&& run.tunnels[port].log == seq![
                "隧道已创建："@ + arrow(port, run.tunnels[port]),
            ]
            &&& stop.tunnels[port].log == seq![
                "隧道已加载（停用状态）："@ + arrow(port, stop.tunnels[port]),
            ]
            &&& run.tunnels.remove(port) == s.tunnels.remove(port)
            &&& stop.tunnels.remove(port) == s.tunnels.remove(port)
            &&& run == SessionView { tunnels: run.tunnels, ..s }
            &&& stop == SessionView { tunnels: stop.tunnels, ..s }
            &&& !s.without(port).tunnels.contains_key(port)
            &&& s.without(port).tunnels.remove(port) == s.tunnels.remove(port)
            &&& s.without(port) == SessionView { tunnels: s.without(port).tunnels, ..s }
        }),
{
    let run = s.with_running(serial, port, remote_host, remote_port);
    let stop = s.with_stopped(serial, port, remote_host, remote_port);
    assert(run.tunnels.remove(port) =~= s.tunnels.remove(port));
    assert(stop.tunnels.remove(port) =~= s.tunnels.remove(port));
    assert(s.without(port).tunnels.remove(port) =~= s.tunnels.remove(port));
    assert(route(port, remote_host, remote_port) == arrow(port, run.tunnels[port]));
}

// ---------- Since the last snapshot ----------

/// What a tunnel has forwarded since the last snapshot, both ways, is what its total is more
/// than it was then; for one that was not there it is all of it. How old the last snapshot is
/// is the time since it.
pub proof fn lemma_growth(s: SessionView, moment: i64, later: i64, i: int)
    requires
        0 <= i < s.growths().len(),
    ensures
        ({
            let p = s.ports()[i];
            let g = s.growths()[i];
            let t = s.tunnels[p];
            &&& s.tunnels.contains_key(p)
            &&& s.last_rx.contains_key(p) && s.last_rx[p] <= t.rx_bytes ==> g.rx == t.rx_bytes
                - s.last_rx[p]
            &&& s.last_tx.contains_key(p) && s.last_tx[p] <= t.tx_bytes ==> g.tx == t.tx_bytes
                - s.last_tx[p]
            &&& s.last_rx.contains_key(p) && s.last_rx[p] > t.rx_bytes ==> g.rx == 0
            &&& s.last_tx.contains_key(p) && s.last_tx[p] > t.tx_bytes ==> g.tx == 0
            &&& !s.last_rx.contains_key(p) ==> g.rx == t.rx_bytes
            &&& !s.last_tx.contains_key(p) ==> g.tx == t.tx_bytes
        }),
        s.growths().len() == listing(s.tunnels, Seq::empty()).len(),
        s.ports()[i] == listing(s.tunnels, Seq::empty())[i].local_port,
        later >= moment ==> since(moment, later) == later - moment,
        later < moment ==> since(moment, later) == 0,
{
    lemma_ports_below(s.tunnels.dom(), 65536);
    let p = s.ports()[i];
    assert(s.tunnels.dom().contains(p));
    assert(growth(s.tunnels[p].rx_bytes, s.last_rx, p) == s.growths()[i].rx);
}

/// A snapshot remembers the total of each tunnel, both ways, and when it was taken; nothing
/// else changes.
pub proof fn lemma_sampled(s: SessionView, now: i64, p: u16)
    ensures
        s.sampled(now).last_sample == now,
        s.sampled(now).last_rx.contains_key(p) == s.tunnels.contains_key(p),
        s.sampled(now).last_tx.contains_key(p) == s.tunnels.contains_key(p),
        s.tunnels.contains_key(p) ==> s.sampled(now).last_rx[p] == s.tunnels[p].rx_bytes,
        s.tunnels.contains_key(p) ==> s.sampled(now).last_tx[p] == s.tunnels[p].tx_bytes,
        s.sampled(now) == (SessionView {
            last_rx: s.sampled(now).last_rx,
            last_tx: s.sampled(now).last_tx,
            last_sample: s.sampled(now).last_sample,
            ..s
        }),
{
}

// ---------- One connection ----------

/// What is read on one side is written on the other, as many bytes as were read, and counts in
/// that direction; the end of what the client sends is passed on, the end of what the remote
/// end sends is the end, and an error is the end with that error.
pub proof fn lemma_relay(n: usize, error: String)
    requires
        n > 0,
    ensures
        after_local(Ok(n)) == RelayStepView::WriteRemote(n),
        after_remote(Ok(n)) == RelayStepView::WriteLocal(n),
        after_local(Ok(0)) == RelayStepView::ShutdownRemote,
        after_remote(Ok(0)) == RelayStepView::Finish,
        after_local(Err(error)) == RelayStepView::Fail(error@),
        after_remote(Err(error)) == RelayStepView::Fail(error@),
        RelayStepView::WriteRemote(n).counted() == Some(TrafficView::Sent(n as u64)),
        RelayStepView::WriteLocal(n).counted() == Some(TrafficView::Received(n as u64)),
        RelayStepView::ShutdownRemote.counted() is None,
        RelayStepView::Finish.counted() is None,
        RelayStepView::Fail(error@).counted() is None,
{
}

} // verus!
