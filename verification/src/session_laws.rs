//! Laws of one session over everything that happens to it.

use vstd::arithmetic::div_mod::lemma_add_mod_noop;
use vstd::arithmetic::div_mod::lemma_mod_add_multiples_vanish;
use vstd::arithmetic::div_mod::lemma_small_mod;
use vstd::prelude::*;

use crate::session::backoff;
use crate::session::connected_session;
use crate::session::disconnected_session;
use crate::session::listing;
use crate::session::step_after_result;
use crate::session::step_after_waiting;
use crate::session::CheckStep;
use crate::session::ConnectionStatus;
use crate::session::Progress;
use crate::session::ReconnectStep;
use crate::session::SessionView;
use crate::session::RECONNECT_ATTEMPTS;
use crate::target::ConnectParamsView;
use crate::text::dec;
use crate::tunnel::Rate;
use crate::tunnel::TrafficView;

verus! {

/// Something that happens to a session.
pub enum Happening {
    /// Something happens on the tunnel of a port that has the given serial.
    Traffic(u16, u64, TrafficView),
    /// The tunnel of a port is asked to stop.
    Stop(u16),
    /// The tunnel of a port is asked to start, where its port can be bound.
    Start(u16),
    /// A tunnel is added on a port that could be bound: port, serial, and where it leads.
    Add(u16, u64, Seq<char>, u32),
    /// The tunnel of a port is removed.
    Remove(u16),
    /// The tunnels are shown, at the given time.
    Shown(i64),
}

/// Whether a tunnel on that port comes or goes.
pub open spec fn replaces(event: Happening, port: u16) -> bool {
    match event {
        Happening::Add(p, _, _, _) => p == port,
        Happening::Remove(p) => p == port,
        _ => false,
    }
}

impl SessionView {
    /// The session after something happened to it. Requests that are refused change nothing.
    pub open spec fn happened(self, event: Happening) -> SessionView {
        match event {
            Happening::Traffic(port, serial, event) => self.after_traffic(port, serial, event),
            Happening::Stop(port) => if self.disable_refusal(port) is None {
                self.with(port, self.tunnels[port].stopped(port))
            } else {
                self
            },
            Happening::Start(port) => if self.enable_refusal(port) is None {
                self.with(port, self.tunnels[port].started(port))
            } else {
                self
            },
            Happening::Add(port, serial, host, remote_port) => self.with_running(
                serial,
                port,
                host,
                remote_port,
            ),
            Happening::Remove(port) => self.without(port),
            Happening::Shown(now) => self.sampled(now),
        }
    }

    /// The session after all of that, in order.
    pub open spec fn after_all(self, events: Seq<Happening>) -> SessionView
        decreases events.len(),
    {
        if events.len() == 0 {
            self
        } else {
            self.after_all(events.drop_last()).happened(events.last())
        }
    }

    /// How many connections of the tunnel of a port are open after all of that: those that
    /// were, and those accepted since, without those that have ended since.
    pub open spec fn open_after(self, port: u16, events: Seq<Happening>) -> int
        decreases events.len(),
    {
        if events.len() == 0 {
            self.tunnels[port].connections as int
        } else {
            let before = self.open_after(port, events.drop_last());
            match events.last() {
                Happening::Traffic(p, serial, event) => if p == port && serial
                    == self.tunnels[port].serial {
                    match event {
                        TrafficView::Accepted(_) => before + 1,
                        TrafficView::Finished(_) => before - 1,
                        TrafficView::Failed(_, _) => before - 1,
                        _ => before,
                    }
                } else {
                    before
                },
                _ => before,
            }
        }
    }
}

/// What is shown of open connections: a stopped tunnel shows none.
pub open spec fn shown_connections(running: bool, open: int) -> int {
    if running {
        open
    } else {
        0
    }
}

/// The connections that a tunnel counts are those that are open, however often it is stopped
/// and started while they last, and a snapshot shows their number while the tunnel runs. The
/// tunnel stays while that happens, no connection ends that is not open, and no more are open
/// than can be counted.
pub proof fn lemma_open_connections_counted(
    s: SessionView,
    port: u16,
    events: Seq<Happening>,
    rates: Seq<Rate>,
)
    requires
        s.tunnels.contains_key(port),
        forall|n: int| 0 <= n < events.len() ==> !replaces(#[trigger] events[n], port),
        forall|n: int|
            0 <= n <= events.len() ==> 0 <= #[trigger] s.open_after(port, events.take(n))
                <= usize::MAX,
    ensures
        ({
            let after = s.after_all(events);
            &&& after.tunnels.contains_key(port)
            &&& after.tunnels[port].serial == s.tunnels[port].serial
            &&& after.tunnels[port].connections == s.open_after(port, events)
            &&& forall|i: int|
                0 <= i < listing(after.tunnels, rates).len() && (#[trigger] listing(
                    after.tunnels,
                    rates,
                )[i]).local_port == port ==> listing(after.tunnels, rates)[i].connections
                    == shown_connections(after.tunnels[port].running, s.open_after(port, events))
        }),
    decreases events.len(),
{
    assert(events.take(events.len() as int) =~= events);
    if events.len() > 0 {
        let before = events.drop_last();
        assert forall|n: int| 0 <= n <= before.len() implies 0 <= #[trigger] s.open_after(
            port,
            before.take(n),
        ) <= usize::MAX by {
            assert(before.take(n) =~= events.take(n));
        }
        assert(before.take(before.len() as int) =~= before);
        assert(!replaces(events[events.len() - 1], port));
        lemma_open_connections_counted(s, port, before, rates);
    }
}

impl SessionView {
    /// How many bytes went from clients of the tunnel of a port to the remote end in all of
    /// that.
    pub open spec fn sent_in(self, port: u16, events: Seq<Happening>) -> nat
        decreases events.len(),
    {
        if events.len() == 0 {
            0
        } else {
            let before = self.sent_in(port, events.drop_last());
            match events.last() {
                Happening::Traffic(p, serial, TrafficView::Sent(n)) => if p == port && serial
                    == self.tunnels[port].serial {
                    before + n as nat
                } else {
                    before
                },
                _ => before,
            }
        }
    }

    /// How many bytes came from the remote end to clients of the tunnel of a port in all of
    /// that.
    pub open spec fn received_in(self, port: u16, events: Seq<Happening>) -> nat
        decreases events.len(),
    {
        if events.len() == 0 {
            0
        } else {
            let before = self.received_in(port, events.drop_last());
            match events.last() {
                Happening::Traffic(p, serial, TrafficView::Received(n)) => if p == port && serial
                    == self.tunnels[port].serial {
                    before + n as nat
                } else {
                    before
                },
                _ => before,
            }
        }
    }
}

/// What a counter shows that has counted up to that.
pub open spec fn counted(total: nat) -> u64 {
    (total % 0x1_0000_0000_0000_0000) as u64
}

/// A counter that has wrapped counts on as one that has not.
proof fn lemma_counts_on(total: nat, n: u64)
    ensures
        counted(total).wrapping_add(n) == counted(total + n as nat),
{
    let m: int = 0x1_0000_0000_0000_0000;
    lemma_add_mod_noop(total as int, n as int, m);
    lemma_small_mod(n as nat, m as nat);
    let a = total as int % m;
    assert(0 <= a < m);
    assert((total + n) % m == (a + n) % m);
    if a + n < m {
        lemma_small_mod((a + n) as nat, m as nat);
    } else {
        lemma_mod_add_multiples_vanish(a + n - m, m);
        lemma_small_mod((a + n - m) as nat, m as nat);
    }
}

/// All bytes of a tunnel are counted, both ways, whatever else happens while the tunnel stays
/// and however often it is stopped and started. The counters wrap.
pub proof fn lemma_bytes_counted(s: SessionView, port: u16, events: Seq<Happening>)
    requires
        s.tunnels.contains_key(port),
        forall|n: int| 0 <= n < events.len() ==> !replaces(#[trigger] events[n], port),
    ensures
        ({
            let before = s.tunnels[port];
            let after = s.after_all(events);
            &&& after.tunnels.contains_key(port)
            &&& after.tunnels[port].serial == before.serial
            &&& after.tunnels[port].tx_bytes == counted(
                before.tx_bytes as nat + s.sent_in(port, events),
            )
            &&& after.tunnels[port].rx_bytes == counted(
                before.rx_bytes as nat + s.received_in(port, events),
            )
        }),
    decreases events.len(),
{
    if events.len() > 0 {
        let earlier = events.drop_last();
        assert forall|n: int| 0 <= n < earlier.len() implies !replaces(
            #[trigger] earlier[n],
            port,
        ) by {
            assert(earlier[n] == events[n]);
        }
        lemma_bytes_counted(s, port, earlier);
        assert(!replaces(events[events.len() - 1], port));
        let sent = s.tunnels[port].tx_bytes as nat + s.sent_in(port, earlier);
        let received = s.tunnels[port].rx_bytes as nat + s.received_in(port, earlier);
        match events.last() {
            Happening::Traffic(_, _, TrafficView::Sent(n)) => lemma_counts_on(sent, n),
            Happening::Traffic(_, _, TrafficView::Received(n)) => lemma_counts_on(received, n),
            _ => {},
        }
    } else {
        lemma_small_mod(s.tunnels[port].tx_bytes as nat, 0x1_0000_0000_0000_0000);
        lemma_small_mod(s.tunnels[port].rx_bytes as nat, 0x1_0000_0000_0000_0000);
    }
}

// ---------- A new connection ----------

/// The step after the first `n` attempts and the waits behind those of them that failed, given
/// which attempts led to a connection.
pub open spec fn reconnect_run(results: Seq<bool>, n: int) -> ReconnectStep
    decreases n,
{
    if n <= 0 {
        step_after_waiting(0)
    } else {
        match reconnect_run(results, n - 1) {
            ReconnectStep::Attempt(attempt) => match step_after_result(attempt, results[n - 1]) {
                ReconnectStep::Wait(_) => step_after_waiting(attempt),
                step => step,
            },
            step => step,
        }
    }
}

impl SessionView {
    /// The session once it was told of a step.
    pub open spec fn told(self, step: ReconnectStep) -> SessionView {
        match step.progress() {
            Some(progress) => self.after_progress(progress),
            None => self,
        }
    }

    /// The session once it was told of every step of that run.
    pub open spec fn through_run(self, results: Seq<bool>, n: int) -> SessionView
        decreases n,
    {
        if n <= 0 {
            self.told(reconnect_run(results, 0))
        } else {
            self.through_run(results, n - 1).told(reconnect_run(results, n))
        }
    }
}

/// The attempt that is the first to lead to a connection, or the number of attempts where none
/// does.
pub open spec fn first_success(results: Seq<bool>) -> int
    decreases results.len(),
{
    if results.len() == 0 || results[0] {
        0
    } else {
        1 + first_success(results.skip(1))
    }
}

proof fn lemma_first_success(results: Seq<bool>)
    ensures
        0 <= first_success(results) <= results.len(),
        forall|i: int| 0 <= i < first_success(results) ==> !(#[trigger] results[i]),
        first_success(results) < results.len() ==> results[first_success(results)],
    decreases results.len(),
{
    if results.len() > 0 && !results[0] {
        let rest = results.skip(1);
        lemma_first_success(rest);
        assert forall|i: int| 0 <= i < first_success(results) implies !(#[trigger] results[i]) by {
            if i > 0 {
                assert(rest[i - 1] == results[i]);
            }
        }
    }
}

/// Making a new connection ends with the first attempt that succeeds, and the session is
/// connected then; it is given up once every allowed attempt has failed, and the session is
/// disconnected then. Before that the session shows the attempt that is under way. Nothing
/// follows the end.
pub proof fn lemma_reconnect_run(s: SessionView, results: Seq<bool>, n: int)
    requires
        0 <= n <= results.len(),
    ensures
        ({
            let first = first_success(results);
            let step = reconnect_run(results, n);
            let after = s.through_run(results, n);
            &&& first < RECONNECT_ATTEMPTS && first < n ==> {
                &&& step == ReconnectStep::Connected
                &&& after.status == ConnectionStatus::Connected
                &&& after.connected
            }
            &&& first >= RECONNECT_ATTEMPTS && n >= RECONNECT_ATTEMPTS ==> {
                &&& step == ReconnectStep::GaveUp
                &&& after.status == ConnectionStatus::Disconnected
                &&& after.connected == s.connected
            }
            &&& n <= first && n < RECONNECT_ATTEMPTS ==> {
                &&& step == ReconnectStep::Attempt((n + 1) as usize)
                &&& after.status == ConnectionStatus::Reconnecting((n + 1) as usize)
                &&& after.connected == s.connected
            }
        }),
    decreases n,
{
    lemma_first_success(results);
    if n > 0 {
        lemma_reconnect_run(s, results, n - 1);
    }
}

// ---------- Looking at the connection ----------

/// A look at the connection finds a lost one. Unless a new connection is being made already,
/// one that is known to be closed is replaced at any moment, whatever came before; one that is
/// not is probed once it was left alone for thirty seconds, and left alone until then; and
/// where there is none, one is made at the same times. While a new one is being made, nothing
/// is done.
pub proof fn lemma_look(s: SessionView, now: i64, closed: bool)
    ensures
        s.status is Reconnecting ==> s.check_step(now, closed) == CheckStep::Keep,
        s.status !is Reconnecting && s.connected && closed ==> s.check_step(now, closed)
            == CheckStep::Reconnect,
        s.status !is Reconnecting && s.connected && !closed && now - s.last_keepalive
            >= 30_000_000_000 ==> s.check_step(now, closed) == CheckStep::Ping,
        s.status !is Reconnecting && s.connected && !closed && now - s.last_keepalive
            < 30_000_000_000 ==> s.check_step(now, closed) == CheckStep::Keep,
        s.status !is Reconnecting && !s.connected && now - s.last_keepalive >= 30_000_000_000
            ==> s.check_step(now, closed) == CheckStep::Reconnect,
        s.status !is Reconnecting && !s.connected && now - s.last_keepalive < 30_000_000_000
            ==> s.check_step(now, closed) == CheckStep::Keep,
{
}

/// A look changes nothing but this: the session shows that a new connection is being made
/// where that is to be done, and the time for the next probe is counted anew where it had
/// come.
pub proof fn lemma_look_changes(s: SessionView, now: i64, closed: bool)
    ensures
        ({
            let after = s.checked(now, closed);
            let due = s.status !is Reconnecting && now - s.last_keepalive >= 30_000_000_000;
            &&& s.check_step(now, closed) == CheckStep::Reconnect ==> after.status
                == ConnectionStatus::Reconnecting(0)
            &&& s.check_step(now, closed) != CheckStep::Reconnect ==> after.status == s.status
            &&& due ==> after.last_keepalive == now
            &&& !due ==> after.last_keepalive == s.last_keepalive
            &&& after == SessionView {
                status: after.status,
                last_keepalive: after.last_keepalive,
                ..s
            }
        }),
        s.reconnecting().status == ConnectionStatus::Reconnecting(0),
        s.reconnecting() == (SessionView { status: s.reconnecting().status, ..s }),
{
}

/// A host whose connection was lost is tried again after all attempts have failed: at the next
/// look, where there is a connection that is known to be closed, and at the next one after the
/// time for a probe has come otherwise.
pub proof fn lemma_tried_again(s: SessionView, now: i64)
    ensures
        s.connected ==> s.after_progress(Progress::GaveUp).check_step(now, true)
            == CheckStep::Reconnect,
        now - s.last_keepalive >= 30_000_000_000 ==> s.after_progress(
            Progress::GaveUp,
        ).check_step(now, false) != CheckStep::Keep,
{
}

/// What is told of a new connection shows in the session: the attempt under way, that there is
/// a connection again, or that it was given up. Nothing else changes.
pub proof fn lemma_progress(s: SessionView, n: usize)
    ensures
        s.after_progress(Progress::Attempting(n)) == (SessionView {
            status: ConnectionStatus::Reconnecting(n),
            ..s
        }),
        s.after_progress(Progress::Connected) == (SessionView {
            status: ConnectionStatus::Connected,
            connected: true,
            ..s
        }),
        s.after_progress(Progress::GaveUp) == (SessionView {
            status: ConnectionStatus::Disconnected,
            ..s
        }),
        ReconnectStep::Attempt(n).progress() == Some(Progress::Attempting(n)),
        ReconnectStep::Connected.progress() == Some(Progress::Connected),
        ReconnectStep::GaveUp.progress() == Some(Progress::GaveUp),
        ReconnectStep::Wait(n as u64).progress() is None,
{
}

/// There are five attempts, and the wait after a failed one doubles from two seconds to
/// sixteen.
pub proof fn lemma_waits(attempt: usize)
    ensures
        step_after_waiting(attempt) == if attempt < 5 {
            ReconnectStep::Attempt((attempt + 1) as usize)
        } else {
            ReconnectStep::GaveUp
        },
        step_after_result(attempt, true) == ReconnectStep::Connected,
        step_after_result(attempt, false) == ReconnectStep::Wait(backoff(attempt)),
        backoff(1) == 2,
        1 <= attempt < 4 ==> backoff((attempt + 1) as usize) == 2 * backoff(attempt),
        attempt >= 4 ==> backoff(attempt) == 16,
{
}

/// A session begins without tunnels, with the parameters it was asked for: connected, or
/// without a connection and due to make one. It ends without tunnels and without a connection.
pub proof fn lemma_begin_and_end(s: SessionView, serial: u64, params: ConnectParamsView, now: i64)
    requires
        now - 30_000_000_000 >= i64::MIN,
    ensures
        ({
            let c = connected_session(serial, params, now);
            let d = disconnected_session(serial, params, now);
            &&& c.serial == serial && d.serial == serial
            &&& c.params == params && d.params == params
            &&& c.connected && c.status == ConnectionStatus::Connected
            &&& !d.connected && d.status == ConnectionStatus::Disconnected
            &&& c.tunnels.dom() == Set::<u16>::empty() && d.tunnels.dom() == Set::<u16>::empty()
            &&& c.last_rx.dom() == Set::<u16>::empty() && d.last_rx.dom() == Set::<u16>::empty()
            &&& c.last_tx.dom() == Set::<u16>::empty() && d.last_tx.dom() == Set::<u16>::empty()
            &&& c.last_sample == now && d.last_sample == now
            &&& c.last_keepalive == now
            &&& now - d.last_keepalive == 30_000_000_000
            &&& !s.ended().connected
            &&& s.ended().status == ConnectionStatus::Disconnected
            &&& s.ended().tunnels.dom() == Set::<u16>::empty()
            &&& s.ended() == SessionView {
                connected: s.ended().connected,
                status: s.ended().status,
                tunnels: s.ended().tunnels,
                ..s
            }
        }),
{
    let c = connected_session(serial, params, now);
    assert(c.tunnels.dom() =~= Set::<u16>::empty());
    assert(c.last_rx.dom() =~= Set::<u16>::empty());
    assert(s.ended().tunnels.dom() =~= Set::<u16>::empty());
}

// ---------- Requests to one session ----------

/// A tunnel is removed where there is one, stopped where it runs and started where it does
/// not; otherwise it is said which of these it is not.
pub proof fn lemma_refusals(s: SessionView, port: u16)
    ensures
        ({
            let there = s.tunnels.contains_key(port);
            let runs = there && s.tunnels[port].running;
            let number = dec(port as nat);
            &&& there ==> s.remove_refusal(port) is None
            &&& !there ==> s.remove_refusal(port) == Some("隧道 "@ + number + " 不存在"@)
            &&& runs ==> s.disable_refusal(port) is None
            &&& !there ==> s.disable_refusal(port) == Some("隧道 "@ + number + " 不存在"@)
            &&& there && !runs ==> s.disable_refusal(port) == Some(
                "隧道 "@ + number + " 已经是停用状态"@,
            )
            &&& there && !runs ==> s.enable_refusal(port) is None
            &&& !there ==> s.enable_refusal(port) == Some("隧道 "@ + number + " 不存在"@)
            &&& runs ==> s.enable_refusal(port) == Some("隧道 "@ + number + " 已经在运行中"@)
        }),
{
}

/// What happens on a tunnel reaches that tunnel and no other, and nothing where it is gone or
/// another one has taken its port.
pub proof fn lemma_traffic_reaches(s: SessionView, port: u16, serial: u64, event: TrafficView)
    ensures
        ({
            let after = s.after_traffic(port, serial, event);
            let meant = s.tunnels.contains_key(port) && s.tunnels[port].serial == serial;
            &&& meant ==> after.tunnels.contains_key(port) && after.tunnels[port]
                == s.tunnels[port].after(event)
            &&& after.tunnels.remove(port) == s.tunnels.remove(port)
            &&& after == SessionView { tunnels: after.tunnels, ..s }
            &&& !meant ==> after == s
        }),
{
    let after = s.after_traffic(port, serial, event);
    assert(after.tunnels.remove(port) =~= s.tunnels.remove(port));
}

} // verus!
