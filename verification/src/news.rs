//! What the screen does with news: of the hosts, of requests, and of free ports.

use vstd::prelude::*;

use crate::app::App;
use crate::app::AppView;
use crate::app::Mode;
use crate::app::REPLY_TIMEOUT_NANOS;
use crate::commands::command_views;
use crate::commands::Command;
use crate::manager::verdict;
use crate::ports::port_views;
use crate::ports::RemotePort;
use crate::ports::RemotePortView;
use crate::summary::summary_views;
use crate::summary::HostSummary;
use crate::summary::HostSummaryView;

verus! {

/// The place nearest to `i` in a list of `len` entries, and the first where it has none.
pub open spec fn nearest(i: usize, len: nat) -> usize {
    if i < len {
        i
    } else if len > 0 {
        (len - 1) as usize
    } else {
        0
    }
}

fn clamp_to(i: usize, len: usize) -> (r: usize)
    ensures
        r == nearest(i, len as nat),
{
    if i < len {
        i
    } else {
        len.saturating_sub(1)
    }
}

impl AppView {
    /// The state with news of the hosts. What is selected stays selected as far as it is
    /// still there.
    pub open spec fn with_hosts(self, hosts: Seq<HostSummaryView>) -> AppView {
        let active = nearest(self.active_host, hosts.len());
        AppView {
            hosts,
            active_host: active,
            selected_tunnel: if hosts.len() > 0 {
                nearest(self.selected_tunnel, hosts[active as int].tunnels.len())
            } else {
                0
            },
            ..self
        }
    }

    /// The state with the ports of the host that were asked for. They are shown only where the
    /// form for a tunnel of that host is still open.
    pub open spec fn with_ports(self, ports: Seq<RemotePortView>) -> AppView {
        match self.pending_scan {
            Some(id) => if self.mode is InputTunnel && self.form_tunnel.session_id == id {
                AppView {
                    remote_ports: ports,
                    ports_selected: nearest(self.ports_selected, ports.len()),
                    pending_scan: None,
                    ..self
                }
            } else {
                AppView { pending_scan: None, ..self }
            },
            None => self,
        }
    }

    /// The state once the answer that is waited for was looked for, and found where `reply`
    /// tells it. It is not waited for any longer than the time allowed.
    pub open spec fn with_reply(self, reply: Option<Result<(), Seq<char>>>, now: i64) -> AppView {
        let done = AppView { pending_reply: None, ..self };
        match (self.pending_reply, reply) {
            (None, _) => self,
            (Some(_), Some(Ok(_))) => done.saying("操作成功"@, false),
            (Some(_), Some(Err(message))) => done.saying(message, true),
            (Some(started), None) => if now - started > REPLY_TIMEOUT_NANOS {
                done.saying("后台命令超时，请重试"@, true)
            } else {
                self
            },
        }
    }
}

/// The value of an answer, where there is one.
pub open spec fn reply_value(reply: Option<Result<(), String>>) -> Option<Result<(), Seq<char>>> {
    match reply {
        Some(r) => Some(verdict(r)),
        None => None,
    }
}

impl App {
    /// Takes in news of the hosts.
    pub fn on_state(&mut self, hosts: Vec<HostSummary>)
        ensures
            final(self)@ == old(self)@.with_hosts(summary_views(hosts@)),
    {
        self.active_host = clamp_to(self.active_host, hosts.len());
        if hosts.len() > 0 {
            let i: usize = self.active_host;
            assert(summary_views(hosts@)[i as int] == hosts@[i as int]@);
            self.selected_tunnel = clamp_to(self.selected_tunnel, hosts[i].tunnels.len());
        } else {
            self.selected_tunnel = 0;
        }
        self.hosts = hosts;
    }

    /// Takes in the ports of the host that were asked for.
    pub fn on_ports(&mut self, ports: Vec<RemotePort>)
        ensures
            final(self)@ == old(self)@.with_ports(port_views(ports@)),
    {
        if let Some(id) = &self.pending_scan {
            if let Mode::InputTunnel = self.mode {
                if self.form_tunnel.session_id == *id {
                    self.ports_selected = clamp_to(self.ports_selected, ports.len());
                    self.remote_ports = ports;
                }
            }
            self.pending_scan = None;
        }
    }

    /// Looks for the answer that is waited for.
    pub fn on_reply(&mut self, reply: Option<Result<(), String>>, now: i64)
        ensures
            final(self)@ == old(self)@.with_reply(reply_value(reply), now),
    {
        if let Some(started) = self.pending_reply {
            match reply {
                Some(Ok(_)) => {
                    self.status = Some(("操作成功".to_string(), false));
                    self.pending_reply = None;
                },
                Some(Err(message)) => {
                    self.status = Some((message, true));
                    self.pending_reply = None;
                },
                None => {
                    if now as i128 - started as i128 > REPLY_TIMEOUT_NANOS as i128 {
                        self.status = Some(("后台命令超时，请重试".to_string(), true));
                        self.pending_reply = None;
                    }
                },
            }
        }
    }

    /// Takes in that a request could not be sent.
    pub fn on_manager_gone(&mut self)
        ensures
            final(self)@ == old(self)@.saying("后台任务已退出"@, true),
    {
        self.status = Some(("后台任务已退出".to_string(), true));
    }

    /// Hands over the requests that are still to be sent, oldest first.
    pub fn take_commands(&mut self) -> (v: Vec<Command>)
        ensures
            command_views(v@) == old(self)@.pending_cmds,
            final(self)@ == (AppView { pending_cmds: Seq::empty(), ..old(self)@ }),
    {
        let mut v: Vec<Command> = Vec::new();
        v.append(&mut self.pending_cmds);
        assert(command_views(v@) =~= old(self)@.pending_cmds);
        assert(self@.pending_cmds =~= Seq::empty());
        v
    }
}

// ---------- Free ports ----------

/// A search for a free local port, upwards from a given one. The last port is taken as it is.
pub struct PortSearch {
    /// The port to be tried now, or the one that was found.
    pub local: u16,
}

/// Whether a search ends at a port that is free or not.
pub open spec fn search_ends(local: u16, free: bool) -> bool {
    free || local == 65535
}

impl PortSearch {
    /// A search from that port on.
    pub fn new(start: u16) -> (search: PortSearch)
        ensures
            search.local == start,
    {
        PortSearch { local: start }
    }

    /// Takes in whether the port is free. The answer tells whether the search has ended;
    /// otherwise the next port is to be tried.
    pub fn on_probe(&mut self, free: bool) -> (found: bool)
        ensures
            found == search_ends(old(self).local, free),
            final(self).local == if found {
                old(self).local as int
            } else {
                old(self).local + 1
            },
    {
        if free || self.local == 65535 {
            true
        } else {
            self.local = self.local + 1;
            false
        }
    }
}

/// The port at which a search ends, where `free` tells which ports are free.
pub open spec fn search_end(local: u16, free: Set<u16>) -> u16
    decreases 65535 - local,
{
    if search_ends(local, free.contains(local)) || local >= 65535 {
        local
    } else {
        search_end((local + 1) as u16, free)
    }
}

/// A search ends at the first free port from its start on, or at the last port of all where
/// none is free.
pub proof fn lemma_search_end(start: u16, free: Set<u16>)
    ensures
        start <= search_end(start, free),
        forall|p: u16| start <= p < search_end(start, free) ==> !free.contains(p),
        free.contains(search_end(start, free)) || search_end(start, free) == 65535,
    decreases 65535 - start,
{
    if !search_ends(start, free.contains(start)) {
        lemma_search_end((start + 1) as u16, free);
    }
}

} // verus!
