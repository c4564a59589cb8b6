//! What is shown of all hosts.

use vstd::prelude::*;

use crate::manager::ManagerView;
use crate::manager::MultiTunnelManager;
use crate::session::listing;
use crate::session::SessionView;
use crate::summary::summarize;
use crate::summary::summarized;
use crate::summary::summary_views;
use crate::summary::total_rates;
use crate::summary::totals_fit;
use crate::summary::HostSummary;
use crate::summary::HostSummaryView;
use crate::tunnel::Rate;

verus! {

/// The rates of the tunnels of each host.
pub open spec fn rate_views(v: Seq<Vec<Rate>>) -> Seq<Seq<Rate>> {
    v.map_values(|rates: Vec<Rate>| rates@)
}

/// Whether there is one rate for each tunnel, and their sums can be held.
pub open spec fn rates_usable(session: SessionView, rates: Seq<Rate>) -> bool {
    &&& rates.len() == session.ports().len()
    &&& totals_fit(listing(session.tunnels, rates))
}

impl ManagerView {
    /// Whether the rates can be shown.
    pub open spec fn usable(self, rates: Seq<Seq<Rate>>) -> bool {
        &&& rates.len() == self.sessions.len()
        &&& forall|i: int|
            0 <= i < rates.len() ==> rates_usable(#[trigger] self.sessions[i], rates[i])
    }

    /// What is shown of each host.
    pub open spec fn summaries(self, rates: Seq<Seq<Rate>>) -> Seq<HostSummaryView> {
        Seq::new(
            self.sessions.len(),
            |i: int|
                summarized(
                    self.sessions[i].params,
                    self.sessions[i].status,
                    listing(self.sessions[i].tunnels, rates[i]),
                ),
        )
    }

    /// The hosts once they were shown.
    pub open spec fn sampled(self, now: i64) -> ManagerView {
        ManagerView {
            sessions: Seq::new(self.sessions.len(), |i: int| self.sessions[i].sampled(now)),
            ..self
        }
    }
}

impl MultiTunnelManager {
    /// Whether the rates can be shown.
    pub fn rates_usable(&self, rates: &Vec<Vec<Rate>>) -> (r: bool)
        ensures
            r == self@.usable(rate_views(rates@)),
    {
        if rates.len() != self.sessions.len() {
            return false;
        }
        for i in 0..self.sessions.len()
            invariant
                rates@.len() == self.sessions@.len(),
                forall|k: int|
                    0 <= k < i ==> rates_usable(
                        #[trigger] self@.sessions[k],
                        rate_views(rates@)[k],
                    ),
        {
            assert(self@.sessions[i as int] == self.sessions@[i as int]@);
            assert(rate_views(rates@)[i as int] == rates@[i as int]@);
            let growths = self.sessions[i].growths();
            if rates[i].len() != growths.len() {
                return false;
            }
            let infos = self.sessions[i].snapshots(&rates[i]);
            if total_rates(&infos).is_none() {
                return false;
            }
        }
        true
    }

    /// Takes a snapshot of all hosts and their tunnels, with the rates that the traffic since
    /// the last snapshot amounts to.
    pub fn summarize_all(&mut self, now: i64, rates: &Vec<Vec<Rate>>) -> (v: Vec<HostSummary>)
        requires
            old(self)@.usable(rate_views(rates@)),
        ensures
            summary_views(v@) == old(self)@.summaries(rate_views(rates@)),
            final(self)@ == old(self)@.sampled(now),
    {
        let ghost before = self@;
        let ghost given = rate_views(rates@);
        let mut v: Vec<HostSummary> = Vec::new();
        let len: usize = self.sessions.len();
        for i in 0..len
            invariant
                before.usable(given),
                given == rate_views(rates@),
                len == before.sessions.len(),
                self@.sessions.len() == len,
                self@.config_path == before.config_path,
                v@.len() == i,
                forall|k: int| 0 <= k < i ==> #[trigger] v@[k]@ == before.summaries(given)[k],
                forall|k: int|
                    0 <= k < i ==> #[trigger] self@.sessions[k] == before.sessions[k].sampled(now),
                forall|k: int| i <= k < len ==> #[trigger] self@.sessions[k] == before.sessions[k],
        {
            assert(self@.sessions[i as int] == self.sessions@[i as int]@);
            assert(given[i as int] == rates@[i as int]@);
            assert(rates_usable(before.sessions[i as int], given[i as int]));
            let ghost sessions = self@.sessions;
            let status = self.sessions[i].status();
            let infos = self.sessions[i].list(now, &rates[i]);
            assert(self@.sessions =~= sessions.update(i as int, self.sessions@[i as int]@));
            let summary = summarize(&self.sessions[i].params, status, infos);
            v.push(summary);
        }
        assert(summary_views(v@) =~= before.summaries(given));
        assert(self@.sessions =~= before.sampled(now).sessions);
        v
    }
}

} // verus!
