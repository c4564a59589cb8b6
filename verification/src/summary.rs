//! What is shown of one host.

use vstd::prelude::*;

use crate::session::ConnectionStatus;
use crate::target::ConnectParams;
use crate::target::ConnectParamsView;
use crate::tunnel::info_views;
use crate::tunnel::Rate;
use crate::tunnel::TunnelInfo;
use crate::tunnel::TunnelInfoView;

verus! {

/// What is shown of a host.
#[derive(Debug, PartialEq, Eq)]
pub struct HostSummary {
    pub id: String,
    pub display_name: String,
    pub params: ConnectParams,
    pub status: ConnectionStatus,
    pub tunnels: Vec<TunnelInfo>,
    pub total_rx_rate: u64,
    pub total_tx_rate: u64,
}

/// What is shown of a host, as a mathematical value.
#[verifier::ext_equal]
pub struct HostSummaryView {
    pub id: Seq<char>,
    pub display_name: Seq<char>,
    pub params: ConnectParamsView,
    pub status: ConnectionStatus,
    pub tunnels: Seq<TunnelInfoView>,
    pub total_rx_rate: u64,
    pub total_tx_rate: u64,
}

impl View for HostSummary {
    type V = HostSummaryView;

    open spec fn view(&self) -> HostSummaryView {
        HostSummaryView {
            id: self.id@,
            display_name: self.display_name@,
            params: self.params@,
            status: self.status,
            tunnels: info_views(self.tunnels@),
            total_rx_rate: self.total_rx_rate,
            total_tx_rate: self.total_tx_rate,
        }
    }
}

impl Clone for HostSummary {
    fn clone(&self) -> (r: HostSummary)
        ensures
            r@ == self@,
    {
        let mut tunnels: Vec<TunnelInfo> = Vec::new();
        for i in 0..self.tunnels.len()
            invariant
                tunnels@.len() == i,
                forall|k: int| 0 <= k < i ==> #[trigger] tunnels@[k]@ == self.tunnels@[k]@,
        {
            tunnels.push(self.tunnels[i].clone());
        }
        assert(info_views(tunnels@) =~= info_views(self.tunnels@));
        HostSummary {
            id: self.id.clone(),
            display_name: self.display_name.clone(),
            params: self.params.clone(),
            status: self.status,
            tunnels,
            total_rx_rate: self.total_rx_rate,
            total_tx_rate: self.total_tx_rate,
        }
    }
}

/// The values of a list of summaries.
pub open spec fn summary_views(v: Seq<HostSummary>) -> Seq<HostSummaryView> {
    v.map_values(|h: HostSummary| h@)
}

/// The sum of the rates at which tunnels receive.
pub open spec fn total_rx(tunnels: Seq<TunnelInfoView>) -> nat
    decreases tunnels.len(),
{
    if tunnels.len() == 0 {
        0
    } else {
        total_rx(tunnels.drop_last()) + tunnels.last().rx_rate as nat
    }
}

/// The sum of the rates at which tunnels send.
pub open spec fn total_tx(tunnels: Seq<TunnelInfoView>) -> nat
    decreases tunnels.len(),
{
    if tunnels.len() == 0 {
        0
    } else {
        total_tx(tunnels.drop_last()) + tunnels.last().tx_rate as nat
    }
}

/// Whether the sums of the rates are numbers that a summary can hold.
pub open spec fn totals_fit(tunnels: Seq<TunnelInfoView>) -> bool {
    total_rx(tunnels) <= u64::MAX && total_tx(tunnels) <= u64::MAX
}

/// The sums of fewer rates are no greater.
proof fn lemma_totals_grow(tunnels: Seq<TunnelInfoView>, n: int)
    requires
        0 <= n <= tunnels.len(),
    ensures
        total_rx(tunnels.take(n)) <= total_rx(tunnels),
        total_tx(tunnels.take(n)) <= total_tx(tunnels),
    decreases tunnels.len(),
{
    if n < tunnels.len() {
        lemma_totals_grow(tunnels.drop_last(), n);
        assert(tunnels.drop_last().take(n) =~= tunnels.take(n));
    } else {
        assert(tunnels.take(n) =~= tunnels);
    }
}

/// The sums of the rates of some tunnels, where they can be held.
pub fn total_rates(tunnels: &Vec<TunnelInfo>) -> (r: Option<Rate>)
    ensures
        match r {
            Some(total) => {
                &&& total.rx == total_rx(info_views(tunnels@))
                &&& total.tx == total_tx(info_views(tunnels@))
            },
            None => !totals_fit(info_views(tunnels@)),
        },
{
    let ghost all = info_views(tunnels@);
    let mut total = Rate { rx: 0, tx: 0 };
    for i in 0..tunnels.len()
        invariant
            all == info_views(tunnels@),
            total.rx == total_rx(all.take(i as int)),
            total.tx == total_tx(all.take(i as int)),
    {
        proof {
            assert(all[i as int] == tunnels@[i as int]@);
            assert(all.take(i + 1).drop_last() =~= all.take(i as int));
            lemma_totals_grow(all, i + 1);
        }
        match (
            total.rx.checked_add(tunnels[i].rx_rate),
            total.tx.checked_add(tunnels[i].tx_rate),
        ) {
            (Some(rx), Some(tx)) => {
                total = Rate { rx, tx };
            },
            _ => {
                return None;
            },
        }
    }
    assert(all.take(all.len() as int) =~= all);
    Some(total)
}

/// The summary of a host with the given tunnels.
pub open spec fn summarized(
    params: ConnectParamsView,
    status: ConnectionStatus,
    tunnels: Seq<TunnelInfoView>,
) -> HostSummaryView {
    HostSummaryView {
        id: params.display_name(),
        display_name: params.display_name(),
        params,
        status,
        tunnels,
        total_rx_rate: total_rx(tunnels) as u64,
        total_tx_rate: total_tx(tunnels) as u64,
    }
}

/// The summary of a host, whose rates are the sums of those of its tunnels.
pub fn summarize(
    params: &ConnectParams,
    status: ConnectionStatus,
    tunnels: Vec<TunnelInfo>,
) -> (h: HostSummary)
    requires
        totals_fit(info_views(tunnels@)),
    ensures
        h@ == summarized(params@, status, info_views(tunnels@)),
{
    let total: Rate = match total_rates(&tunnels) {
        Some(total) => total,
        None => Rate { rx: 0, tx: 0 },
    };
    HostSummary {
        id: params.display_name(),
        display_name: params.display_name(),
        params: params.clone(),
        status,
        tunnels,
        total_rx_rate: total.rx,
        total_tx_rate: total.tx,
    }
}

} // verus!
