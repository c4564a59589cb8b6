//! Serving the requests of the user: one answer to each, and a picture of all hosts after it.

use vstd::prelude::*;

use crate::commands::alters_config;
use crate::commands::Action;
use crate::commands::Command;
use crate::commands::CommandView;
use crate::config::AppConfig;
use crate::config::SavedHostView;
use crate::manager::verdict;
use crate::manager::ManagerView;
use crate::manager::MultiTunnelManager;
use crate::overview::rate_views;
use crate::ports::port_views;
use crate::ports::RemotePort;
use crate::ports::RemotePortView;
use crate::summary::summary_views;
use crate::summary::HostSummary;
use crate::summary::HostSummaryView;
use crate::tunnel::Rate;

verus! {

// ---------- What goes in and out ----------

/// What was tried for a request before it is carried out, and when.
pub struct Trial {
    /// For a new session or tunnel.
    pub serial: u64,
    /// How the connection, or the listener, came out.
    pub outcome: Result<(), String>,
    /// The ports that a remote host listens on, where they were asked for.
    pub ports: Vec<RemotePort>,
    pub now: i64,
}

/// What was tried for a request, as a mathematical value.
#[verifier::ext_equal]
pub struct TrialView {
    pub serial: u64,
    pub outcome: Result<(), Seq<char>>,
    pub ports: Seq<RemotePortView>,
    pub now: i64,
}

impl View for Trial {
    type V = TrialView;

    open spec fn view(&self) -> TrialView {
        TrialView {
            serial: self.serial,
            outcome: verdict(self.outcome),
            ports: port_views(self.ports@),
            now: self.now,
        }
    }
}

/// The answer to a request.
#[derive(Debug, PartialEq, Eq)]
pub enum Reply {
    Done(Result<(), String>),
    Ports(Vec<RemotePort>),
}

/// An answer as a mathematical value.
#[verifier::ext_equal]
pub enum ReplyView {
    Done(Result<(), Seq<char>>),
    Ports(Seq<RemotePortView>),
}

impl View for Reply {
    type V = ReplyView;

    open spec fn view(&self) -> ReplyView {
        match self {
            Reply::Done(result) => ReplyView::Done(verdict(*result)),
            Reply::Ports(ports) => ReplyView::Ports(port_views(ports@)),
        }
    }
}

/// What comes of a request.
#[derive(Debug, PartialEq, Eq)]
pub enum Served {
    /// It is answered.
    Answered {
        reply: Reply,
        /// What has to be done for it, before it is answered.
        action: Action,
        /// Whether what is kept is to be written anew, after that.
        save: bool,
    },
    /// There will be no more requests.
    Ended {
        /// What is to be kept.
        keep: AppConfig,
        /// The sessions to end after that, by their serials, in order.
        close: Vec<u64>,
    },
}

/// What comes of a request, as a mathematical value.
#[verifier::ext_equal]
pub enum ServedView {
    Answered { reply: ReplyView, action: Action, save: bool },
    Ended { keep: Seq<SavedHostView>, close: Seq<u64> },
}

impl View for Served {
    type V = ServedView;

    open spec fn view(&self) -> ServedView {
        match self {
            Served::Answered { reply, action, save } => ServedView::Answered {
                reply: reply@,
                action: *action,
                save: *save,
            },
            Served::Ended { keep, close } => ServedView::Ended { keep: keep@, close: close@ },
        }
    }
}

/// The value of a request, or of there being no more.
pub open spec fn request_view(request: Option<Command>) -> Option<CommandView> {
    match request {
        Some(command) => Some(command@),
        None => None,
    }
}

/// Whether a request is the last one: the user quits, or nobody can make requests any more.
pub open spec fn is_last(request: Option<CommandView>) -> bool {
    match request {
        Some(command) => command is Quit,
        None => true,
    }
}

// ---------- The service ----------

/// What is due next.
#[derive(Debug, Clone, Copy, PartialEq, Eq, Structural)]
pub enum Phase {
    /// A request, or the next look at the hosts.
    Waiting,
    /// A picture of the hosts.
    Showing,
    /// Nothing.
    Ended,
}

/// The hosts, and what is due next.
pub struct Service {
    pub manager: MultiTunnelManager,
    pub phase: Phase,
}

/// The service as a mathematical value.
#[verifier::ext_equal]
pub struct ServiceView {
    pub manager: ManagerView,
    pub phase: Phase,
}

impl View for Service {
    type V = ServiceView;

    open spec fn view(&self) -> ServiceView {
        ServiceView { manager: self.manager@, phase: self.phase }
    }
}

impl ManagerView {
    /// The answer to a request: the ports of a host that is there, and otherwise how the
    /// request came out.
    pub open spec fn reply(self, command: CommandView, trial: TrialView) -> ReplyView {
        match command {
            CommandView::ScanPorts { session_id } => ReplyView::Ports(
                if self.has(session_id) {
                    trial.ports
                } else {
                    Seq::empty()
                },
            ),
            _ => ReplyView::Done(
                self.executing(command, trial.serial, trial.outcome, trial.now).1,
            ),
        }
    }

    /// The serials of the sessions, in order.
    pub open spec fn serials(self) -> Seq<u64> {
        Seq::new(self.sessions.len(), |i: int| self.sessions[i].serial)
    }
}

impl ServiceView {
    /// The service once a request was taken in, and what comes of it. After each request but
    /// the last a picture is due; with the last one all sessions end.
    pub open spec fn serving(self, request: Option<CommandView>, trial: TrialView) -> (
        ServiceView,
        ServedView,
    ) {
        if is_last(request) {
            (
                ServiceView {
                    manager: ManagerView { sessions: Seq::empty(), ..self.manager },
                    phase: Phase::Ended,
                },
                ServedView::Ended { keep: self.manager.config(), close: self.manager.serials() },
            )
        } else {
            let command = request->0;
            let (after, result) = self.manager.executing(
                command,
                trial.serial,
                trial.outcome,
                trial.now,
            );
            (
                ServiceView { manager: after, phase: Phase::Showing },
                ServedView::Answered {
                    reply: self.manager.reply(command, trial),
                    action: self.manager.action(command, trial.serial, trial.outcome, trial.now),
                    save: result is Ok && alters_config(command),
                },
            )
        }
    }
}

impl MultiTunnelManager {
    /// The serials of the sessions, in order.
    pub fn serials(&self) -> (v: Vec<u64>)
        ensures
            v@ == self@.serials(),
    {
        let mut v: Vec<u64> = Vec::new();
        for i in 0..self.sessions.len()
            invariant
                v@.len() == i,
                forall|k: int| 0 <= k < i ==> #[trigger] v@[k] == self@.serials()[k],
        {
            assert(self@.sessions[i as int] == self.sessions@[i as int]@);
            v.push(self.sessions[i].serial);
        }
        assert(v@ =~= self@.serials());
        v
    }
}

impl Service {
    /// Begins to serve.
    pub fn new(manager: MultiTunnelManager) -> (service: Service)
        ensures
            service@ == (ServiceView { manager: manager@, phase: Phase::Waiting }),
    {
        Service { manager, phase: Phase::Waiting }
    }

    /// It is time to look at the hosts.
    pub fn on_tick(&mut self)
        requires
            old(self).phase == Phase::Waiting,
        ensures
            final(self)@ == (ServiceView { phase: Phase::Showing, ..old(self)@ }),
    {
        self.phase = Phase::Showing;
    }

    /// Takes in a request, or that there will be no more.
    pub fn on_request(&mut self, request: Option<Command>, trial: Trial) -> (served: Served)
        requires
            old(self).phase == Phase::Waiting,
        ensures
            (final(self)@, served@) == old(self)@.serving(request_view(request), trial@),
    {
        match request {
            None => self.end(),
            Some(Command::Quit) => self.end(),
            Some(command) => {
                let ports: Option<Vec<RemotePort>> = match &command {
                    Command::ScanPorts { session_id } => if self.manager.has_session(
                        session_id.as_str(),
                    ) {
                        Some(trial.ports)
                    } else {
                        let none: Vec<RemotePort> = Vec::new();
                        assert(port_views(none@) =~= Seq::empty());
                        Some(none)
                    },
                    _ => None,
                };
                let done = self.manager.execute(command, trial.serial, trial.outcome, trial.now);
                self.phase = Phase::Showing;
                let reply = match ports {
                    Some(ports) => Reply::Ports(ports),
                    None => Reply::Done(done.result),
                };
                Served::Answered { reply, action: done.action, save: done.save }
            },
        }
    }

    fn end(&mut self) -> (served: Served)
        ensures
            final(self)@ == (ServiceView {
                manager: ManagerView { sessions: Seq::empty(), ..old(self)@.manager },
                phase: Phase::Ended,
            }),
            served@ == (ServedView::Ended {
                keep: old(self)@.manager.config(),
                close: old(self)@.manager.serials(),
            }),
    {
        let keep = self.manager.to_config();
        let close = self.manager.serials();
        self.manager.shutdown_all();
        self.phase = Phase::Ended;
        Served::Ended { keep, close }
    }

    /// Takes the picture of the hosts that is due.
    pub fn show(&mut self, now: i64, rates: &Vec<Vec<Rate>>) -> (v: Vec<HostSummary>)
        requires
            old(self).phase == Phase::Showing,
            old(self)@.manager.usable(rate_views(rates@)),
        ensures
            summary_views(v@) == old(self)@.manager.summaries(rate_views(rates@)),
            final(self)@ == (ServiceView {
                manager: old(self)@.manager.sampled(now),
                phase: Phase::Waiting,
            }),
    {
        let v = self.manager.summarize_all(now, rates);
        self.phase = Phase::Waiting;
        v
    }
}

// ---------- Laws ----------

/// Something that is done with the service.
pub enum Input {
    /// It is told that it is time to look at the hosts.
    Tick,
    /// It takes in a request, or that there will be no more.
    Request(Option<CommandView>, TrialView),
    /// The hosts change otherwise: traffic, looks at the connections, new connections.
    Change(ManagerView),
    /// It shows the hosts, at a time and with the rates of their tunnels.
    Show(i64, Seq<Seq<Rate>>),
}

/// Something that the service gives out.
pub enum Output {
    Reply(ReplyView),
    State(Seq<HostSummaryView>),
    End { keep: Seq<SavedHostView>, close: Seq<u64> },
}

impl ServiceView {
    /// Whether something can be done with the service as it is.
    pub open spec fn allows(self, input: Input) -> bool {
        match input {
            Input::Tick => self.phase == Phase::Waiting,
            Input::Request(_, _) => self.phase == Phase::Waiting,
            Input::Change(_) => self.phase != Phase::Ended,
            Input::Show(_, rates) => self.phase == Phase::Showing && self.manager.usable(rates),
        }
    }

    /// The service after that.
    pub open spec fn after(self, input: Input) -> ServiceView {
        match input {
            Input::Tick => ServiceView { phase: Phase::Showing, ..self },
            Input::Request(request, trial) => self.serving(request, trial).0,
            Input::Change(manager) => ServiceView { manager, ..self },
            Input::Show(now, _) => ServiceView {
                manager: self.manager.sampled(now),
                phase: Phase::Waiting,
            },
        }
    }

    /// What it gives out with that.
    pub open spec fn output(self, input: Input) -> Seq<Output> {
        match input {
            Input::Tick => Seq::empty(),
            Input::Request(request, trial) => match self.serving(request, trial).1 {
                ServedView::Answered { reply, .. } => seq![Output::Reply(reply)],
                ServedView::Ended { keep, close } => seq![Output::End { keep, close }],
            },
            Input::Change(_) => Seq::empty(),
            Input::Show(_, rates) => seq![Output::State(self.manager.summaries(rates))],
        }
    }

    /// Whether all of that can be done with the service, in order.
    pub open spec fn allows_all(self, inputs: Seq<Input>) -> bool
        decreases inputs.len(),
    {
        inputs.len() == 0 || {
            &&& self.allows_all(inputs.drop_last())
            &&& self.after_all(inputs.drop_last()).allows(inputs.last())
        }
    }

    /// The service after all of that.
    pub open spec fn after_all(self, inputs: Seq<Input>) -> ServiceView
        decreases inputs.len(),
    {
        if inputs.len() == 0 {
            self
        } else {
            self.after_all(inputs.drop_last()).after(inputs.last())
        }
    }

    /// What it gives out with all of that, in order.
    pub open spec fn outputs(self, inputs: Seq<Input>) -> Seq<Output>
        decreases inputs.len(),
    {
        if inputs.len() == 0 {
            Seq::empty()
        } else {
            self.outputs(inputs.drop_last()) + self.after_all(inputs.drop_last()).output(
                inputs.last(),
            )
        }
    }

    /// What each request but the last one is to be answered, in the order of the requests.
    pub open spec fn owed(self, inputs: Seq<Input>) -> Seq<ReplyView>
        decreases inputs.len(),
    {
        if inputs.len() == 0 {
            Seq::empty()
        } else {
            let before = self.owed(inputs.drop_last());
            match inputs.last() {
                Input::Request(Some(command), trial) => if command is Quit {
                    before
                } else {
                    before.push(self.after_all(inputs.drop_last()).manager.reply(command, trial))
                },
                _ => before,
            }
        }
    }
}

/// The answers among what is given out.
pub open spec fn replies(outputs: Seq<Output>) -> Seq<ReplyView>
    decreases outputs.len(),
{
    if outputs.len() == 0 {
        Seq::empty()
    } else {
        let before = replies(outputs.drop_last());
        match outputs.last() {
            Output::Reply(reply) => before.push(reply),
            _ => before,
        }
    }
}

/// How many pictures are among what is given out.
pub open spec fn pictures(outputs: Seq<Output>) -> nat
    decreases outputs.len(),
{
    if outputs.len() == 0 {
        0
    } else {
        pictures(outputs.drop_last()) + if outputs.last() is State {
            1nat
        } else {
            0nat
        }
    }
}

/// How many times it was time to look at the hosts.
pub open spec fn ticks(inputs: Seq<Input>) -> nat
    decreases inputs.len(),
{
    if inputs.len() == 0 {
        0
    } else {
        ticks(inputs.drop_last()) + if inputs.last() is Tick {
            1nat
        } else {
            0nat
        }
    }
}

/// Each request but the last one is answered exactly once, in the order of the requests, with
/// what the request came to; and the picture of the hosts after it is given out before
/// anything else is. There are as many pictures as answers and looks at the hosts, but for one
/// that may still be due.
pub proof fn lemma_answered_in_order(service: ServiceView, inputs: Seq<Input>)
    requires
        service.phase == Phase::Waiting,
        service.allows_all(inputs),
    ensures
        ({
            let outputs = service.outputs(inputs);
            let phase = service.after_all(inputs).phase;
            &&& replies(outputs) == service.owed(inputs)
            &&& forall|k: int|
                0 <= k < outputs.len() - 1 && (#[trigger] outputs[k] is Reply) ==> outputs[k
                    + 1] is State
            &&& phase != Phase::Showing && outputs.len() > 0 ==> !(outputs.last() is Reply)
            &&& replies(outputs).len() + ticks(inputs) == pictures(outputs) + if phase
                == Phase::Showing {
                1nat
            } else {
                0nat
            }
        }),
    decreases inputs.len(),
{
    if inputs.len() > 0 {
        let before = inputs.drop_last();
        lemma_answered_in_order(service, before);
        let old_outputs = service.outputs(before);
        let outputs = service.outputs(inputs);
        let given = service.after_all(before).output(inputs.last());
        if given.len() == 0 {
            assert(outputs =~= old_outputs);
        } else {
            assert(outputs.drop_last() =~= old_outputs);
            assert(outputs.last() == given[0]);
        }
    }
}

/// The service ends with the last request and with nothing else: then it gives out what is to
/// be kept of the hosts that were there and which of them to close, there are none left, and
/// nothing can be done with it any more.
pub proof fn lemma_ends_with_last_request(service: ServiceView, inputs: Seq<Input>)
    requires
        service.phase == Phase::Waiting,
        service.allows_all(inputs),
    ensures
        ({
            let outputs = service.outputs(inputs);
            let after = service.after_all(inputs);
            let ended = after.phase == Phase::Ended;
            &&& ended <==> inputs.len() > 0 && inputs.last() is Request && is_last(
                inputs.last()->Request_0,
            )
            &&& forall|n: int|
                0 <= n < inputs.len() && (#[trigger] inputs[n]) is Request && is_last(
                    inputs[n]->Request_0,
                ) ==> n == inputs.len() - 1
            &&& ended ==> {
                let before = service.after_all(inputs.drop_last()).manager;
                &&& outputs.len() > 0
                &&& outputs.last() == Output::End {
                    keep: before.config(),
                    close: before.serials(),
                }
                &&& after.manager.sessions.len() == 0
                &&& forall|input: Input| !(#[trigger] after.allows(input))
            }
            &&& forall|k: int|
                0 <= k < outputs.len() && (#[trigger] outputs[k]) is End ==> ended && k
                    == outputs.len() - 1
        }),
    decreases inputs.len(),
{
    if inputs.len() > 0 {
        let before = inputs.drop_last();
        lemma_ends_with_last_request(service, before);
        let old_outputs = service.outputs(before);
        let outputs = service.outputs(inputs);
        let given = service.after_all(before).output(inputs.last());
        assert forall|n: int|
            0 <= n < inputs.len() && (#[trigger] inputs[n]) is Request && is_last(
                inputs[n]->Request_0,
            ) implies n == inputs.len() - 1 by {
            if n < inputs.len() - 1 {
                assert(before[n] == inputs[n]);
            }
        }
        assert forall|k: int| 0 <= k < outputs.len() && (#[trigger] outputs[k]) is End implies k
            == outputs.len() - 1 && service.after_all(inputs).phase == Phase::Ended by {
            if k < old_outputs.len() {
                assert(old_outputs[k] == outputs[k]);
            }
        }
    }
}

} // verus!
