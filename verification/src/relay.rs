//! One forwarded connection: bytes between a local client and the remote end of a tunnel.

use vstd::prelude::*;

use crate::tunnel::Traffic;
use crate::tunnel::TrafficView;

verus! {

/// What is to be done with what was read.
#[derive(Debug, PartialEq, Eq)]
pub enum RelayStep {
    /// Tell the remote end that the client sends nothing more.
    ShutdownRemote,
    /// Write the given number of bytes, just read from the client, to the remote end.
    WriteRemote(usize),
    /// Write the given number of bytes, just read from the remote end, to the client.
    WriteLocal(usize),
    /// The connection has ended.
    Finish,
    /// The connection has failed with the given message.
    Fail(String),
}

/// A step as a mathematical value.
#[verifier::ext_equal]
pub enum RelayStepView {
    ShutdownRemote,
    WriteRemote(usize),
    WriteLocal(usize),
    Finish,
    Fail(Seq<char>),
}

impl View for RelayStep {
    type V = RelayStepView;

    open spec fn view(&self) -> RelayStepView {
        match self {
            RelayStep::ShutdownRemote => RelayStepView::ShutdownRemote,
            RelayStep::WriteRemote(n) => RelayStepView::WriteRemote(*n),
            RelayStep::WriteLocal(n) => RelayStepView::WriteLocal(*n),
            RelayStep::Finish => RelayStepView::Finish,
            RelayStep::Fail(message) => RelayStepView::Fail(message@),
        }
    }
}

/// The state of a forwarded connection.
pub struct Relay {
    /// The client has sent its last byte, so nothing is read from it any more.
    pub stream_eof: bool,
}

/// What a read from the client leads to: no bytes are the end of what it sends, and the
/// connection stays open for what the remote end still has to say.
pub open spec fn after_local(read: Result<usize, String>) -> RelayStepView {
    match read {
        Ok(n) => if n == 0 {
            RelayStepView::ShutdownRemote
        } else {
            RelayStepView::WriteRemote(n)
        },
        Err(e) => RelayStepView::Fail(e@),
    }
}

/// What a read from the remote end leads to: no bytes are the end of the connection.
pub open spec fn after_remote(read: Result<usize, String>) -> RelayStepView {
    match read {
        Ok(n) => if n == 0 {
            RelayStepView::Finish
        } else {
            RelayStepView::WriteLocal(n)
        },
        Err(e) => RelayStepView::Fail(e@),
    }
}

impl Relay {
    /// Begins to forward, where the host of the tunnel is connected.
    pub fn open(connected: bool) -> (r: Result<Relay, String>)
        ensures
            match r {
                Ok(relay) => connected && !relay.stream_eof,
                Err(message) => !connected && message@ == "SSH 会话未连接或已断开"@,
            },
    {
        if connected {
            Ok(Relay { stream_eof: false })
        } else {
            Err("SSH 会话未连接或已断开".to_string())
        }
    }

    /// Takes in what a read from the client brought.
    pub fn on_local(&mut self, read: Result<usize, String>) -> (step: RelayStep)
        requires
            !old(self).stream_eof,
        ensures
            step@ == after_local(read),
            final(self).stream_eof == (step@ is ShutdownRemote),
    {
        match read {
            Ok(n) => if n == 0 {
                self.stream_eof = true;
                RelayStep::ShutdownRemote
            } else {
                RelayStep::WriteRemote(n)
            },
            Err(e) => RelayStep::Fail(e),
        }
    }

    /// Takes in what a read from the remote end brought.
    pub fn on_remote(&mut self, read: Result<usize, String>) -> (step: RelayStep)
        ensures
            step@ == after_remote(read),
            *final(self) == *old(self),
    {
        match read {
            Ok(n) => if n == 0 {
                RelayStep::Finish
            } else {
                RelayStep::WriteLocal(n)
            },
            Err(e) => RelayStep::Fail(e),
        }
    }
}

impl RelayStepView {
    /// The traffic that a step counts as.
    pub open spec fn counted(self) -> Option<TrafficView> {
        match self {
            RelayStepView::WriteRemote(n) => Some(TrafficView::Sent(n as u64)),
            RelayStepView::WriteLocal(n) => Some(TrafficView::Received(n as u64)),
            _ => None,
        }
    }
}

impl RelayStep {
    /// The traffic that the step counts as, whether or not it can then be carried out.
    pub fn counted(&self) -> (r: Option<Traffic>)
        ensures
            match (r, self@.counted()) {
                (Some(event), Some(expected)) => event@ == expected,
                (None, None) => true,
                _ => false,
            },
    {
        match self {
            RelayStep::WriteRemote(n) => Some(Traffic::Sent(*n as u64)),
            RelayStep::WriteLocal(n) => Some(Traffic::Received(*n as u64)),
            _ => None,
        }
    }
}

/// How the end of a connection is told, given what it came to.
pub fn ending(peer: String, result: Result<(), String>) -> (event: Traffic)
    ensures
        event@ == match result {
            Ok(_) => TrafficView::Finished(peer@),
            Err(error) => TrafficView::Failed(peer@, error@),
        },
{
    match result {
        Ok(_) => Traffic::Finished(peer),
        Err(error) => Traffic::Failed(peer, error),
    }
}

} // verus!
