//! The event log of one tunnel: the latest messages, oldest first.

use std::collections::VecDeque;

use vstd::prelude::*;

use crate::target::string_views;

verus! {

/// How many messages a log keeps.
pub const LOG_CAPACITY: usize = 200;

/// The event log of one tunnel.
#[derive(Debug)]
pub struct TunnelLog {
    pub entries: VecDeque<String>,
}

impl View for TunnelLog {
    type V = Seq<Seq<char>>;

    open spec fn view(&self) -> Seq<Seq<char>> {
        string_views(self.entries@)
    }
}

/// `log` with `message` at its end, and without its first message where it was full.
pub open spec fn logged(log: Seq<Seq<char>>, message: Seq<char>) -> Seq<Seq<char>> {
    if log.len() >= LOG_CAPACITY {
        log.drop_first().push(message)
    } else {
        log.push(message)
    }
}

/// Adds a message to a log. A full log forgets its oldest message.
pub fn log_push(log: &mut TunnelLog, message: String)
    ensures
        final(log)@ == logged(old(log)@, message@),
{
    let ghost before = log.entries@;
    if log.entries.len() >= LOG_CAPACITY {
        let _ = log.entries.pop_front();
        assert(string_views(log.entries@) =~= string_views(before).drop_first());
    }
    let ghost kept = log.entries@;
    log.entries.push_back(message);
    assert(string_views(log.entries@) =~= string_views(kept).push(message@));
}

impl TunnelLog {
    /// A log without messages.
    pub fn new() -> (log: TunnelLog)
        ensures
            log@ == Seq::<Seq<char>>::empty(),
    {
        let log = TunnelLog { entries: VecDeque::new() };
        assert(log@ =~= Seq::empty());
        log
    }

    /// The messages, oldest first.
    pub fn messages(&self) -> (v: Vec<String>)
        ensures
            string_views(v@) == self@,
    {
        let mut v: Vec<String> = Vec::new();
        assert(self@.take(0) =~= Seq::empty());
        for i in 0..self.entries.len()
            invariant
                string_views(v@) == self@.take(i as int),
        {
            let ghost before = v@;
            let message = self.entries[i].clone();
            v.push(message);
            assert(string_views(v@) =~= string_views(before).push(message@));
            assert(self@[i as int] == self.entries@[i as int]@);
            assert(self@.take(i + 1) =~= self@.take(i as int).push(self@[i as int]));
        }
        assert(self@.take(self.entries@.len() as int) =~= self@);
        v
    }
}

// ---------- Laws ----------

/// The log after the first `n` of some messages, from an empty one.
pub open spec fn logged_all(messages: Seq<Seq<char>>, n: int) -> Seq<Seq<char>>
    decreases n,
{
    if n <= 0 {
        Seq::empty()
    } else {
        logged(logged_all(messages, n - 1), messages[n - 1])
    }
}

/// A log holds the latest messages in the order in which they came, and never more than its
/// capacity.
pub proof fn lemma_log_keeps_latest(messages: Seq<Seq<char>>, n: int)
    requires
        0 <= n <= messages.len(),
    ensures
        logged_all(messages, n) == messages.subrange(
            if n > LOG_CAPACITY {
                n - LOG_CAPACITY
            } else {
                0
            },
            n,
        ),
        logged_all(messages, n).len() <= LOG_CAPACITY,
    decreases n,
{
    if n > 0 {
        lemma_log_keeps_latest(messages, n - 1);
        let from = if n > LOG_CAPACITY {
            n - LOG_CAPACITY
        } else {
            0
        };
        assert(logged_all(messages, n) =~= messages.subrange(from, n));
    } else {
        assert(messages.subrange(0, 0) =~= Seq::empty());
    }
}

} // verus!
