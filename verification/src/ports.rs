//! Listening ports of a remote host, read from what `ss -tln` or `netstat -tln` prints there.

use vstd::prelude::*;
use vstd::slice::slice_subrange;
use vstd::utf8::encode_utf8;
use vstd::utf8::valid_utf8;

use crate::text::alnum_run;
use crate::text::chars_of;
use crate::text::count_alnum;
use crate::text::count_digits;
use crate::text::digit_run;
use crate::text::find;
use crate::text::find_char;
use crate::text::find_str;
use crate::text::find_text;
use crate::text::lines;
use crate::text::parse_unsigned;
use crate::text::rfind;
use crate::text::rfind_char;
use crate::text::split_lines;
use crate::text::split_words;
use crate::text::string_of;
use crate::text::texts;
use crate::text::trim;
use crate::text::trimmed;
use crate::text::unsigned;
use crate::text::words;

verus! {

/// A port that some process of the remote host listens on.
#[derive(Debug, PartialEq, Eq)]
pub struct RemotePort {
    pub port: u16,
    /// The name of the process, empty where the listing does not give one.
    pub process: String,
}

/// A remote port as a mathematical value.
#[verifier::ext_equal]
pub struct RemotePortView {
    pub port: u16,
    pub process: Seq<char>,
}

impl View for RemotePort {
    type V = RemotePortView;

    open spec fn view(&self) -> RemotePortView {
        RemotePortView { port: self.port, process: self.process@ }
    }
}

impl Clone for RemotePort {
    fn clone(&self) -> (r: RemotePort)
        ensures
            r@ == self@,
    {
        RemotePort { port: self.port, process: self.process.clone() }
    }
}

/// The values of a list of remote ports.
pub open spec fn port_views(v: Seq<RemotePort>) -> Seq<RemotePortView> {
    v.map_values(|p: RemotePort| p@)
}

// ---------- One line of a listing ----------

/// The name that `ss` prints between quotes: `users:(("sshd",pid=123,fd=3))`.
pub open spec fn quoted_process(line: Seq<char>) -> Option<Seq<char>> {
    match find_text(line, "((\""@) {
        None => None,
        Some(i) => {
            let rest = line.skip(i + 3);
            if find(rest, '"') < rest.len() {
                Some(rest.take(find(rest, '"')))
            } else {
                None
            }
        },
    }
}

/// The name that `netstat` prints behind the state and the process number: `LISTEN 123/sshd`.
pub open spec fn slashed_process(line: Seq<char>) -> Seq<char> {
    match find_text(line, "LISTEN"@) {
        None => Seq::empty(),
        Some(i) => {
            let tail = trim(line.skip(i + 6));
            if find(tail, '/') < tail.len() {
                let name = tail.skip(find(tail, '/') + 1);
                name.take(alnum_run(name))
            } else {
                Seq::empty()
            }
        },
    }
}

/// The name of the process that a line of a listing speaks of.
pub open spec fn process_of(line: Seq<char>) -> Seq<char> {
    match quoted_process(line) {
        Some(name) => name,
        None => slashed_process(line),
    }
}

/// The number that the fourth word of a line ends in: the digits behind its last colon.
pub open spec fn port_of(line: Seq<char>) -> Option<nat> {
    if words(line).len() <= 3 {
        None
    } else {
        let local = words(line)[3];
        match rfind(local, ':') {
            None => None,
            Some(i) => {
                let rest = local.skip(i + 1);
                unsigned(rest.take(digit_run(rest)), u16::MAX as nat)
            },
        }
    }
}

/// The listening port that a trimmed line of a listing tells of, where it tells of one.
pub open spec fn entry_of(line: Seq<char>) -> Option<RemotePortView> {
    if find_text(line, "LISTEN"@) is None {
        None
    } else {
        match port_of(line) {
            Some(p) => if p > 0 {
                Some(RemotePortView { port: p as u16, process: process_of(line) })
            } else {
                None
            },
            None => None,
        }
    }
}

/// What the lines of a listing tell of, line by line.
pub open spec fn entries(output: Seq<char>) -> Seq<Option<RemotePortView>> {
    lines(output).map_values(|line: Seq<char>| entry_of(trim(line)))
}

/// Whether entry `i` is the first that tells of the port of `p`, and tells `p`.
pub open spec fn first_telling(
    entries: Seq<Option<RemotePortView>>,
    i: int,
    p: RemotePortView,
) -> bool {
    &&& entries[i] == Some(p)
    &&& forall|j: int|
        0 <= j < i && (#[trigger] entries[j]) is Some ==> entries[j]->0.port != p.port
}

/// Whether one of the first `n` entries is the first that tells of the port of `p`.
pub open spec fn told(entries: Seq<Option<RemotePortView>>, n: int, p: RemotePortView) -> bool {
    exists|i: int| 0 <= i < n && #[trigger] first_telling(entries, i, p)
}

/// Whether `v` lists `port`.
pub open spec fn lists(v: Seq<RemotePortView>, port: u16) -> bool {
    exists|k: int| 0 <= k < v.len() && (#[trigger] v[k]).port == port
}

/// Whether the ports of `v` rise from each to the next.
pub open spec fn rising(v: Seq<RemotePortView>) -> bool {
    forall|i: int, j: int| 0 <= i < j < v.len() ==> (#[trigger] v[i]).port < (#[trigger] v[j]).port
}

/// Whether `v` is what the first `n` entries tell: every port that one of them tells of,
/// once, in rising order, with the process that the first such entry names.
pub open spec fn told_by(
    v: Seq<RemotePortView>,
    entries: Seq<Option<RemotePortView>>,
    n: int,
) -> bool {
    &&& rising(v)
    &&& forall|k: int| 0 <= k < v.len() ==> told(entries, n, #[trigger] v[k])
    &&& forall|i: int|
        0 <= i < n && (#[trigger] entries[i]) is Some ==> lists(v, entries[i]->0.port)
}

/// Whether `v` is what a whole listing tells.
pub open spec fn listed(v: Seq<RemotePortView>, output: Seq<char>) -> bool {
    told_by(v, entries(output), entries(output).len() as int)
}

// ---------- Reading a listing ----------

/// The name of the process that a line of a listing speaks of.
pub fn extract_process(line: &str) -> (name: String)
    ensures
        name@ == process_of(line@),
{
    let chars = chars_of(line);
    process_in(chars.as_slice())
}

fn process_in(line: &[char]) -> (name: String)
    ensures
        name@ == process_of(line@),
{
    proof {
        reveal_strlit("((\"");
        reveal_strlit("LISTEN");
    }
    let len: usize = line.len();
    if let Some(i) = find_str(line, "((\"") {
        let rest: &[char] = slice_subrange(line, i + 3, len);
        assert(rest@ == line@.skip(i + 3));
        let end: usize = find_char(rest, '"');
        if end < rest.len() {
            assert(rest@.subrange(0, end as int) == rest@.take(end as int));
            return string_of(slice_subrange(rest, 0, end));
        }
    }
    if let Some(i) = find_str(line, "LISTEN") {
        let after: &[char] = slice_subrange(line, i + 6, len);
        assert(after@ == line@.skip(i + 6));
        let tail: &[char] = trimmed(after);
        let slash: usize = find_char(tail, '/');
        if slash < tail.len() {
            let name: &[char] = slice_subrange(tail, slash + 1, tail.len());
            assert(name@ == tail@.skip(slash + 1));
            let n: usize = count_alnum(name);
            assert(name@.subrange(0, n as int) == name@.take(n as int));
            return string_of(slice_subrange(name, 0, n));
        }
    }
    String::new()
}

fn port_in(line: &[char]) -> (r: Option<u16>)
    ensures
        match r {
            Some(p) => port_of(line@) == Some(p as nat),
            None => port_of(line@) is None,
        },
{
    let w = split_words(line);
    if w.len() <= 3 {
        assert(texts(w@).len() <= 3);
        return None;
    }
    let local: &[char] = w[3];
    let len: usize = local.len();
    assert(texts(w@)[3] == local@);
    match rfind_char(local, ':') {
        None => None,
        Some(i) => {
            let rest: &[char] = slice_subrange(local, i + 1, len);
            assert(rest@ == local@.skip(i + 1));
            let n: usize = count_digits(rest);
            assert(rest@.subrange(0, n as int) == rest@.take(n as int));
            match parse_unsigned(slice_subrange(rest, 0, n), 65535) {
                Some(p) => Some(p as u16),
                None => None,
            }
        },
    }
}

fn entry_in(line: &[char]) -> (r: Option<RemotePort>)
    ensures
        match r {
            Some(p) => entry_of(line@) == Some(p@),
            None => entry_of(line@) is None,
        },
{
    if find_str(line, "LISTEN").is_none() {
        return None;
    }
    match port_in(line) {
        Some(port) => if port > 0 {
            Some(RemotePort { port, process: process_in(line) })
        } else {
            None
        },
        None => None,
    }
}

/// How many ports of the rising list `v` lie below `port`.
fn place(v: &Vec<RemotePort>, port: u16) -> (n: usize)
    requires
        rising(port_views(v@)),
    ensures
        n <= v@.len(),
        forall|k: int| 0 <= k < n ==> (#[trigger] v@[k]).port < port,
        forall|k: int| n <= k < v@.len() ==> (#[trigger] v@[k]).port >= port,
{
    let mut n: usize = 0;
    while n < v.len() && v[n].port < port
        invariant
            n <= v@.len(),
            forall|k: int| 0 <= k < n ==> (#[trigger] v@[k]).port < port,
        decreases v@.len() - n,
    {
        n = n + 1;
    }
    assert forall|k: int| n <= k < v@.len() implies (#[trigger] v@[k]).port >= port by {
        if n < k {
            assert(port_views(v@)[n as int].port < port_views(v@)[k].port);
        }
    }
    n
}

/// The listening ports that the output of `ss -tln` or `netstat -tln` tells of: each once,
/// in rising order, with the process that the first line on it names.
pub fn parse_listen_ports(output: &str) -> (ports: Vec<RemotePort>)
    ensures
        listed(port_views(ports@), output@),
{
    let chars = chars_of(output);
    let rows = split_lines(chars.as_slice());
    let mut ports: Vec<RemotePort> = Vec::new();
    let ghost es = entries(output@);
    assert(texts(rows@).len() == rows@.len());
    for r in 0..rows.len()
        invariant
            texts(rows@) == lines(output@),
            texts(rows@).len() == rows@.len(),
            es == entries(output@),
            es.len() == rows@.len(),
            told_by(port_views(ports@), es, r as int),
    {
        let line: &[char] = trimmed(rows[r]);
        assert(texts(rows@)[r as int] == rows@[r as int]@);
        assert(es[r as int] == entry_of(line@));
        let ghost old_ports = ports@;
        let ghost old_view = port_views(ports@);
        if let Some(p) = entry_in(line) {
            let n: usize = place(&ports, p.port);
            if n < ports.len() && ports[n].port == p.port {
                assert(old_view[n as int].port == p.port);
                proof {
                    lemma_keep(old_view, es, r as int);
                }
            } else {
                let ghost pv = p@;
                ports.insert(n, p);
                proof {
                    assert(port_views(ports@) =~= old_view.insert(n as int, pv));
                    assert forall|k: int| 0 <= k < n implies (#[trigger] old_view[k]).port
                        < pv.port by {
                        assert(old_view[k].port == old_ports[k].port);
                    }
                    assert forall|k: int| n <= k < old_view.len() implies (#[trigger] old_view[k]).port
                        > pv.port by {
                        assert(old_view[k].port == old_ports[k].port);
                        if n < k {
                            assert(old_view[n as int].port < old_view[k].port);
                        }
                    }
                    lemma_insert(old_view, es, r as int, n as int, pv);
                }
            }
        } else {
            proof {
                lemma_keep(old_view, es, r as int);
            }
        }
    }
    ports
}

/// An entry that tells of no port, or of one already there, changes nothing.
proof fn lemma_keep(v: Seq<RemotePortView>, entries: Seq<Option<RemotePortView>>, n: int)
    requires
        told_by(v, entries, n),
        0 <= n < entries.len(),
        entries[n] is Some ==> lists(v, entries[n]->0.port),
    ensures
        told_by(v, entries, n + 1),
{
    assert forall|k: int| 0 <= k < v.len() implies told(entries, n + 1, #[trigger] v[k]) by {
        assert(told(entries, n, v[k]));
        let i = choose|i: int| 0 <= i < n && #[trigger] first_telling(entries, i, v[k]);
        assert(first_telling(entries, i, v[k]));
    }
}

/// An entry that tells of a new port adds it in its place.
proof fn lemma_insert(
    v: Seq<RemotePortView>,
    entries: Seq<Option<RemotePortView>>,
    n: int,
    at: int,
    p: RemotePortView,
)
    requires
        told_by(v, entries, n),
        0 <= n < entries.len(),
        0 <= at <= v.len(),
        entries[n] == Some(p),
        forall|k: int| 0 <= k < at ==> (#[trigger] v[k]).port < p.port,
        forall|k: int| at <= k < v.len() ==> (#[trigger] v[k]).port > p.port,
    ensures
        told_by(v.insert(at, p), entries, n + 1),
{
    let w = v.insert(at, p);
    assert(first_telling(entries, n, p)) by {
        assert forall|j: int| 0 <= j < n && (#[trigger] entries[j]) is Some implies entries[j]->0.port
            != p.port by {
            assert(lists(v, entries[j]->0.port));
            let k = choose|k: int| 0 <= k < v.len() && (#[trigger] v[k]).port == entries[j]->0.port;
            assert(v[k].port != p.port);
        }
    }
    assert forall|k: int| 0 <= k < w.len() implies told(entries, n + 1, #[trigger] w[k]) by {
        if k == at {
            assert(first_telling(entries, n, w[k]));
        } else {
            let m = if k < at {
                k
            } else {
                k - 1
            };
            assert(w[k] == v[m]);
            assert(told(entries, n, v[m]));
            let i = choose|i: int| 0 <= i < n && #[trigger] first_telling(entries, i, v[m]);
            assert(first_telling(entries, i, w[k]));
        }
    }
    assert forall|i: int| 0 <= i < n + 1 && (#[trigger] entries[i]) is Some implies lists(
        w,
        entries[i]->0.port,
    ) by {
        if i == n {
            assert(w[at].port == p.port);
        } else {
            assert(lists(v, entries[i]->0.port));
            let k = choose|k: int| 0 <= k < v.len() && (#[trigger] v[k]).port == entries[i]->0.port;
            let m = if k < at {
                k
            } else {
                k + 1
            };
            assert(w[m] == v[k]);
        }
    }
}

/// Whether a line holds the word `LISTEN` and names `port` in its fourth word.
pub open spec fn tells_listening(line: Seq<char>, port: u16) -> bool {
    find_text(line, "LISTEN"@) is Some && port_of(line) == Some(port as nat)
}

/// Whether some line of a listing holds the word `LISTEN` and names `port`.
pub open spec fn stands_in(output: Seq<char>, port: u16) -> bool {
    exists|i: int|
        0 <= i < lines(output).len() && #[trigger] tells_listening(trim(lines(output)[i]), port)
}

/// A listing tells of no port twice and of no port zero, and each port that it tells of
/// stands in a line with the word `LISTEN`.
pub proof fn lemma_listed_ports(v: Seq<RemotePortView>, output: Seq<char>)
    requires
        listed(v, output),
    ensures
        forall|i: int, j: int|
            0 <= i < v.len() && 0 <= j < v.len() && i != j ==> (#[trigger] v[i]).port != (
            #[trigger] v[j]).port,
        forall|k: int| 0 <= k < v.len() ==> (#[trigger] v[k]).port > 0,
        forall|k: int| 0 <= k < v.len() ==> stands_in(output, (#[trigger] v[k]).port),
{
    let es = entries(output);
    assert forall|k: int| 0 <= k < v.len() implies (#[trigger] v[k]).port > 0 && stands_in(
        output,
        v[k].port,
    ) by {
        assert(told(es, es.len() as int, v[k]));
        let i = choose|i: int| 0 <= i < es.len() && #[trigger] first_telling(es, i, v[k]);
        assert(es[i] == entry_of(trim(lines(output)[i])));
        assert(tells_listening(trim(lines(output)[i]), v[k].port));
    }
    assert forall|i: int, j: int|
        0 <= i < v.len() && 0 <= j < v.len() && i != j implies (#[trigger] v[i]).port != (
    #[trigger] v[j]).port by {
        if i < j {
            assert(v[i].port < v[j].port);
        } else {
            assert(v[j].port < v[i].port);
        }
    }
}

/// A listing determines the ports that it tells of: there is one answer only.
pub proof fn lemma_listed_unique(v: Seq<RemotePortView>, w: Seq<RemotePortView>, output: Seq<char>)
    requires
        listed(v, output),
        listed(w, output),
    ensures
        v == w,
{
    let es = entries(output);
    lemma_told_unique(v, w, es);
}

/// What some entries tell is unique.
proof fn lemma_told_unique(
    v: Seq<RemotePortView>,
    w: Seq<RemotePortView>,
    es: Seq<Option<RemotePortView>>,
)
    requires
        told_by(v, es, es.len() as int),
        told_by(w, es, es.len() as int),
    ensures
        v == w,
{
    if v.len() < w.len() {
        let _ = lemma_told_at(w, v, es, v.len() as int);
    } else if w.len() < v.len() {
        let _ = lemma_told_at(v, w, es, w.len() as int);
    }
    assert forall|k: int| 0 <= k < v.len() implies v[k] == w[k] by {
        let j = lemma_told_at(v, w, es, k);
        let m = lemma_told_at(w, v, es, k);
        if k < j {
            assert(w[k].port < w[j].port);
            if k < m {
                assert(v[k].port < v[m].port);
            }
        }
    }
    assert(v =~= w);
}

/// An element of one answer stands in the other, no earlier.
proof fn lemma_told_at(
    v: Seq<RemotePortView>,
    w: Seq<RemotePortView>,
    es: Seq<Option<RemotePortView>>,
    k: int,
) -> (j: int)
    requires
        told_by(v, es, es.len() as int),
        told_by(w, es, es.len() as int),
        0 <= k < v.len(),
    ensures
        k <= j < w.len(),
        w[j] == v[k],
    decreases k,
{
    assert(told(es, es.len() as int, v[k]));
    let i = choose|i: int| 0 <= i < es.len() && #[trigger] first_telling(es, i, v[k]);
    assert(lists(w, es[i]->0.port));
    let j = choose|j: int| 0 <= j < w.len() && (#[trigger] w[j]).port == v[k].port;
    assert(told(es, es.len() as int, w[j]));
    let i2 = choose|i: int| 0 <= i < es.len() && #[trigger] first_telling(es, i, w[j]);
    assert(es[i] == Some(v[k]));
    assert(es[i2] == Some(w[j]));
    assert(i == i2);
    if k > 0 {
        let before = lemma_told_at(v, w, es, k - 1);
        assert(v[k - 1].port < v[k].port);
        if j <= before {
            if j < before {
                assert(w[j].port < w[before].port);
            }
        }
    }
    j
}

// ---------- Collecting a listing ----------

/// What arrives on the channel on which the remote command runs.
pub enum ChannelEvent {
    /// Bytes of its standard output.
    Data(Vec<u8>),
    /// Bytes of its standard error.
    ExtendedData(Vec<u8>),
    /// The end of its output.
    Eof,
    /// Anything else.
    Other,
    /// The channel is gone.
    Closed,
}

impl ChannelEvent {
    /// The bytes that an event brings.
    pub open spec fn bytes(self) -> Seq<u8> {
        match self {
            ChannelEvent::Data(data) => data@,
            ChannelEvent::ExtendedData(data) => data@,
            _ => Seq::empty(),
        }
    }

    /// Whether nothing is waited for after this event.
    pub open spec fn ends(self) -> bool {
        self is Eof || self is Closed
    }
}

/// The command that lists the listening ports of a remote host.
pub fn scan_command() -> (s: &'static str)
    ensures
        s@ == "ss -tln 2>/dev/null || netstat -tln 2>/dev/null"@,
{
    "ss -tln 2>/dev/null || netstat -tln 2>/dev/null"
}

/// A listing that is being collected.
pub struct PortScan {
    pub output: Vec<u8>,
    pub done: bool,
}

impl PortScan {
    /// A listing of which nothing has arrived.
    pub fn new() -> (r: PortScan)
        ensures
            r.output@.len() == 0,
            !r.done,
    {
        PortScan { output: Vec::new(), done: false }
    }

    /// Takes in what the channel brings: both streams are collected in the order in which
    /// they arrive, until the output ends or the channel is gone.
    pub fn receive(&mut self, event: ChannelEvent)
        requires
            !old(self).done,
        ensures
            final(self).output@ == old(self).output@ + event.bytes(),
            final(self).done == event.ends(),
    {
        match event {
            ChannelEvent::Data(mut data) => {
                self.output.append(&mut data);
            },
            ChannelEvent::ExtendedData(mut data) => {
                self.output.append(&mut data);
            },
            ChannelEvent::Eof => {
                self.done = true;
            },
            ChannelEvent::Closed => {
                self.done = true;
            },
            ChannelEvent::Other => {},
        }
        assert(self.output@ =~= old(self).output@ + event.bytes());
    }

    /// The ports that the collected listing tells of. Bytes that are no text count as
    /// replacement characters.
    pub fn ports(&self) -> (ports: Vec<RemotePort>)
        ensures
            listed(port_views(ports@), utf8_lossy(self.output@)),
    {
        let text = decode(self.output.as_slice());
        parse_listen_ports(text.as_str())
    }
}

/// The text that `String::from_utf8_lossy` reads in some bytes.
pub uninterp spec fn utf8_lossy(bytes: Seq<u8>) -> Seq<char>;

/// `String::from_utf8_lossy`: the text of the bytes, with replacement characters for what is
/// not UTF-8. Of bytes that are UTF-8 it is the text that they encode.
#[verifier::external_body]
fn decode(bytes: &[u8]) -> (s: String)
    ensures
        s@ == utf8_lossy(bytes@),
        valid_utf8(bytes@) ==> encode_utf8(s@) == bytes@,
{
    String::from_utf8_lossy(bytes).into_owned()
}

} // verus!
