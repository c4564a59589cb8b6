//! What holds of the listening ports that are read in a listing.

use vstd::prelude::*;

use crate::ports::entries;
use crate::ports::entry_of;
use crate::ports::first_telling;
use crate::ports::listed;
use crate::ports::lists;
use crate::ports::port_of;
use crate::ports::process_of;
use crate::ports::quoted_process;
use crate::ports::told;
use crate::ports::RemotePortView;
use crate::text::dec;
use crate::text::find;
use crate::text::find_text;
use crate::text::is_alnum;
use crate::text::is_digit;
use crate::text::is_white;
use crate::text::lemma_dec_round_trip;
use crate::text::lemma_dec_value;
use crate::text::lemma_find;
use crate::text::lemma_rfind;
use crate::text::lines;
use crate::text::rfind;
use crate::text::trim;
use crate::text::unsigned;
use crate::text::words;
use crate::text_laws::all_white;
use crate::text_laws::lemma_find_text;
use crate::text_laws::lemma_line_within;
use crate::text_laws::lemma_runs;
use crate::text_laws::lemma_trim;
use crate::text_laws::lemma_words;
use crate::text_laws::one_word;
use crate::text_laws::stands_at;

verus! {

/// A line of a listing: three words, an address with a port, and what follows, with white
/// space between them.
pub struct ListingLine {
    pub first: Seq<char>,
    pub gap1: Seq<char>,
    pub second: Seq<char>,
    pub gap2: Seq<char>,
    pub third: Seq<char>,
    pub gap3: Seq<char>,
    /// In whatever form, colons allowed.
    pub address: Seq<char>,
    pub port: nat,
    pub rest: Seq<char>,
}

/// Whether a text is white space, and not empty.
pub open spec fn gap(s: Seq<char>) -> bool {
    s.len() > 0 && all_white(s)
}

impl ListingLine {
    /// Whether the pieces are what they are meant to be.
    pub open spec fn proper(self) -> bool {
        &&& one_word(self.first) && gap(self.gap1)
        &&& one_word(self.second) && gap(self.gap2)
        &&& one_word(self.third) && gap(self.gap3)
        &&& forall|i: int| 0 <= i < self.address.len() ==> !is_white(#[trigger] self.address[i])
        &&& self.rest.len() == 0 || (is_white(self.rest[0]) && !is_white(self.rest.last()))
    }

    /// The address and the port, with a colon between them.
    pub open spec fn local(self) -> Seq<char> {
        self.address + seq![':'] + dec(self.port)
    }

    /// The line itself.
    pub open spec fn text(self) -> Seq<char> {
        self.first + (self.gap1 + self.second + (self.gap2 + self.third + (self.gap3 + self.local()
            + self.rest)))
    }
}

proof fn lemma_local_word(line: ListingLine)
    requires
        line.proper(),
    ensures
        one_word(line.local()),
{
    lemma_dec_value(line.port);
    let local = line.local();
    let n = line.address.len();
    assert forall|i: int| 0 <= i < local.len() implies !is_white(#[trigger] local[i]) by {
        if i < n {
            assert(local[i] == line.address[i]);
        } else if i > n {
            assert(local[i] == dec(line.port)[i - n - 1]);
            assert(is_digit(dec(line.port)[i - n - 1]));
        }
    }
}

/// The fourth word of such a line is the address with its port.
proof fn lemma_fourth_word(line: ListingLine)
    requires
        line.proper(),
    ensures
        words(line.text()).len() >= 4,
        words(line.text())[3] == line.local(),
{
    lemma_local_word(line);
    let none = Seq::<char>::empty();
    let d = line.rest;
    let c = line.gap3 + line.local() + d;
    let b = line.gap2 + line.third + c;
    let a = line.gap1 + line.second + b;
    assert(a[0] == line.gap1[0]);
    assert(b[0] == line.gap2[0]);
    assert(c[0] == line.gap3[0]);
    lemma_words(none, line.first, a);
    assert(none + line.first + a =~= line.text());
    lemma_words(line.gap1, line.second, b);
    lemma_words(line.gap2, line.third, c);
    lemma_words(line.gap3, line.local(), d);
    assert(words(line.text()) == seq![line.first] + (seq![line.second] + (seq![line.third] + (
    seq![line.local()] + words(d)))));
}

/// The port of such a line is the number behind the last colon of its fourth word.
proof fn lemma_port_of_line(line: ListingLine)
    requires
        line.proper(),
        line.port <= 65535,
    ensures
        port_of(line.text()) == Some(line.port),
{
    lemma_fourth_word(line);
    let local = line.local();
    let digits = dec(line.port);
    let n = line.address.len() as int;
    lemma_dec_value(line.port);
    assert(local[n] == ':');
    assert forall|j: int| n < j < local.len() implies #[trigger] local[j] != ':' by {
        assert(local[j] == digits[j - n - 1]);
        assert(is_digit(digits[j - n - 1]));
    }
    lemma_rfind(local, ':', n);
    assert(local.skip(n + 1) =~= digits);
    lemma_runs(digits, Seq::empty());
    assert(digits + Seq::<char>::empty() =~= digits);
    assert(digits.take(digits.len() as int) =~= digits);
    lemma_dec_round_trip(line.port, u16::MAX as nat);
}

proof fn lemma_text_ends(line: ListingLine)
    requires
        line.proper(),
    ensures
        line.text().len() > 0,
        !is_white(line.text()[0]),
        !is_white(line.text().last()),
{
    lemma_local_word(line);
    let t = line.text();
    assert(t[0] == line.first[0]);
    let local = line.local();
    if line.rest.len() > 0 {
        assert(t.last() == line.rest.last());
    } else {
        assert(t.last() == local[local.len() - 1]);
    }
}

/// Every port that a line with `LISTEN` in it gives behind an address, as `ss` and `netstat`
/// write it, is listed, whatever the address, and wherever in the listing the line stands.
pub proof fn lemma_listening_port_found(
    v: Seq<RemotePortView>,
    before: Seq<char>,
    indent: Seq<char>,
    line: ListingLine,
    trail: Seq<char>,
    after: Seq<char>,
    state: int,
)
    requires
        listed(v, before + (indent + line.text() + trail) + after),
        before.len() == 0 || before.last() == '\n',
        after.len() == 0 || after[0] == '\n',
        forall|i: int|
            0 <= i < (indent + line.text() + trail).len() ==> #[trigger] (indent + line.text()
                + trail)[i] != '\n',
        all_white(indent),
        all_white(trail),
        line.proper(),
        1 <= line.port <= 65535,
        stands_at(line.text(), "LISTEN"@, state),
    ensures
        exists|k: int| 0 <= k < v.len() && (#[trigger] v[k]).port == line.port,
{
    let whole = indent + line.text() + trail;
    let output = before + whole + after;
    let i = lemma_line_within(before, whole, after);
    lemma_text_ends(line);
    lemma_trim(indent, line.text(), trail);
    lemma_port_of_line(line);
    reveal_strlit("LISTEN");
    lemma_find_text(line.text(), "LISTEN"@);
    let es = entries(output);
    assert(es[i] == entry_of(trim(lines(output)[i])));
    assert(es[i] is Some && es[i]->0.port == line.port);
    assert(lists(v, es[i]->0.port));
}

/// Whether a trimmed line has `LISTEN` in it, and a fourth word whose digits behind its last
/// colon write that number.
pub open spec fn gives_port(line: Seq<char>, port: u16) -> bool {
    &&& exists|at: int| #[trigger] stands_at(line, "LISTEN"@, at)
    &&& words(line).len() >= 4
    &&& exists|colon: int| #[trigger] port_behind(words(line)[3], colon, port)
}

/// Whether the last colon of a word stands there, and the digits right behind it write that
/// number.
pub open spec fn port_behind(word: Seq<char>, colon: int, port: u16) -> bool {
    &&& 0 <= colon < word.len()
    &&& word[colon] == ':'
    &&& forall|j: int| colon < j < word.len() ==> #[trigger] word[j] != ':'
    &&& exists|end: int| #[trigger] digits_write(word, colon + 1, end, port)
}

/// Whether the digits from `start` on end there, and write that number.
pub open spec fn digits_write(word: Seq<char>, start: int, end: int, port: u16) -> bool {
    &&& start < end <= word.len()
    &&& forall|j: int| start <= j < end ==> is_digit(#[trigger] word[j])
    &&& end < word.len() ==> !is_digit(word[end])
    &&& crate::text::value(word.subrange(start, end)) == port
}

proof fn lemma_gives_port(line: Seq<char>)
    requires
        entry_of(line) is Some,
    ensures
        gives_port(line, entry_of(line)->0.port),
        entry_of(line)->0.process == process_of(line),
{
    let p = entry_of(line)->0;
    reveal_strlit("LISTEN");
    lemma_find_text(line, "LISTEN"@);
    let at = find_text(line, "LISTEN"@)->0;
    assert(stands_at(line, "LISTEN"@, at));
    let local = words(line)[3];
    lemma_last_colon(local);
    let colon = rfind(local, ':')->0;
    let rest = local.skip(colon + 1);
    let stop = |x: char| !is_digit(x);
    crate::text::lemma_run_bounds(rest, stop);
    let n = crate::text::digit_run(rest);
    let digits = rest.take(n);
    let end = colon + 1 + n;
    assert(local.subrange(colon + 1, end) =~= digits);
    assert forall|j: int| colon + 1 <= j < end implies is_digit(#[trigger] local[j]) by {
        assert(rest[j - colon - 1] == local[j]);
        assert(!stop(rest[j - colon - 1]));
    }
    if end < local.len() {
        assert(rest[n] == local[end]);
        assert(stop(rest[n]));
    }
    assert(n > 0 ==> digits[0] == rest[0] && is_digit(digits[0])) by {
        if n > 0 {
            assert(!stop(rest[0]));
        }
    }
    assert(digits_write(local, colon + 1, end, p.port));
    assert(port_behind(local, colon, p.port));
}

proof fn lemma_last_colon(s: Seq<char>)
    ensures
        match rfind(s, ':') {
            Some(n) => 0 <= n < s.len() && s[n] == ':' && forall|j: int|
                n < j < s.len() ==> #[trigger] s[j] != ':',
            None => forall|j: int| 0 <= j < s.len() ==> #[trigger] s[j] != ':',
        },
    decreases s.len(),
{
    if s.len() > 0 && s.last() != ':' {
        let t = s.drop_last();
        lemma_last_colon(t);
        assert forall|j: int| 0 <= j < s.len() - 1 implies #[trigger] s[j] == t[j] by {}
    }
}

/// Nothing else is listed: each port is given by a line of the listing, none is zero, they
/// rise, and each has the process that the first line on it names.
pub proof fn lemma_only_listening_ports(v: Seq<RemotePortView>, output: Seq<char>)
    requires
        listed(v, output),
    ensures
        forall|i: int, j: int|
            0 <= i < j < v.len() ==> (#[trigger] v[i]).port < (#[trigger] v[j]).port,
        forall|k: int|
            0 <= k < v.len() ==> (#[trigger] v[k]).port > 0 && exists|i: int| #[trigger]
                first_line_on(output, i, v[k]),
{
    let es = entries(output);
    assert forall|k: int| 0 <= k < v.len() implies (#[trigger] v[k]).port > 0 && exists|i: int|
     #[trigger]
        first_line_on(output, i, v[k]) by {
        assert(told(es, es.len() as int, v[k]));
        let i = choose|i: int| 0 <= i < es.len() && #[trigger] first_telling(es, i, v[k]);
        assert(es[i] == entry_of(trim(lines(output)[i])));
        lemma_gives_port(trim(lines(output)[i]));
        assert forall|j: int| 0 <= j < i implies !(gives_port(
            trim(#[trigger] lines(output)[j]),
            v[k].port,
        )) by {
            assert(es[j] == entry_of(trim(lines(output)[j])));
            if gives_port(trim(lines(output)[j]), v[k].port) {
                lemma_given_is_told(trim(lines(output)[j]), v[k].port);
            }
        }
        assert(first_line_on(output, i, v[k]));
    }
}

/// Whether a line of a listing is the first that gives a port, and names its process.
pub open spec fn first_line_on(output: Seq<char>, i: int, p: RemotePortView) -> bool {
    &&& 0 <= i < lines(output).len()
    &&& gives_port(trim(lines(output)[i]), p.port)
    &&& p.process == process_of(trim(lines(output)[i]))
    &&& forall|j: int| 0 <= j < i ==> !gives_port(trim(#[trigger] lines(output)[j]), p.port)
}

proof fn lemma_given_is_told(line: Seq<char>, port: u16)
    requires
        gives_port(line, port),
        port > 0,
    ensures
        entry_of(line) is Some,
        entry_of(line)->0.port == port,
{
    reveal_strlit("LISTEN");
    lemma_find_text(line, "LISTEN"@);
    let local = words(line)[3];
    let colon = choose|colon: int| #[trigger] port_behind(local, colon, port);
    let end = choose|end: int| #[trigger] digits_write(local, colon + 1, end, port);
    lemma_rfind(local, ':', colon);
    let rest = local.skip(colon + 1);
    let n = end - colon - 1;
    let digits = rest.take(n);
    assert(digits =~= local.subrange(colon + 1, end));
    assert forall|j: int| 0 <= j < digits.len() implies is_digit(#[trigger] digits[j]) by {
        assert(digits[j] == local[colon + 1 + j]);
    }
    if n < rest.len() {
        assert(rest[n] == local[end]);
        assert(rest.skip(n)[0] == local[end]);
    }
    lemma_runs(digits, rest.skip(n));
    assert(digits + rest.skip(n) =~= rest);
    assert(is_digit(digits[0]));
    assert(unsigned(digits, u16::MAX as nat) == Some(port as nat));
}

// ---------- Processes ----------

/// The name that `ss` puts between quotes behind two brackets is the name of the process.
pub proof fn lemma_ss_process(before: Seq<char>, name: Seq<char>, after: Seq<char>)
    requires
        forall|i: int|
            i < before.len() ==> !(#[trigger] stands_at(
                before + "((\""@ + name + seq!['"'] + after,
                "((\""@,
                i,
            )),
        forall|i: int| 0 <= i < name.len() ==> #[trigger] name[i] != '"',
    ensures
        process_of(before + "((\""@ + name + seq!['"'] + after) == name,
{
    let mark = "((\""@;
    let line = before + mark + name + seq!['"'] + after;
    reveal_strlit("((\"");
    lemma_find_text(line, mark);
    assert(stands_at(line, mark, before.len() as int));
    assert(find_text(line, mark) == Some(before.len() as int));
    let rest = line.skip(before.len() as int + 3);
    assert(rest =~= name + seq!['"'] + after);
    assert forall|j: int| 0 <= j < name.len() implies #[trigger] rest[j] != '"' by {
        assert(rest[j] == name[j]);
    }
    assert(rest[name.len() as int] == '"');
    lemma_find(rest, '"', name.len() as int);
    assert(rest.take(name.len() as int) =~= name);
}

/// The name that `netstat` puts behind the state, the number of the process and a slash is the
/// name of the process, as far as it is letters and digits.
pub proof fn lemma_netstat_process(
    before: Seq<char>,
    space: Seq<char>,
    number: Seq<char>,
    name: Seq<char>,
    after: Seq<char>,
)
    requires
        forall|i: int|
            !(#[trigger] stands_at(
                before + "LISTEN"@ + space + number + seq!['/'] + name
                    + after,
                "((\""@,
                i,
            )),
        forall|i: int|
            i < before.len() ==> !(#[trigger] stands_at(
                before + "LISTEN"@ + space + number + seq!['/'] + name
                    + after,
                "LISTEN"@,
                i,
            )),
        all_white(space),
        one_word(number),
        forall|i: int| 0 <= i < number.len() ==> #[trigger] number[i] != '/',
        name.len() > 0,
        forall|i: int| 0 <= i < name.len() ==> is_alnum(#[trigger] name[i]),
        after.len() > 0 ==> !is_alnum(after[0]) && !is_white(after.last()),
    ensures
        process_of(
            before + "LISTEN"@ + space + number + seq!['/'] + name + after,
        ) == name,
{
    let state = "LISTEN"@;
    let mark = "((\""@;
    let line = before + state + space + number + seq!['/'] + name + after;
    reveal_strlit("LISTEN");
    reveal_strlit("((\"");
    lemma_find_text(line, mark);
    assert(quoted_process(line) is None);
    lemma_find_text(line, state);
    assert(stands_at(line, state, before.len() as int));
    assert(find_text(line, state) == Some(before.len() as int));
    let core = number + seq!['/'] + name + after;
    let behind = line.skip(before.len() as int + 6);
    assert(behind =~= space + core + Seq::<char>::empty());
    assert(core[0] == number[0]);
    assert(!is_white(core.last())) by {
        if after.len() > 0 {
            assert(core.last() == after.last());
        } else {
            assert(core.last() == name[name.len() - 1]);
            assert(is_alnum(name[name.len() - 1]));
        }
    }
    lemma_trim(space, core, Seq::empty());
    assert forall|j: int| 0 <= j < number.len() implies #[trigger] core[j] != '/' by {
        assert(core[j] == number[j]);
    }
    assert(core[number.len() as int] == '/');
    lemma_find(core, '/', number.len() as int);
    let tail = core.skip(number.len() as int + 1);
    assert(tail =~= name + after);
    lemma_runs(name, after);
    assert(tail.take(name.len() as int) =~= name);
    assert(find(core, '/') == number.len());
}

} // verus!
