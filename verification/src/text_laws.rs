//! What holds of texts, their words, lines and numbers.

use vstd::prelude::*;

use crate::text::all_digits;
use crate::text::alnum_run;
use crate::text::dec;
use crate::text::digit_run;
use crate::text::find;
use crate::text::find_from;
use crate::text::find_text;
use crate::text::is_alnum;
use crate::text::is_digit;
use crate::text::is_white;
use crate::text::lemma_dec_value;
use crate::text::lemma_find;
use crate::text::lemma_run_length;
use crate::text::lines;
use crate::text::occurs_at;
use crate::text::trim;
use crate::text::trim_end;
use crate::text::trim_start;
use crate::text::unsigned;
use crate::text::value;
use crate::text::white_run;
use crate::text::word_run;
use crate::text::words;

verus! {

// ---------- Characters ----------

/// White space in ASCII is the blank and the controls from the tab to the carriage return;
/// beyond ASCII it is what Unicode says.
pub proof fn lemma_white(c: char)
    ensures
        (c as int) < 0x80 ==> (is_white(c) <==> c == ' ' || '\t' <= c <= '\r'),
        (c as int) >= 0x80 ==> (is_white(c) <==> set![
            0x85int, 0xa0, 0x1680, 0x2000, 0x2001, 0x2002, 0x2003, 0x2004, 0x2005, 0x2006, 0x2007,
            0x2008, 0x2009, 0x200a, 0x2028, 0x2029, 0x202f, 0x205f, 0x3000,
        ].contains(c as int)),
        is_digit(c) <==> 0x30 <= c as int <= 0x39,
        is_alnum(c) <==> 0x30 <= c as int <= 0x39 || 0x41 <= c as int <= 0x5a || 0x61 <= c as int
            <= 0x7a,
{
}

/// Whether every character of a text is white.
pub open spec fn all_white(s: Seq<char>) -> bool {
    forall|i: int| 0 <= i < s.len() ==> is_white(#[trigger] s[i])
}

/// Whether a text is one word: it is not empty, and no character of it is white.
pub open spec fn one_word(s: Seq<char>) -> bool {
    s.len() > 0 && forall|i: int| 0 <= i < s.len() ==> !is_white(#[trigger] s[i])
}

// ---------- Trimming ----------

proof fn lemma_trim_end(core: Seq<char>, after: Seq<char>)
    requires
        core.len() > 0 ==> !is_white(core.last()),
        all_white(after),
    ensures
        trim_end(core + after) == core,
    decreases after.len(),
{
    let s = core + after;
    if after.len() > 0 {
        assert(is_white(after[after.len() - 1]));
        assert(s.last() == after.last());
        assert(s.drop_last() =~= core + after.drop_last());
        assert forall|i: int| 0 <= i < after.drop_last().len() implies is_white(
            #[trigger] after.drop_last()[i],
        ) by {
            assert(after.drop_last()[i] == after[i]);
        }
        lemma_trim_end(core, after.drop_last());
    } else {
        assert(s =~= core);
    }
}

proof fn lemma_trim_start(before: Seq<char>, core: Seq<char>)
    requires
        all_white(before),
        core.len() > 0 ==> !is_white(core[0]),
    ensures
        trim_start(before + core) == core,
{
    let s = before + core;
    assert forall|j: int| 0 <= j < before.len() implies is_white(#[trigger] s[j]) by {
        assert(s[j] == before[j]);
    }
    lemma_run_length(s, |x: char| !is_white(x), before.len() as int);
    assert(white_run(s) == before.len());
    assert(s.skip(before.len() as int) =~= core);
}

/// Trimming takes the white characters from both ends of a text and nothing else.
pub proof fn lemma_trim(before: Seq<char>, core: Seq<char>, after: Seq<char>)
    requires
        all_white(before),
        all_white(after),
        core.len() > 0 ==> !is_white(core[0]) && !is_white(core.last()),
    ensures
        trim(before + core + after) == core,
{
    if core.len() > 0 {
        assert(before + core + after =~= before + (core + after));
        lemma_trim_start(before, core + after);
        lemma_trim_end(core, after);
    } else {
        let s = before + core + after;
        assert(s =~= (before + after) + Seq::<char>::empty());
        assert(all_white(before + after)) by {
            assert forall|i: int| 0 <= i < (before + after).len() implies is_white(
                #[trigger] (before + after)[i],
            ) by {
                if i < before.len() {
                    assert(is_white(before[i]));
                } else {
                    assert(is_white(after[i - before.len()]));
                }
            }
        }
        lemma_trim_start(before + after, Seq::empty());
        assert(core =~= Seq::empty());
    }
}

// ---------- Words ----------

/// The words of a text are what stands between its white characters: the first one, and those
/// of what follows it.
pub proof fn lemma_words(before: Seq<char>, word: Seq<char>, rest: Seq<char>)
    requires
        all_white(before),
        one_word(word),
        rest.len() > 0 ==> is_white(rest[0]),
    ensures
        words(before + word + rest) == seq![word] + words(rest),
        words(before) == Seq::<Seq<char>>::empty(),
{
    let s = before + word + rest;
    assert(s =~= before + (word + rest));
    assert(!is_white(word[0]));
    assert((word + rest)[0] == word[0]);
    lemma_trim_start(before, word + rest);
    let t = word + rest;
    assert(trim_start(s) == t);
    assert forall|j: int| 0 <= j < word.len() implies !is_white(#[trigger] t[j]) by {
        assert(t[j] == word[j]);
    }
    if rest.len() > 0 {
        assert(t[word.len() as int] == rest[0]);
    }
    lemma_run_length(t, |x: char| is_white(x), word.len() as int);
    assert(word_run(t) == word.len());
    assert(t.take(word.len() as int) =~= word);
    assert(t.skip(word.len() as int) =~= rest);
    lemma_trim_start(before, Seq::empty());
    assert(before + Seq::<char>::empty() =~= before);
}

// ---------- Lines ----------

/// The lines of a text are what stands between its line feeds.
pub proof fn lemma_lines(line: Seq<char>, rest: Seq<char>)
    requires
        forall|i: int| 0 <= i < line.len() ==> #[trigger] line[i] != '\n',
    ensures
        lines(line) == seq![line],
        lines(line + seq!['\n'] + rest) == seq![line] + lines(rest),
{
    lemma_find(line, '\n', line.len() as int);
    let s = line + seq!['\n'] + rest;
    assert forall|j: int| 0 <= j < line.len() implies #[trigger] s[j] != '\n' by {
        assert(s[j] == line[j]);
    }
    assert(s[line.len() as int] == '\n');
    lemma_find(s, '\n', line.len() as int);
    assert(s.take(line.len() as int) =~= line);
    assert(s.skip(line.len() as int + 1) =~= rest);
}

/// A text between two line feeds, or at an end of the whole text, is one of its lines.
pub proof fn lemma_line_within(before: Seq<char>, line: Seq<char>, after: Seq<char>) -> (i: int)
    requires
        before.len() == 0 || before.last() == '\n',
        after.len() == 0 || after[0] == '\n',
        forall|i: int| 0 <= i < line.len() ==> #[trigger] line[i] != '\n',
    ensures
        0 <= i < lines(before + line + after).len(),
        lines(before + line + after)[i] == line,
    decreases before.len(),
{
    let s = before + line + after;
    if before.len() == 0 {
        if after.len() == 0 {
            assert(s =~= line);
            lemma_lines(line, Seq::empty());
        } else {
            assert(s =~= line + seq!['\n'] + after.skip(1));
            lemma_lines(line, after.skip(1));
        }
        0
    } else {
        let n = find(before, '\n');
        crate::text::lemma_find_bounds(before, '\n');
        assert(n < before.len()) by {
            if n == before.len() {
                assert(before[before.len() - 1] != '\n');
            }
        }
        let first = before.take(n);
        let rest = before.skip(n + 1);
        assert(s =~= first + seq!['\n'] + (rest + line + after));
        lemma_lines(first, rest + line + after);
        let k = lemma_line_within(rest, line, after);
        k + 1
    }
}

// ---------- Finding ----------

/// Whether a text stands in another from place `i` on, character by character.
pub open spec fn stands_at(s: Seq<char>, pat: Seq<char>, i: int) -> bool {
    &&& 0 <= i
    &&& i + pat.len() <= s.len()
    &&& forall|k: int| 0 <= k < pat.len() ==> s[i + k] == #[trigger] pat[k]
}

/// A text is found in another at the first place where it stands, and nowhere else.
pub proof fn lemma_find_text(s: Seq<char>, pat: Seq<char>)
    ensures
        match find_text(s, pat) {
            Some(n) => stands_at(s, pat, n) && forall|i: int|
                0 <= i < n ==> !(#[trigger] stands_at(s, pat, i)),
            None => forall|i: int| !(#[trigger] stands_at(s, pat, i)),
        },
{
    lemma_find_from(s, pat, 0);
}

proof fn lemma_occurs(s: Seq<char>, pat: Seq<char>, i: int)
    ensures
        occurs_at(s, pat, i) == stands_at(s, pat, i),
{
    if 0 <= i && i + pat.len() <= s.len() {
        let part = s.subrange(i, i + pat.len());
        if stands_at(s, pat, i) {
            assert(part =~= pat);
        }
        if occurs_at(s, pat, i) {
            assert forall|k: int| 0 <= k < pat.len() implies s[i + k] == #[trigger] pat[k] by {
                assert(part[k] == s[i + k]);
            }
        }
    }
}

proof fn lemma_find_from(s: Seq<char>, pat: Seq<char>, from: int)
    requires
        0 <= from,
    ensures
        match find_from(s, pat, from) {
            Some(n) => from <= n && stands_at(s, pat, n) && forall|i: int|
                from <= i < n ==> !(#[trigger] stands_at(s, pat, i)),
            None => forall|i: int| from <= i ==> !(#[trigger] stands_at(s, pat, i)),
        },
    decreases s.len() - from + 1,
{
    lemma_occurs(s, pat, from);
    if from + pat.len() <= s.len() && !occurs_at(s, pat, from) {
        lemma_find_from(s, pat, from + 1);
    }
}

// ---------- Numbers ----------

/// Digits write a number in base ten, the last of them the ones.
pub proof fn lemma_value(digits: Seq<char>, d: char)
    requires
        is_digit(d),
    ensures
        value(Seq::<char>::empty()) == 0,
        value(digits.push(d)) == 10 * value(digits) + (d as int - '0' as int),
{
    assert(digits.push(d).drop_last() =~= digits);
}

/// A number is read where a text is nothing but digits, one at least, with at most one plus
/// sign before them, and what they write is not too great.
pub proof fn lemma_unsigned(s: Seq<char>, max: nat)
    ensures
        s.len() > 0 && all_digits(s) && value(s) <= max ==> unsigned(s, max) == Some(value(s)),
        s.len() > 0 && all_digits(s) && value(s) <= max ==> unsigned(seq!['+'] + s, max) == Some(
            value(s),
        ),
        all_digits(s) && value(s) > max ==> unsigned(s, max) is None,
        s.len() == 0 ==> unsigned(s, max) is None,
        s.len() > 0 && s[0] != '+' && !all_digits(s) ==> unsigned(s, max) is None,
{
    if s.len() > 0 && all_digits(s) {
        assert(is_digit(s[0]));
        assert((seq!['+'] + s).skip(1) =~= s);
    }
}

/// A number in decimal begins with no zero, but for the number zero.
pub proof fn lemma_dec_shape(n: nat)
    ensures
        n > 0 ==> dec(n)[0] != '0',
        n == 0 ==> dec(n) == seq!['0'],
    decreases n,
{
    if n >= 10 {
        lemma_dec_shape(n / 10);
        lemma_dec_value(n / 10);
        assert(dec(n)[0] == dec(n / 10)[0]);
    }
}

/// A run of digits, or of letters and digits, ends at the first other character.
pub proof fn lemma_runs(run: Seq<char>, rest: Seq<char>)
    ensures
        all_digits(run) && (rest.len() > 0 ==> !is_digit(rest[0])) ==> digit_run(run + rest)
            == run.len(),
        (forall|i: int| 0 <= i < run.len() ==> is_alnum(#[trigger] run[i])) && (rest.len() > 0
            ==> !is_alnum(rest[0])) ==> alnum_run(run + rest) == run.len(),
{
    let s = run + rest;
    let n = run.len() as int;
    if rest.len() > 0 {
        assert(s[n] == rest[0]);
    }
    if all_digits(run) && (rest.len() > 0 ==> !is_digit(rest[0])) {
        assert forall|j: int| 0 <= j < n implies is_digit(#[trigger] s[j]) by {
            assert(s[j] == run[j]);
        }
        lemma_run_length(s, |x: char| !is_digit(x), n);
    }
    if (forall|i: int| 0 <= i < run.len() ==> is_alnum(#[trigger] run[i])) && (rest.len() > 0
        ==> !is_alnum(rest[0])) {
        assert forall|j: int| 0 <= j < n implies is_alnum(#[trigger] s[j]) by {
            assert(s[j] == run[j]);
        }
        lemma_run_length(s, |x: char| !is_alnum(x), n);
    }
}

} // verus!
