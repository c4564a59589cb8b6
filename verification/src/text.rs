//! Text as sequences of characters: trimming, splitting, searching, and decimal numbers.

use vstd::prelude::*;
use vstd::slice::slice_subrange;

verus! {

/// `String::push` appends one character.
pub assume_specification[ String::push ](s: &mut String, c: char)
    ensures
        final(s)@ == old(s)@.push(c),
;

/// `String::pop` takes the last character off and hands it back, or finds nothing to take.
pub assume_specification[ String::pop ](s: &mut String) -> (last: Option<char>)
    ensures
        match last {
            Some(c) => old(s)@.len() > 0 && c == old(s)@.last() && final(s)@
                == old(s)@.drop_last(),
            None => old(s)@.len() == 0 && final(s)@ == old(s)@,
        },
;

// ---------- Kinds of characters ----------

/// The characters with the Unicode property `White_Space`.
pub open spec fn is_white(c: char) -> bool {
    let n = c as int;
    ||| 0x9 <= n <= 0xd
    ||| n == 0x20
    ||| n == 0x85
    ||| n == 0xa0
    ||| n == 0x1680
    ||| 0x2000 <= n <= 0x200a
    ||| n == 0x2028
    ||| n == 0x2029
    ||| n == 0x202f
    ||| n == 0x205f
    ||| n == 0x3000
}

/// The decimal digits of ASCII.
pub open spec fn is_digit(c: char) -> bool {
    '0' <= c <= '9'
}

/// The letters and digits of ASCII.
pub open spec fn is_alnum(c: char) -> bool {
    is_digit(c) || 'a' <= c <= 'z' || 'A' <= c <= 'Z'
}

/// Whether `c` is white space.
pub fn white(c: char) -> (r: bool)
    ensures
        r == is_white(c),
{
    let n: u32 = c as u32;
    (0x9 <= n && n <= 0xd) || n == 0x20 || n == 0x85 || n == 0xa0 || n == 0x1680 || (0x2000 <= n
        && n <= 0x200a) || n == 0x2028 || n == 0x2029 || n == 0x202f || n == 0x205f || n == 0x3000
}

/// Whether `c` is an ASCII digit.
pub fn digit(c: char) -> (r: bool)
    ensures
        r == is_digit(c),
{
    '0' <= c && c <= '9'
}

/// Whether `c` is an ASCII letter or digit.
pub fn alnum(c: char) -> (r: bool)
    ensures
        r == is_alnum(c),
{
    digit(c) || ('a' <= c && c <= 'z') || ('A' <= c && c <= 'Z')
}

// ---------- Characters and strings ----------

/// The characters of `s`.
pub fn chars_of(s: &str) -> (v: Vec<char>)
    ensures
        v@ == s@,
{
    let mut v: Vec<char> = Vec::new();
    for c in it: s.chars()
        invariant
            v@ == it.seq().take(it.index() as int),
            it.seq() == s@,
    {
        v.push(c);
    }
    v
}

/// The string made of the characters `s`.
pub fn string_of(s: &[char]) -> (r: String)
    ensures
        r@ == s@,
{
    let mut r = String::new();
    for i in 0..s.len()
        invariant
            r@ == s@.take(i as int),
    {
        r.push(s[i]);
    }
    assert(s@.take(s@.len() as int) == s@);
    r
}

// ---------- Searching ----------

/// How many characters stand before the first one that satisfies `stop`: the whole length
/// where none does.
pub open spec fn run_length(s: Seq<char>, stop: spec_fn(char) -> bool) -> int
    decreases s.len(),
{
    if s.len() == 0 || stop(s[0]) {
        0
    } else {
        1 + run_length(s.drop_first(), stop)
    }
}

/// The position of the first `c` in `s`, or the length of `s`.
pub open spec fn find(s: Seq<char>, c: char) -> int
    decreases s.len(),
{
    if s.len() == 0 || s[0] == c {
        0
    } else {
        1 + find(s.drop_first(), c)
    }
}

/// How many white characters `s` begins with.
pub open spec fn white_run(s: Seq<char>) -> int {
    run_length(s, |x: char| !is_white(x))
}

/// How many non-white characters `s` begins with.
pub open spec fn word_run(s: Seq<char>) -> int {
    run_length(s, |x: char| is_white(x))
}

/// How many digits `s` begins with.
pub open spec fn digit_run(s: Seq<char>) -> int {
    run_length(s, |x: char| !is_digit(x))
}

/// How many letters and digits `s` begins with.
pub open spec fn alnum_run(s: Seq<char>) -> int {
    run_length(s, |x: char| !is_alnum(x))
}

/// `run_length` is the only length up to which nothing stops and at which something does.
pub proof fn lemma_run_length(s: Seq<char>, stop: spec_fn(char) -> bool, n: int)
    requires
        0 <= n <= s.len(),
        forall|j: int| 0 <= j < n ==> !stop(#[trigger] s[j]),
        n < s.len() ==> stop(s[n]),
    ensures
        run_length(s, stop) == n,
    decreases s.len(),
{
    if s.len() > 0 && n > 0 {
        let t = s.drop_first();
        assert(!stop(s[0]));
        assert forall|j: int| 0 <= j < n - 1 implies !stop(#[trigger] t[j]) by {
            assert(t[j] == s[j + 1]);
        }
        lemma_run_length(t, stop, n - 1);
    }
}

/// What `run_length` says of the characters it counted.
pub proof fn lemma_run_bounds(s: Seq<char>, stop: spec_fn(char) -> bool)
    ensures
        0 <= run_length(s, stop) <= s.len(),
        forall|j: int| 0 <= j < run_length(s, stop) ==> !stop(#[trigger] s[j]),
        run_length(s, stop) < s.len() ==> stop(s[run_length(s, stop)]),
    decreases s.len(),
{
    if s.len() > 0 && !stop(s[0]) {
        let t = s.drop_first();
        lemma_run_bounds(t, stop);
        let n = run_length(s, stop);
        assert forall|j: int| 0 <= j < n implies !stop(#[trigger] s[j]) by {
            if j > 0 {
                assert(t[j - 1] == s[j]);
            }
        }
        if n < s.len() {
            assert(t[n - 1] == s[n]);
        }
    }
}

/// `find` is the only position up to which no `c` stands and at which one does.
pub proof fn lemma_find(s: Seq<char>, c: char, n: int)
    requires
        0 <= n <= s.len(),
        forall|j: int| 0 <= j < n ==> #[trigger] s[j] != c,
        n < s.len() ==> s[n] == c,
    ensures
        find(s, c) == n,
    decreases s.len(),
{
    if s.len() > 0 && n > 0 {
        let t = s.drop_first();
        assert(s[0] != c);
        assert forall|j: int| 0 <= j < n - 1 implies #[trigger] t[j] != c by {
            assert(t[j] == s[j + 1]);
        }
        lemma_find(t, c, n - 1);
    }
}

/// What `find` says of the characters before the position that it gives, and at it.
pub proof fn lemma_find_bounds(s: Seq<char>, c: char)
    ensures
        0 <= find(s, c) <= s.len(),
        forall|j: int| 0 <= j < find(s, c) ==> #[trigger] s[j] != c,
        find(s, c) < s.len() ==> s[find(s, c)] == c,
    decreases s.len(),
{
    if s.len() > 0 && s[0] != c {
        let t = s.drop_first();
        lemma_find_bounds(t, c);
        let n = find(s, c);
        assert forall|j: int| 0 <= j < n implies #[trigger] s[j] != c by {
            if j > 0 {
                assert(t[j - 1] == s[j]);
            }
        }
        if n < s.len() {
            assert(t[n - 1] == s[n]);
        }
    }
}

/// The position of the first `c` in `s`, or the length of `s`.
pub fn find_char(s: &[char], c: char) -> (n: usize)
    ensures
        n == find(s@, c),
        n <= s@.len(),
        n < s@.len() ==> s@[n as int] == c,
{
    let mut n: usize = 0;
    while n < s.len() && s[n] != c
        invariant
            n <= s@.len(),
            forall|j: int| 0 <= j < n ==> #[trigger] s@[j] != c,
        decreases s@.len() - n,
    {
        n = n + 1;
    }
    proof {
        lemma_find(s@, c, n as int);
    }
    n
}

/// How many white characters `s` begins with.
pub fn count_white(s: &[char]) -> (n: usize)
    ensures
        n == white_run(s@),
        n <= s@.len(),
        n < s@.len() ==> !is_white(s@[n as int]),
{
    let mut n: usize = 0;
    while n < s.len() && white(s[n])
        invariant
            n <= s@.len(),
            forall|j: int| 0 <= j < n ==> is_white(#[trigger] s@[j]),
        decreases s@.len() - n,
    {
        n = n + 1;
    }
    proof {
        lemma_run_length(s@, |x: char| !is_white(x), n as int);
    }
    n
}

/// How many non-white characters `s` begins with.
pub fn count_word(s: &[char]) -> (n: usize)
    ensures
        n == word_run(s@),
        n <= s@.len(),
        s@.len() > 0 && !is_white(s@[0]) ==> n > 0,
{
    let mut n: usize = 0;
    while n < s.len() && !white(s[n])
        invariant
            n <= s@.len(),
            forall|j: int| 0 <= j < n ==> !is_white(#[trigger] s@[j]),
        decreases s@.len() - n,
    {
        n = n + 1;
    }
    proof {
        lemma_run_length(s@, |x: char| is_white(x), n as int);
    }
    n
}

/// How many digits `s` begins with.
pub fn count_digits(s: &[char]) -> (n: usize)
    ensures
        n == digit_run(s@),
        n <= s@.len(),
{
    let mut n: usize = 0;
    while n < s.len() && digit(s[n])
        invariant
            n <= s@.len(),
            forall|j: int| 0 <= j < n ==> is_digit(#[trigger] s@[j]),
        decreases s@.len() - n,
    {
        n = n + 1;
    }
    proof {
        lemma_run_length(s@, |x: char| !is_digit(x), n as int);
    }
    n
}

/// How many letters and digits `s` begins with.
pub fn count_alnum(s: &[char]) -> (n: usize)
    ensures
        n == alnum_run(s@),
        n <= s@.len(),
{
    let mut n: usize = 0;
    while n < s.len() && alnum(s[n])
        invariant
            n <= s@.len(),
            forall|j: int| 0 <= j < n ==> is_alnum(#[trigger] s@[j]),
        decreases s@.len() - n,
    {
        n = n + 1;
    }
    proof {
        lemma_run_length(s@, |x: char| !is_alnum(x), n as int);
    }
    n
}

/// The position of the last `c` in `s`, where there is one.
pub open spec fn rfind(s: Seq<char>, c: char) -> Option<int>
    decreases s.len(),
{
    if s.len() == 0 {
        None
    } else if s.last() == c {
        Some(s.len() - 1)
    } else {
        rfind(s.drop_last(), c)
    }
}

/// The position of the last `c` in `s`, where there is one.
pub fn rfind_char(s: &[char], c: char) -> (r: Option<usize>)
    ensures
        match r {
            Some(n) => rfind(s@, c) == Some(n as int) && n < s@.len() && s@[n as int] == c,
            None => rfind(s@, c) is None,
        },
{
    let mut n: usize = s.len();
    assert(s@.take(n as int) == s@);
    while n > 0
        invariant
            n <= s@.len(),
            rfind(s@.take(n as int), c) == rfind(s@, c),
        decreases n,
    {
        assert(s@.take(n as int).drop_last() == s@.take(n - 1));
        if s[n - 1] == c {
            return Some(n - 1);
        }
        n = n - 1;
    }
    None
}

/// A last position is one that nothing equal follows.
pub proof fn lemma_rfind(s: Seq<char>, c: char, n: int)
    requires
        0 <= n < s.len(),
        s[n] == c,
        forall|j: int| n < j < s.len() ==> #[trigger] s[j] != c,
    ensures
        rfind(s, c) == Some(n),
    decreases s.len(),
{
    if n < s.len() - 1 {
        assert(s[s.len() - 1] != c);
        lemma_rfind(s.drop_last(), c, n);
    }
}

/// Whether `pat` stands in `s` at position `i`.
pub open spec fn occurs_at(s: Seq<char>, pat: Seq<char>, i: int) -> bool {
    0 <= i && i + pat.len() <= s.len() && s.subrange(i, i + pat.len()) == pat
}

/// The first position, from `i` on, at which `pat` stands in `s`.
pub open spec fn find_from(s: Seq<char>, pat: Seq<char>, i: int) -> Option<int>
    decreases s.len() - i + 1,
{
    if i < 0 || i + pat.len() > s.len() {
        None
    } else if occurs_at(s, pat, i) {
        Some(i)
    } else {
        find_from(s, pat, i + 1)
    }
}

/// The first position at which `pat` stands in `s`.
pub open spec fn find_text(s: Seq<char>, pat: Seq<char>) -> Option<int> {
    find_from(s, pat, 0)
}

/// Whether `pat` stands in `s` at position `i`.
fn occurs(s: &[char], pat: &[char], i: usize) -> (r: bool)
    requires
        i <= s@.len(),
    ensures
        r == occurs_at(s@, pat@, i as int),
{
    if s.len() - i < pat.len() {
        return false;
    }
    let len: usize = s.len();
    let mut k: usize = 0;
    while k < pat.len()
        invariant
            len == s@.len(),
            k <= pat@.len(),
            i + pat@.len() <= s@.len(),
            forall|j: int| 0 <= j < k ==> s@[i + j] == #[trigger] pat@[j],
        decreases pat@.len() - k,
    {
        if s[i + k] != pat[k] {
            assert(s@.subrange(i as int, i + pat@.len())[k as int] != pat@[k as int]);
            return false;
        }
        k = k + 1;
    }
    assert(s@.subrange(i as int, i + pat@.len()) =~= pat@);
    true
}

/// The first position at which `pat` stands in `s`.
pub fn find_str(s: &[char], pat: &str) -> (r: Option<usize>)
    ensures
        match r {
            Some(n) => find_text(s@, pat@) == Some(n as int) && n + pat@.len() <= s@.len(),
            None => find_text(s@, pat@) is None,
        },
{
    let p = chars_of(pat);
    let mut i: usize = 0;
    while i <= s.len()
        invariant
            p@ == pat@,
            i <= s@.len() + 1,
            find_from(s@, pat@, i as int) == find_text(s@, pat@),
        decreases s@.len() + 1 - i,
    {
        if s.len() - i < p.len() {
            return None;
        }
        if occurs(s, p.as_slice(), i) {
            return Some(i);
        }
        if i == s.len() {
            assert(s@.subrange(i as int, i as int) =~= pat@);
            return None;
        }
        i = i + 1;
    }
    None
}

// ---------- Trimming and splitting ----------

/// `s` without the white characters at its start.
pub open spec fn trim_start(s: Seq<char>) -> Seq<char> {
    s.skip(white_run(s))
}

/// `s` without the white characters at its end.
pub open spec fn trim_end(s: Seq<char>) -> Seq<char>
    decreases s.len(),
{
    if s.len() > 0 && is_white(s.last()) {
        trim_end(s.drop_last())
    } else {
        s
    }
}

/// `s` without the white characters at either end.
pub open spec fn trim(s: Seq<char>) -> Seq<char> {
    trim_end(trim_start(s))
}

/// `s` without the white characters at either end.
pub fn trimmed(s: &[char]) -> (r: &[char])
    ensures
        r@ == trim(s@),
{
    let from: usize = count_white(s);
    let t: &[char] = slice_subrange(s, from, s.len());
    assert(t@ == trim_start(s@));
    let mut n: usize = t.len();
    assert(t@.take(n as int) == t@);
    while n > 0 && white(t[n - 1])
        invariant
            n <= t@.len(),
            trim_end(t@.take(n as int)) == trim_end(t@),
        decreases n,
    {
        assert(t@.take(n as int).drop_last() == t@.take(n - 1));
        n = n - 1;
    }
    assert(t@.take(n as int) == t@.subrange(0, n as int));
    slice_subrange(t, 0, n)
}

/// The words of `s`: its longest runs of characters that are not white.
pub open spec fn words(s: Seq<char>) -> Seq<Seq<char>>
    decreases s.len(),
    via words_shrink
{
    let t = trim_start(s);
    if t.len() == 0 {
        Seq::empty()
    } else {
        seq![t.take(word_run(t))] + words(t.skip(word_run(t)))
    }
}

#[via_fn]
proof fn words_shrink(s: Seq<char>) {
    lemma_run_bounds(s, |x: char| !is_white(x));
    let t = trim_start(s);
    if t.len() > 0 {
        assert(!is_white(t[0]));
        lemma_run_bounds(t, |x: char| is_white(x));
    }
}

/// What the words of `s` are, slice by slice.
pub open spec fn texts(v: Seq<&[char]>) -> Seq<Seq<char>> {
    v.map_values(|w: &[char]| w@)
}

/// The words of `s`.
pub fn split_words<'a>(s: &'a [char]) -> (v: Vec<&'a [char]>)
    ensures
        texts(v@) == words(s@),
{
    let mut v: Vec<&'a [char]> = Vec::new();
    let mut rest: &'a [char] = s;
    assert(texts(v@) + words(s@) =~= words(s@));
    loop
        invariant_except_break
            texts(v@) + words(rest@) == words(s@),
        ensures
            texts(v@) == words(s@),
        decreases rest@.len(),
    {
        let from: usize = count_white(rest);
        let t: &'a [char] = slice_subrange(rest, from, rest.len());
        assert(t@ == trim_start(rest@));
        if t.len() == 0 {
            assert(texts(v@) + words(rest@) =~= texts(v@));
            break;
        }
        assert(!is_white(t@[0]));
        let n: usize = count_word(t);
        let ghost before = v@;
        let ghost tail = words(t@.skip(n as int));
        let word: &'a [char] = slice_subrange(t, 0, n);
        assert(word@ == t@.take(n as int));
        v.push(word);
        assert(texts(v@) =~= texts(before).push(word@));
        assert(texts(before) + (seq![word@] + tail) =~= texts(v@) + tail);
        assert(t@.skip(n as int) == t@.subrange(n as int, t@.len() as int));
        rest = slice_subrange(t, n, t.len());
    }
    v
}

/// The lines of `s`: what stands between its newlines.
pub open spec fn lines(s: Seq<char>) -> Seq<Seq<char>>
    decreases s.len(),
    via lines_shrink
{
    let n = find(s, '\n');
    if n == s.len() {
        seq![s]
    } else {
        seq![s.take(n)] + lines(s.skip(n + 1))
    }
}

#[via_fn]
proof fn lines_shrink(s: Seq<char>) {
    lemma_find_bounds(s, '\n');
}

/// The lines of `s`.
pub fn split_lines<'a>(s: &'a [char]) -> (v: Vec<&'a [char]>)
    ensures
        texts(v@) == lines(s@),
{
    let mut v: Vec<&'a [char]> = Vec::new();
    let mut rest: &'a [char] = s;
    assert(texts(v@) + lines(s@) =~= lines(s@));
    loop
        invariant_except_break
            texts(v@) + lines(rest@) == lines(s@),
        ensures
            texts(v@) == lines(s@),
        decreases rest@.len(),
    {
        let n: usize = find_char(rest, '\n');
        let ghost before = v@;
        if n == rest.len() {
            v.push(rest);
            assert(texts(v@) =~= texts(before) + seq![rest@]);
            break;
        }
        let ghost tail = lines(rest@.skip(n + 1));
        let line: &'a [char] = slice_subrange(rest, 0, n);
        assert(line@ == rest@.take(n as int));
        v.push(line);
        assert(texts(v@) =~= texts(before).push(line@));
        assert(texts(before) + (seq![line@] + tail) =~= texts(v@) + tail);
        assert(rest@.skip(n + 1) == rest@.subrange(n + 1, rest@.len() as int));
        rest = slice_subrange(rest, n + 1, rest.len());
    }
    v
}

// ---------- Decimal numbers ----------

/// Whether every character of `s` is a digit.
pub open spec fn all_digits(s: Seq<char>) -> bool {
    forall|i: int| 0 <= i < s.len() ==> is_digit(#[trigger] s[i])
}

/// The number that the digits `s` write.
pub open spec fn value(s: Seq<char>) -> nat
    decreases s.len(),
{
    if s.len() == 0 {
        0
    } else {
        value(s.drop_last()) * 10 + (s.last() as nat - '0' as nat) as nat
    }
}

/// The unsigned number that `s` writes: digits, with at most one `+` before them, of a value
/// no greater than `max`.
pub open spec fn unsigned(s: Seq<char>, max: nat) -> Option<nat> {
    let d = if s.len() > 0 && s[0] == '+' {
        s.skip(1)
    } else {
        s
    };
    if d.len() > 0 && all_digits(d) && value(d) <= max {
        Some(value(d))
    } else {
        None
    }
}

/// Whether every character of `s` is a digit.
pub fn digits_only(s: &[char]) -> (r: bool)
    ensures
        r == all_digits(s@),
{
    for i in 0..s.len()
        invariant
            forall|j: int| 0 <= j < i ==> is_digit(#[trigger] s@[j]),
    {
        if !digit(s[i]) {
            return false;
        }
    }
    true
}

/// The value of the digits `s`, where it is no greater than `max`.
fn digits_value(s: &[char], max: u32) -> (r: Option<u32>)
    requires
        all_digits(s@),
    ensures
        match r {
            Some(n) => n == value(s@) && n <= max,
            None => value(s@) > max,
        },
{
    let mut n: u64 = 0;
    let mut over = false;
    for i in 0..s.len()
        invariant
            all_digits(s@),
            !over ==> n == value(s@.take(i as int)) && n <= max,
            over ==> value(s@.take(i as int)) > max,
    {
        assert(s@.take(i + 1).drop_last() == s@.take(i as int));
        assert(is_digit(s@[i as int]));
        if !over {
            n = n * 10 + (s[i] as u64 - '0' as u64);
            if n > max as u64 {
                over = true;
            }
        }
    }
    assert(s@.take(s@.len() as int) == s@);
    if over {
        None
    } else {
        Some(n as u32)
    }
}

/// The unsigned number that `s` writes, where it is one no greater than `max`.
pub fn parse_unsigned(s: &[char], max: u32) -> (r: Option<u32>)
    ensures
        match r {
            Some(n) => unsigned(s@, max as nat) == Some(n as nat) && n <= max,
            None => unsigned(s@, max as nat) is None,
        },
{
    let from: usize = if s.len() > 0 && s[0] == '+' {
        1
    } else {
        0
    };
    let d: &[char] = slice_subrange(s, from, s.len());
    assert(s@.subrange(1 * from, s@.len() as int) == if from == 1 {
        s@.skip(1)
    } else {
        s@
    });
    if d.len() == 0 || !digits_only(d) {
        return None;
    }
    digits_value(d, max)
}

/// The digit that stands for `d`.
pub open spec fn digit_char(d: nat) -> char {
    ('0' as nat + d) as char
}

/// `n` in decimal, without leading zeros.
pub open spec fn dec(n: nat) -> Seq<char>
    decreases n,
{
    if n < 10 {
        seq![digit_char(n)]
    } else {
        dec(n / 10).push(digit_char(n % 10))
    }
}

/// `n` in decimal.
pub fn decimal(n: u64) -> (s: String)
    ensures
        s@ == dec(n as nat),
    decreases n,
{
    let d: u8 = (n % 10) as u8;
    let c: char = (48u8 + d) as char;
    assert(c == digit_char((n % 10) as nat));
    let mut s = if n < 10 {
        String::new()
    } else {
        decimal(n / 10)
    };
    s.push(c);
    assert(n < 10 ==> s@ =~= seq![c]);
    s
}

/// A number in decimal is made of digits, one at least, and writes that number.
pub proof fn lemma_dec_value(n: nat)
    ensures
        dec(n).len() > 0,
        all_digits(dec(n)),
        value(dec(n)) == n,
    decreases n,
{
    if n < 10 {
        assert(dec(n).drop_last() =~= Seq::empty());
        assert(value(Seq::<char>::empty()) == 0);
    } else {
        lemma_dec_value(n / 10);
        assert(dec(n).drop_last() =~= dec(n / 10));
        assert forall|i: int| 0 <= i < dec(n).len() implies is_digit(#[trigger] dec(n)[i]) by {
            if i < dec(n).len() - 1 {
                assert(dec(n)[i] == dec(n / 10)[i]);
            }
        }
    }
}

/// What is written in decimal is read back: `unsigned` undoes `dec`.
pub proof fn lemma_dec_round_trip(n: nat, max: nat)
    requires
        n <= max,
    ensures
        unsigned(dec(n), max) == Some(n),
{
    lemma_dec_value(n);
    assert(is_digit(dec(n)[0]));
}

} // verus!
