//! Amounts of bytes and rates as people read them.

use vstd::prelude::*;

use crate::text::dec;
use crate::text::decimal;

verus! {

/// The distance between neighbouring numbers of double precision at `n`.
pub open spec fn spacing(n: nat) -> nat
    decreases n,
{
    if n < 0x20_0000_0000_0000 {
        1
    } else {
        2 * spacing(n / 2)
    }
}

/// `n / d`, rounded to the nearest number, and to the even one of two that are equally near.
pub open spec fn half_even(n: nat, d: nat) -> nat {
    if 2 * (n % d) > d || (2 * (n % d) == d && (n / d) % 2 == 1) {
        n / d + 1
    } else {
        n / d
    }
}

/// The number of double precision nearest to `n`.
pub open spec fn nearest_double(n: nat) -> nat {
    half_even(n, spacing(n)) * spacing(n)
}

/// `n / unit` with one digit behind the point.
pub open spec fn one_decimal(n: nat, unit: nat) -> Seq<char> {
    let tenths = half_even(n * 10, unit);
    dec(tenths / 10) + "."@ + dec(tenths % 10)
}

/// An amount of bytes, in the largest unit that it reaches; `per` follows the unit. It is
/// counted in double precision.
pub open spec fn amount(bytes: u64, per: Seq<char>) -> Seq<char> {
    let b = nearest_double(bytes as nat);
    if b >= 1048576 {
        one_decimal(b, 1048576) + " MB"@ + per
    } else if b >= 1024 {
        one_decimal(b, 1024) + " KB"@ + per
    } else {
        dec(b) + " B"@ + per
    }
}

/// Neighbouring numbers are apart, and by no more than a small part of themselves.
proof fn lemma_spacing(n: nat)
    ensures
        spacing(n) >= 1,
        spacing(n) == 1 || spacing(n) * 0x10_0000_0000_0000 <= n,
    decreases n,
{
    if n >= 0x20_0000_0000_0000 {
        lemma_spacing(n / 2);
    }
}

fn gap(n: u64) -> (r: u64)
    ensures
        r == spacing(n as nat),
    decreases n,
{
    proof {
        lemma_spacing(n as nat);
    }
    if n < 0x20_0000_0000_0000 {
        1
    } else {
        2 * gap(n / 2)
    }
}

fn rounded(n: u128, d: u128) -> (r: u128)
    requires
        0 < d < 0x1_0000_0000_0000_0000,
        n < 0x10_0000_0000_0000_0000,
    ensures
        r == half_even(n as nat, d as nat),
        r <= n / d + 1,
{
    let q: u128 = n / d;
    let rest: u128 = n % d;
    if 2 * rest > d || (2 * rest == d && q % 2 == 1) {
        assert(q <= n) by (nonlinear_arith)
            requires
                q == n / d,
                d > 0,
        ;
        q + 1
    } else {
        q
    }
}

fn as_double(n: u64) -> (r: u128)
    ensures
        r == nearest_double(n as nat),
        r <= n + spacing(n as nat),
        spacing(n as nat) <= 4096,
{
    let unit: u128 = gap(n) as u128;
    proof {
        lemma_spacing(n as nat);
    }
    let q: u128 = rounded(n as u128, unit);
    let wide: u128 = n as u128;
    assert(q * unit <= wide + unit) by (nonlinear_arith)
        requires
            q <= wide / unit + 1,
            unit > 0,
    ;
    q * unit
}

fn write_one_decimal(n: u128, unit: u128) -> (s: String)
    requires
        n <= 0x1_0000_0000_0000_1000,
        unit == 1024 || unit == 1048576,
    ensures
        s@ == one_decimal(n as nat, unit as nat),
{
    let tenths: u128 = rounded(n * 10, unit);
    let whole: u64 = (tenths / 10) as u64;
    let rest: u64 = (tenths % 10) as u64;
    let mut s = decimal(whole);
    let digit = decimal(rest);
    s.append(".");
    s.append(digit.as_str());
    s
}

fn write_amount(bytes: u64, per: &str) -> (s: String)
    ensures
        s@ == amount(bytes, per@),
{
    let b: u128 = as_double(bytes);
    if b >= 1048576 {
        let mut s = write_one_decimal(b, 1048576);
        s.append(" MB");
        s.append(per);
        s
    } else if b >= 1024 {
        let mut s = write_one_decimal(b, 1024);
        s.append(" KB");
        s.append(per);
        s
    } else {
        let mut s = decimal(b as u64);
        s.append(" B");
        s.append(per);
        s
    }
}

/// A rate in bytes per second.
pub fn fmt_rate(bytes: u64) -> (s: String)
    ensures
        s@ == amount(bytes, "/s"@),
{
    write_amount(bytes, "/s")
}

/// An amount of bytes.
pub fn fmt_bytes(bytes: u64) -> (s: String)
    ensures
        s@ == amount(bytes, ""@),
{
    write_amount(bytes, "")
}

// ---------- Laws ----------

/// Numbers that double precision can tell apart are counted exactly.
pub proof fn lemma_counted_exactly(n: nat)
    requires
        n < 0x20_0000_0000_0000,
    ensures
        nearest_double(n) == n,
{
    let q = half_even(n, 1);
    assert(n / 1 == n && n % 1 == 0);
    assert(q * 1 == n) by (nonlinear_arith)
        requires
            q == n,
    ;
}

/// Rounding gives the nearest number, and the even one of two that are equally near.
pub proof fn lemma_nearest(n: nat, d: nat)
    requires
        d > 0,
    ensures
        2 * (half_even(n, d) * d - n) <= d,
        2 * (n - half_even(n, d) * d) <= d,
        2 * (half_even(n, d) * d - n) == d || 2 * (n - half_even(n, d) * d) == d ==> half_even(
            n,
            d,
        ) % 2 == 0,
{
    let q = (n / d) as int;
    let rest = (n % d) as int;
    let dd = d as int;
    assert(n == q * dd + rest && 0 <= rest < dd) by (nonlinear_arith)
        requires
            q == n / d,
            rest == n % d,
            dd == d,
            d > 0,
    ;
    assert((q + 1) * dd == q * dd + dd) by (nonlinear_arith);
}

/// Amounts are shown in bytes below 1024, in units of 1024 below 1048576 of them, and in units
/// of 1048576 from there on; in the larger units with one digit behind the point, which is the
/// nearest. Rates say so.
pub proof fn lemma_amounts(bytes: u64, per: Seq<char>)
    requires
        bytes < 0x20_0000_0000_0000,
    ensures
        bytes < 1024 ==> amount(bytes, per) == dec(bytes as nat) + " B"@ + per,
        1024 <= bytes < 1048576 ==> exists|tenths: nat| #[trigger]
            written_in(amount(bytes, per), tenths, " KB"@, per) && nearest_tenths(
                bytes,
                1024,
                tenths,
            ),
        1048576 <= bytes ==> exists|tenths: nat| #[trigger]
            written_in(amount(bytes, per), tenths, " MB"@, per) && nearest_tenths(
                bytes,
                1048576,
                tenths,
            ),
{
    lemma_counted_exactly(bytes as nat);
    let n = (bytes as nat * 10) as nat;
    lemma_nearest(n, 1024);
    lemma_nearest(n, 1048576);
    let small = half_even(n, 1024);
    let large = half_even(n, 1048576);
    if 1024 <= bytes < 1048576 {
        assert(written_in(amount(bytes, per), small, " KB"@, per));
        assert(nearest_tenths(bytes, 1024, small));
    }
    if 1048576 <= bytes {
        assert(written_in(amount(bytes, per), large, " MB"@, per));
        assert(nearest_tenths(bytes, 1048576, large));
    }
}

/// Whether a text is so many tenths, with a point before the last digit, and a unit.
pub open spec fn written_in(text: Seq<char>, tenths: nat, unit: Seq<char>, per: Seq<char>) -> bool {
    text == dec(tenths / 10) + "."@ + dec(tenths % 10) + unit + per
}

/// Whether so many tenths of a unit are the nearest to an amount.
pub open spec fn nearest_tenths(bytes: u64, unit: int, tenths: nat) -> bool {
    2 * (tenths * unit - bytes * 10) <= unit && 2 * (bytes * 10 - tenths * unit) <= unit
}

/// Amounts beyond what double precision counts exactly are off by less than their
/// four-quadrillionth part.
pub proof fn lemma_counted_closely(n: nat)
    requires
        n >= 0x20_0000_0000_0000,
    ensures
        (nearest_double(n) - n) * 0x20_0000_0000_0000 <= n,
        (n - nearest_double(n)) * 0x20_0000_0000_0000 <= n,
{
    lemma_spacing(n);
    let s = spacing(n);
    lemma_nearest(n, s);
    assert(nearest_double(n) == half_even(n, s) * s);
    assert(s * 0x10_0000_0000_0000 <= n) by {
        if s == 1 {
            assert(n >= 0x20_0000_0000_0000);
        }
    }
}

/// Amounts beyond what double precision counts exactly are counted in twos, in fours, and so
/// on, the twice as coarse the twice as great they are.
pub proof fn lemma_counted_coarsely(n: u64)
    ensures
        n >= 0x20_0000_0000_0000 ==> nearest_double(n as nat) % 2 == 0,
        n >= 0x40_0000_0000_0000 ==> nearest_double(n as nat) % 4 == 0,
        n >= 0x80_0000_0000_0000 ==> nearest_double(n as nat) % 8 == 0,
        n >= 0x8000_0000_0000_0000 ==> nearest_double(n as nat) % 2048 == 0,
{
    let s = spacing(n as nat);
    reveal_with_fuel(spacing, 13);
    let q = half_even(n as nat, s) as int;
    if n >= 0x8000_0000_0000_0000 {
        assert(s == 2048);
    }
    if n >= 0x80_0000_0000_0000 {
        assert(s % 8 == 0);
        let t = s as int / 8;
        assert(q * s == (q * t) * 8) by (nonlinear_arith)
            requires
                s == t * 8,
        ;
    }
    if n >= 0x40_0000_0000_0000 {
        assert(s % 4 == 0);
        let t = s as int / 4;
        assert(q * s == (q * t) * 4) by (nonlinear_arith)
            requires
                s == t * 4,
        ;
    }
    if n >= 0x20_0000_0000_0000 {
        assert(s % 2 == 0);
        let t = s as int / 2;
        assert(q * s == (q * t) * 2) by (nonlinear_arith)
            requires
                s == t * 2,
        ;
    }
}

} // verus!
