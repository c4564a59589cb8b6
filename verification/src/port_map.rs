//! Tables keyed by local port, and their ports in order.

use std::collections::BTreeMap;

use vstd::prelude::*;
use vstd::std_specs::cmp::OrdSpec;
use vstd::std_specs::iter::IteratorSpec;

verus! {

/// The ports below `n` that a set holds, in rising order.
pub open spec fn ports_below(set: Set<u16>, n: int) -> Seq<u16>
    decreases n,
{
    if n <= 0 {
        Seq::empty()
    } else if set.contains((n - 1) as u16) {
        ports_below(set, n - 1).push((n - 1) as u16)
    } else {
        ports_below(set, n - 1)
    }
}

/// The ports that a set holds, in rising order.
pub open spec fn ports_in(set: Set<u16>) -> Seq<u16> {
    ports_below(set, 65536)
}

/// The ports of a set rise, and are the members of the set and no others.
pub proof fn lemma_ports_below(set: Set<u16>, n: int)
    requires
        n <= 65536,
    ensures
        forall|i: int, j: int|
            0 <= i < j < ports_below(set, n).len() ==> ports_below(set, n)[i] < ports_below(
                set,
                n,
            )[j],
        forall|i: int|
            0 <= i < ports_below(set, n).len() ==> ports_below(set, n)[i] < n && set.contains(
                #[trigger] ports_below(set, n)[i],
            ),
        forall|p: u16| p < n && set.contains(p) ==> #[trigger] ports_below(set, n).contains(p),
    decreases n,
{
    if n > 0 {
        lemma_ports_below(set, n - 1);
        let prev = ports_below(set, n - 1);
        let all = ports_below(set, n);
        assert forall|p: u16| p < n && set.contains(p) implies #[trigger] all.contains(p) by {
            if p < n - 1 {
                assert(prev.contains(p));
                let i = choose|i: int| 0 <= i < prev.len() && prev[i] == p;
                assert(all[i] == p);
            } else {
                assert(all[all.len() - 1] == p);
            }
        }
    }
}

/// A rising list with the members of a set is the list of its ports.
pub proof fn lemma_ports_unique(set: Set<u16>, v: Seq<u16>)
    requires
        forall|i: int, j: int| 0 <= i < j < v.len() ==> v[i] < v[j],
        forall|i: int| 0 <= i < v.len() ==> set.contains(#[trigger] v[i]),
        forall|p: u16| set.contains(p) ==> #[trigger] v.contains(p),
    ensures
        v == ports_in(set),
{
    assert forall|i: int| 0 <= i < v.len() implies v[i] < 65536 by {}
    lemma_ports_unique_below(set, v, 65536);
}

proof fn lemma_ports_unique_below(set: Set<u16>, v: Seq<u16>, n: int)
    requires
        0 <= n <= 65536,
        forall|i: int, j: int| 0 <= i < j < v.len() ==> v[i] < v[j],
        forall|i: int| 0 <= i < v.len() ==> v[i] < n && set.contains(#[trigger] v[i]),
        forall|p: u16| p < n && set.contains(p) ==> #[trigger] v.contains(p),
    ensures
        v == ports_below(set, n),
    decreases n,
{
    if n > 0 {
        let p = (n - 1) as u16;
        if set.contains(p) {
            assert(v.contains(p));
            let k = choose|k: int| 0 <= k < v.len() && v[k] == p;
            if k < v.len() - 1 {
                assert(v[k] < v[v.len() - 1]);
            }
            let w = v.drop_last();
            assert forall|i: int| 0 <= i < w.len() implies w[i] < n - 1 && set.contains(
                #[trigger] w[i],
            ) by {
                assert(v[i] < v[v.len() - 1]);
            }
            assert forall|q: u16| q < n - 1 && set.contains(q) implies #[trigger] w.contains(q) by {
                assert(v.contains(q));
                let i = choose|i: int| 0 <= i < v.len() && v[i] == q;
                assert(w[i] == q);
            }
            lemma_ports_unique_below(set, w, n - 1);
            assert(v =~= w.push(p));
        } else {
            assert forall|i: int| 0 <= i < v.len() implies v[i] < n - 1 by {
                assert(set.contains(v[i]));
            }
            lemma_ports_unique_below(set, v, n - 1);
        }
    } else {
        if v.len() > 0 {
            assert(v[0] < 0);
        }
        assert(v =~= Seq::empty());
    }
}

/// The ports of a table, in rising order.
pub fn port_list<V>(table: &BTreeMap<u16, V>) -> (v: Vec<u16>)
    ensures
        v@ == ports_in(table@.dom()),
{
    let mut v: Vec<u16> = Vec::new();
    let rows = table.iter();
    let ghost all = rows.remaining();
    let ghost keys = all.map_values(|kv: (&u16, &V)| *kv.0);
    for kv in it: rows
        invariant
            it.seq() == all,
            v@.len() == it.index(),
            forall|i: int| 0 <= i < v@.len() ==> v@[i] == *all[i].0,
    {
        v.push(*kv.0);
    }
    proof {
        assert(v@ =~= keys);
        assert forall|i: int, j: int| 0 <= i < j < v@.len() implies v@[i] < v@[j] by {
            assert(keys[i].cmp_spec(&keys[j]) is Less);
        }
        assert forall|p: u16| table@.dom().contains(p) implies #[trigger] v@.contains(p) by {
            assert(table@.contains_key(p));
            assert(all.contains((&p, &table@[p])));
            let i = choose|i: int| 0 <= i < all.len() && all[i] == (&p, &table@[p]);
            assert(v@[i] == p);
        }
        assert forall|i: int| 0 <= i < v@.len() implies table@.dom().contains(#[trigger] v@[i]) by {
            assert(table@.contains_key(*all[i].0));
        }
        lemma_ports_unique(table@.dom(), v@);
    }
    v
}

} // verus!
