//! The order in which a `BTreeMap` keyed by `u64` lists its keys: each key
//! once, ascending.

use vstd::prelude::*;
use std::collections::BTreeMap;
use vstd::std_specs::btree::{spec_keys_iter, increasing_seq};
use vstd::std_specs::cmp::OrdSpec;
use vstd::std_specs::iter::IteratorSpec;

verus! {

/// `s` lists the members of `d`, each once, in strictly ascending order.
pub open spec fn ascending_listing(s: Seq<u64>, d: Set<u64>) -> bool {
    &&& forall|i: int, j: int| #![trigger s[i], s[j]] 0 <= i < j < s.len() ==> s[i] < s[j]
    &&& forall|k: u64| #![trigger d.contains(k)] #![trigger s.contains(k)] d.contains(k) <==> s.contains(k)
}

/// The members of a set in ascending order.
pub open spec fn ascending_keys(d: Set<u64>) -> Seq<u64> {
    choose|s: Seq<u64>| ascending_listing(s, d)
}

/// Two ascending listings of the same members are the same sequence.
pub proof fn lemma_ascending_unique(s: Seq<u64>, t: Seq<u64>, d: Set<u64>)
    requires
        ascending_listing(s, d),
        ascending_listing(t, d),
    ensures
        s == t,
    decreases s.len(),
{
    if s.len() == 0 {
        if t.len() > 0 {
            assert(t.contains(t[0]));
        }
        assert(s =~= t);
    } else if t.len() == 0 {
        assert(s.contains(s[0]));
    } else {
        assert(s.contains(s[0]) && t.contains(t[0]));
        let i = choose|i: int| 0 <= i < s.len() && s[i] == t[0];
        let j = choose|j: int| 0 <= j < t.len() && t[j] == s[0];
        if i > 0 {
            assert(s[0] < s[i]);
        }
        if j > 0 {
            assert(t[0] < t[j]);
        }
        assert(s[0] == t[0]);
        let s1 = s.drop_first();
        let t1 = t.drop_first();
        let d1 = d.remove(s[0]);
        assert forall|k: u64| d1.contains(k) <==> #[trigger] s1.contains(k) by {
            if s1.contains(k) {
                let a = choose|a: int| 0 <= a < s1.len() && s1[a] == k;
                assert(s[a + 1] == k);
                assert(s[0] < s[a + 1]);
                assert(s.contains(k));
            }
            if d1.contains(k) {
                assert(s.contains(k));
                let a = choose|a: int| 0 <= a < s.len() && s[a] == k;
                assert(a != 0);
                assert(s1[a - 1] == k);
            }
        }
        assert forall|k: u64| d1.contains(k) <==> #[trigger] t1.contains(k) by {
            if t1.contains(k) {
                let a = choose|a: int| 0 <= a < t1.len() && t1[a] == k;
                assert(t[a + 1] == k);
                assert(t[0] < t[a + 1]);
                assert(t.contains(k));
            }
            if d1.contains(k) {
                assert(t.contains(k));
                let a = choose|a: int| 0 <= a < t.len() && t[a] == k;
                assert(a != 0);
                assert(t1[a - 1] == k);
            }
        }
        lemma_ascending_unique(s1, t1, d1);
        assert(s =~= t) by {
            assert forall|a: int| 0 <= a < s.len() implies s[a] == t[a] by {
                if a > 0 {
                    assert(s[a] == s1[a - 1]);
                    assert(t[a] == t1[a - 1]);
                }
            }
        }
    }
}

proof fn lemma_increasing_seq_less<K: Ord>(s: Seq<K>)
    requires
        vstd::laws_cmp::obeys_cmp::<K>(),
        increasing_seq(s),
    ensures
        forall|i: int, j: int| #![trigger s[i], s[j]] 0 <= i < j < s.len() ==> s[i].cmp_spec(&s[j]) is Less,
{
    vstd::std_specs::btree::axiom_increasing_seq_meaning::<K>(s);
}

/// The keys of a map, ascending, list its domain; the domain is finite and
/// its size is the length of the listing.
pub proof fn lemma_key_order<V>(m: &BTreeMap<u64, V>)
    ensures
        ascending_listing(ascending_keys(m@.dom()), m@.dom()),
        m@.dom().finite(),
        m@.dom().len() == ascending_keys(m@.dom()).len(),
{
    lemma_iterated_keys(m);
    let u = spec_keys_iter(m).remaining().unref();
    lemma_ascending_unique(ascending_keys(m@.dom()), u, m@.dom());
    assert(u.no_duplicates()) by {
        assert forall|i: int, j: int| 0 <= i < u.len() && 0 <= j < u.len() && i != j implies u[i] != u[j] by {
            if i < j {
                assert(u[i] < u[j]);
            } else {
                assert(u[j] < u[i]);
            }
        }
    }
    assert(u.to_set() =~= m@.dom()) by {
        assert forall|k: u64| u.to_set().contains(k) <==> m@.dom().contains(k) by {
            assert(u.contains(k) ==> u.to_set().contains(k));
        }
    }
    u.unique_seq_to_set();
    vstd::seq_lib::seq_to_set_is_finite(u);
}

proof fn lemma_iterated_keys<V>(m: &BTreeMap<u64, V>)
    ensures
        ascending_listing(spec_keys_iter(m).remaining().unref(), m@.dom()),
{
    broadcast use vstd::std_specs::btree::group_btree_axioms, vstd::laws_cmp::group_laws_cmp;
    let s = spec_keys_iter(m).remaining();
    let u = s.unref();
    assert(u.to_set() == m@.dom());
    assert(vstd::laws_cmp::obeys_cmp::<u64>());
    assert(vstd::laws_cmp::obeys_cmp::<&u64>());
    assert(increasing_seq(s));
    lemma_increasing_seq_less::<&u64>(s);
    assert forall|i: int, j: int| 0 <= i < j < u.len() implies u[i] < u[j] by {
        assert(u[i] == *s[i] && u[j] == *s[j]);
    }
    assert forall|k: u64| m@.dom().contains(k) <==> #[trigger] u.contains(k) by {
        assert(u.to_set().contains(k) <==> u.contains(k));
    }
}

/// The keys of a map, ascending.
pub fn keys_in_order<V>(m: &BTreeMap<u64, V>) -> (r: Vec<u64>)
    ensures
        r@ == ascending_keys(m@.dom()),
{
    broadcast use vstd::std_specs::btree::group_btree_axioms, vstd::laws_cmp::group_laws_cmp;
    let mut out: Vec<u64> = Vec::new();
    for k in it: m.keys()
        invariant
            out@ == spec_keys_iter(m).remaining().take(it.index()).unref(),
    {
        out.push(*k);
        assert(out@ =~= spec_keys_iter(m).remaining().take(it.index() + 1).unref());
    }
    assert(out@ =~= spec_keys_iter(m).remaining().unref());
    proof {
        lemma_iterated_keys(m);
        lemma_key_order(m);
        lemma_ascending_unique(ascending_keys(m@.dom()), out@, m@.dom());
    }
    out
}

/// Removes a key from a map.
pub fn remove_key<V>(m: &mut BTreeMap<u64, V>, k: u64)
    ensures
        final(m)@ == old(m)@.remove(k),
{
    broadcast use vstd::std_specs::btree::group_btree_axioms, vstd::laws_cmp::group_laws_cmp;
    m.remove(&k);
}

} // verus!
