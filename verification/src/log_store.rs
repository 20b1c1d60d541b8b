//! The Raft log of a guardian node: entries by index, with the purge and
//! truncation rules, and the names of the files that hold the entries.
//!
//! Each entry lives in its own file named by its index (`{:08x}.bin`).
//! The in-memory log is a `BTreeMap` from index to entry, listed in
//! ascending order of index; appending an entry at an index that is present
//! replaces it.

use vstd::prelude::*;
use vstd::string::*;
use crate::hex::{lower_hex_padded, lower_hex_spec, zero_pad, nibble_char};
use crate::text::{chars_of, dec_spec, push_decimal};
use crate::btree_keys::{ascending_keys, keys_in_order, lemma_key_order, remove_key};
use std::collections::BTreeMap;

verus! {

/// The file name of the log entry at `index`: eight or more lowercase hex
/// digits and `.bin`.
pub fn log_entry_filename(index: u64) -> (s: String)
    ensures
        s@ == zero_pad(lower_hex_spec(index as nat), 8) + ".bin"@,
{
    let mut s = lower_hex_padded(index, 8);
    s.append(".bin");
    s
}

/// The value of a hex digit character.
pub open spec fn hex_char_value(c: char) -> Option<int> {
    if '0' <= c <= '9' {
        Some(c as int - '0' as int)
    } else if 'a' <= c <= 'f' {
        Some(c as int - 'a' as int + 10)
    } else if 'A' <= c <= 'F' {
        Some(c as int - 'A' as int + 10)
    } else {
        None
    }
}

/// Whether every character is a hex digit.
pub open spec fn all_hex_digits(d: Seq<char>) -> bool {
    forall|i: int| 0 <= i < d.len() ==> (#[trigger] hex_char_value(d[i])) is Some
}

/// The value of hex digits, most significant first.
pub open spec fn hex_digits_value(d: Seq<char>) -> int
    decreases d.len(),
{
    if d.len() == 0 {
        0
    } else {
        16 * hex_digits_value(d.drop_last()) + (hex_char_value(d.last())->0)
    }
}

/// `u64::from_str_radix(s, 16)`: an optional `+` (not alone), then at
/// least one hex digit, with a value that fits in 64 bits.
pub open spec fn parse_hex_u64(s: Seq<char>) -> Option<u64> {
    let d = if s.len() >= 2 && s[0] == '+' { s.drop_first() } else { s };
    if d.len() > 0 && all_hex_digits(d) && hex_digits_value(d) <= u64::MAX {
        Some(hex_digits_value(d) as u64)
    } else {
        None
    }
}

/// The index named by a log file name: the name without `.bin`, read as hex.
pub open spec fn log_index_of(name: Seq<char>) -> Option<u64> {
    if name.len() >= 4 && name.subrange(name.len() - 4, name.len() as int) == ".bin"@ {
        parse_hex_u64(name.subrange(0, name.len() - 4))
    } else {
        None
    }
}

proof fn lemma_value_grows(d: Seq<char>, i: int, j: int)
    requires
        0 <= i <= j <= d.len(),
        all_hex_digits(d),
    ensures
        hex_digits_value(d.subrange(0, j)) >= hex_digits_value(d.subrange(0, i)),
        hex_digits_value(d.subrange(0, j)) >= 0,
    decreases j - i,
{
    if j > i {
        lemma_value_grows(d, i, j - 1);
        assert(d.subrange(0, j).drop_last() =~= d.subrange(0, j - 1));
        assert(hex_char_value(d[j - 1]) is Some);
        lemma_value_nonneg(d.subrange(0, j - 1));
    } else {
        lemma_value_nonneg(d.subrange(0, j));
    }
}

proof fn lemma_value_nonneg(d: Seq<char>)
    requires
        all_hex_digits(d),
    ensures
        hex_digits_value(d) >= 0,
    decreases d.len(),
{
    if d.len() > 0 {
        assert(hex_char_value(d[d.len() - 1]) is Some);
        assert forall|i: int| 0 <= i < d.drop_last().len() implies (#[trigger] hex_char_value(d.drop_last()[i])) is Some by {
            assert(d.drop_last()[i] == d[i]);
        }
        lemma_value_nonneg(d.drop_last());
    }
}

fn char_value(c: char) -> (r: Option<u64>)
    ensures
        match hex_char_value(c) {
            Some(v) => r == Some(v as u64),
            None => r is None,
        },
{
    if '0' <= c && c <= '9' {
        Some((c as u32 - '0' as u32) as u64)
    } else if 'a' <= c && c <= 'f' {
        Some((c as u32 - 'a' as u32 + 10) as u64)
    } else if 'A' <= c && c <= 'F' {
        Some((c as u32 - 'A' as u32 + 10) as u64)
    } else {
        None
    }
}

/// The log index named by a file name (see `log_index_of`).
pub fn parse_log_index(filename: &str) -> (r: Option<u64>)
    ensures
        r == log_index_of(filename@),
{
    let cs = chars_of(filename);
    let n = cs.len();
    if n < 4 || cs[n - 4] != '.' || cs[n - 3] != 'b' || cs[n - 2] != 'i' || cs[n - 1] != 'n' {
        proof {
            if n >= 4 {
                reveal_strlit(".bin");
                assert(filename@.subrange(n - 4, n as int) != ".bin"@) by {
                    if filename@.subrange(n - 4, n as int) == ".bin"@ {
                        assert(filename@.subrange(n - 4, n as int)[0] == '.');
                        assert(filename@.subrange(n - 4, n as int)[1] == 'b');
                        assert(filename@.subrange(n - 4, n as int)[2] == 'i');
                        assert(filename@.subrange(n - 4, n as int)[3] == 'n');
                    }
                }
            }
        }
        return None;
    }
    proof {
        reveal_strlit(".bin");
        assert(filename@.subrange(n - 4, n as int) =~= ".bin"@);
    }
    let stem_len = n - 4;
    let ghost stem = filename@.subrange(0, stem_len as int);
    let start: usize = if stem_len >= 2 && cs[0] == '+' { 1 } else { 0 };
    let ghost d = if stem.len() >= 2 && stem[0] == '+' { stem.drop_first() } else { stem };
    assert(d =~= filename@.subrange(start as int, stem_len as int));
    if stem_len - start == 0 {
        return None;
    }
    let mut acc: u64 = 0;
    let mut overflow = false;
    let mut i: usize = start;
    while i < stem_len
        invariant
            cs@ == filename@,
            n == cs@.len(),
            stem_len == n - 4,
            start <= i <= stem_len,
            d == filename@.subrange(start as int, stem_len as int),
            d.len() > 0,
            log_index_of(filename@) == parse_hex_u64(stem),
            d == (if stem.len() >= 2 && stem[0] == '+' { stem.drop_first() } else { stem }),
            stem == filename@.subrange(0, stem_len as int),
            all_hex_digits(d.subrange(0, i - start)),
            !overflow ==> acc == hex_digits_value(d.subrange(0, i - start)),
            overflow ==> hex_digits_value(d.subrange(0, i - start)) > u64::MAX,
        decreases stem_len - i,
    {
        let c = cs[i];
        let ghost k = i - start;
        assert(d[k] == c);
        assert(d.subrange(0, k + 1).drop_last() =~= d.subrange(0, k));
        assert(d.subrange(0, k + 1).last() == c);
        match char_value(c) {
            Some(v) => {
                proof {
                    assert forall|t: int| 0 <= t < k + 1 implies (#[trigger] hex_char_value(d.subrange(0, k + 1)[t])) is Some by {
                        if t < k {
                            assert(d.subrange(0, k + 1)[t] == d.subrange(0, k)[t]);
                        }
                    }
                }
                if !overflow {
                    if acc > (u64::MAX - v) / 16 {
                        overflow = true;
                        assert(16 * acc + v > u64::MAX) by (nonlinear_arith)
                            requires
                                acc > (u64::MAX - v) / 16,
                                v < 16,
                        ;
                    } else {
                        assert(16 * acc + v <= u64::MAX) by (nonlinear_arith)
                            requires
                                acc <= (u64::MAX - v) / 16,
                                v < 16,
                        ;
                        acc = 16 * acc + v;
                    }
                } else {
                    proof {
                        lemma_value_nonneg(d.subrange(0, k));
                    }
                }
            },
            None => {
                proof {
                    assert(!all_hex_digits(d)) by {
                        assert(hex_char_value(d[k]) is None);
                    }
                }
                return None;
            },
        }
        i = i + 1;
    }
    assert(d.subrange(0, (stem_len - start) as int) =~= d);
    if overflow {
        None
    } else {
        Some(acc)
    }
}

/// A log position: the term and node of the leader that proposed the entry,
/// and the entry's index.
#[derive(Clone, Copy, Debug, PartialEq, Eq, Structural)]
pub struct LogId {
    pub term: u64,
    pub node_id: u64,
    pub index: u64,
}

/// The order of log positions: by leader (term, then node), then index.
pub open spec fn log_id_le(a: LogId, b: LogId) -> bool {
    a.term < b.term || (a.term == b.term && (a.node_id < b.node_id || (a.node_id == b.node_id && a.index <= b.index)))
}

/// Compares two log positions (see `log_id_le`).
pub fn log_id_leq(a: &LogId, b: &LogId) -> (r: bool)
    ensures
        r == log_id_le(*a, *b),
{
    a.term < b.term || (a.term == b.term && (a.node_id < b.node_id || (a.node_id == b.node_id && a.index <= b.index)))
}

/// The identifier of the `n`-th snapshot taken after applying up to `last`:
/// `T{term}-N{node}-{index}-{n}`, or `--{n}` before anything was applied.
pub fn snapshot_id(last: Option<LogId>, n: u64) -> (s: String)
    ensures
        s@ == match last {
            Some(l) => "T"@ + dec_spec(l.term as nat) + "-N"@ + dec_spec(l.node_id as nat) + "-"@
                + dec_spec(l.index as nat) + "-"@ + dec_spec(n as nat),
            None => "--"@ + dec_spec(n as nat),
        },
{
    match last {
        Some(l) => {
            let mut s = String::from_str("T");
            push_decimal(&mut s, l.term);
            s.append("-N");
            push_decimal(&mut s, l.node_id);
            s.append("-");
            push_decimal(&mut s, l.index);
            s.append("-");
            push_decimal(&mut s, n);
            s
        },
        None => {
            let mut s = String::from_str("--");
            push_decimal(&mut s, n);
            s
        },
    }
}

/// The in-memory Raft log: entries (with their positions) by index, the
/// last purged position and the last committed position.
pub struct RaftLog<E> {
    log: BTreeMap<u64, (LogId, E)>,
    last_purged: Option<LogId>,
    committed: Option<LogId>,
}

impl<E> RaftLog<E> {
    /// The entries by index.
    pub closed spec fn entries(&self) -> Map<u64, (LogId, E)> {
        self.log@
    }

    /// The indexes of the entries in ascending order.
    pub closed spec fn order(&self) -> Seq<u64> {
        ascending_keys(self.log@.dom())
    }

    /// The last purged position.
    pub closed spec fn purged(&self) -> Option<LogId> {
        self.last_purged
    }

    /// The last committed position.
    pub closed spec fn committed_id(&self) -> Option<LogId> {
        self.committed
    }

    /// Well-formedness: each entry is stored at its own index.
    pub closed spec fn wf(&self) -> bool {
        forall|k: u64| #[trigger] self.log@.dom().contains(k) ==> self.log@[k].0.index == k
    }

    /// The order lists exactly the indexes of the entries, each once,
    /// ascending.
    pub proof fn lemma_order(&self)
        ensures
            forall|i: int, j: int| 0 <= i < j < self.order().len() ==> self.order()[i] < self.order()[j],
            forall|k: u64| self.entries().dom().contains(k) <==> self.order().contains(k),
            self.entries().dom().finite(),
            self.entries().dom().len() == self.order().len(),
    {
        lemma_key_order(&self.log);
        let o = self.order();
        assert forall|i: int, j: int| 0 <= i < j < o.len() implies o[i] < o[j] by {}
        assert forall|k: u64| self.entries().dom().contains(k) <==> o.contains(k) by {}
    }

    /// An empty log.
    pub fn new() -> (r: Self)
        ensures
            r.wf(),
            r.entries() == Map::<u64, (LogId, E)>::empty(),
            r.purged() is None,
            r.committed_id() is None,
    {
        RaftLog { log: BTreeMap::new(), last_purged: None, committed: None }
    }

    /// Whether the log holds no entry.
    pub fn is_empty(&self) -> (r: bool)
        requires
            self.wf(),
        ensures
            r == (self.entries() == Map::<u64, (LogId, E)>::empty()),
    {
        let r = self.log.is_empty();
        proof {
            if r {
                assert(self.log@ =~= Map::<u64, (LogId, E)>::empty());
            } else {
                let k = choose|k: u64| self.log@.dom().contains(k);
                assert(!Map::<u64, (LogId, E)>::empty().dom().contains(k));
            }
        }
        r
    }

    /// Number of entries.
    pub fn len(&self) -> (r: usize)
        requires
            self.wf(),
        ensures
            r == self.order().len(),
    {
        broadcast use vstd::std_specs::btree::group_btree_axioms, vstd::laws_cmp::group_laws_cmp;
        proof {
            lemma_key_order(&self.log);
        }
        self.log.len()
    }

    /// Stores an entry at its index, replacing an entry with the same index.
    pub fn insert(&mut self, id: LogId, entry: E)
        requires
            old(self).wf(),
        ensures
            final(self).wf(),
            final(self).entries() == old(self).entries().insert(id.index, (id, entry)),
            final(self).purged() == old(self).purged(),
            final(self).committed_id() == old(self).committed_id(),
    {
        broadcast use vstd::std_specs::btree::group_btree_axioms, vstd::laws_cmp::group_laws_cmp;
        self.log.insert(id.index, (id, entry));
    }

    /// The entry at an index.
    pub fn get(&self, index: u64) -> (r: Option<&(LogId, E)>)
        requires
            self.wf(),
        ensures
            match r {
                Some(e) => self.entries().dom().contains(index) && *e == self.entries()[index],
                None => !self.entries().dom().contains(index),
            },
    {
        broadcast use vstd::std_specs::btree::group_btree_axioms, vstd::laws_cmp::group_laws_cmp;
        self.log.get(&index)
    }

    /// The indexes of the entries in `lo..=hi`, ascending.
    pub fn indexes_in(&self, lo: u64, hi: u64) -> (r: Vec<u64>)
        requires
            self.wf(),
        ensures
            r@ == self.order().filter(|k: u64| lo <= k <= hi),
    {
        let ids = keys_in_order(&self.log);
        let mut out: Vec<u64> = Vec::new();
        let mut i: usize = 0;
        while i < ids.len()
            invariant
                ids@ == self.order(),
                i <= ids@.len(),
                out@ == ids@.subrange(0, i as int).filter(|k: u64| lo <= k <= hi),
            decreases ids.len() - i,
        {
            let k = ids[i];
            proof {
                let pre = ids@.subrange(0, i as int);
                assert(ids@.subrange(0, i + 1) =~= pre.push(k));
                pre.lemma_filter_push(k, |k: u64| lo <= k <= hi);
            }
            if lo <= k && k <= hi {
                out.push(k);
            }
            i = i + 1;
        }
        assert(ids@.subrange(0, i as int) =~= ids@);
        out
    }

    /// The position of the last entry, or else the last purged position.
    pub fn last_log_id(&self) -> (r: Option<LogId>)
        requires
            self.wf(),
        ensures
            self.order().len() == 0 ==> r == self.purged(),
            self.order().len() > 0 ==> self.entries().dom().contains(self.order().last())
                && r == Some(self.entries()[self.order().last()].0),
    {
        let ids = keys_in_order(&self.log);
        let n = ids.len();
        if n == 0 {
            self.last_purged
        } else {
            proof {
                self.lemma_order();
                assert(self.order().contains(ids@[n - 1]));
            }
            match self.get(ids[n - 1]) {
                Some(e) => Some(e.0),
                None => None,
            }
        }
    }

    /// The last purged position.
    pub fn last_purged_log_id(&self) -> (r: Option<LogId>)
        ensures
            r == self.purged(),
    {
        self.last_purged
    }

    /// Records the committed position.
    pub fn save_committed(&mut self, committed: Option<LogId>)
        requires
            old(self).wf(),
        ensures
            final(self).wf(),
            final(self).committed_id() == committed,
            final(self).entries() == old(self).entries(),
            final(self).purged() == old(self).purged(),
    {
        self.committed = committed;
    }

    /// The committed position.
    pub fn read_committed(&self) -> (r: Option<LogId>)
        ensures
            r == self.committed_id(),
    {
        self.committed
    }

    /// Removes the entries at the given indexes, which are all in the log.
    fn remove_all(&mut self, ids: &Vec<u64>)
        requires
            old(self).wf(),
            ids@.no_duplicates(),
        ensures
            final(self).wf(),
            final(self).entries() == old(self).entries().restrict(Set::new(|k: u64| !ids@.contains(k))),
            final(self).purged() == old(self).purged(),
            final(self).committed_id() == old(self).committed_id(),
    {
        let ghost s = self.log@;
        let mut i: usize = 0;
        while i < ids.len()
            invariant
                i <= ids@.len(),
                self.wf(),
                self.log@ == s.restrict(Set::new(|k: u64| !ids@.subrange(0, i as int).contains(k))),
                self.last_purged == old(self).last_purged,
                self.committed == old(self).committed,
            decreases ids.len() - i,
        {
            let k = ids[i];
            let ghost pre = self.log@;
            remove_key(&mut self.log, k);
            proof {
                let sub = ids@.subrange(0, i + 1);
                assert(sub =~= ids@.subrange(0, i as int).push(k));
                assert forall|j: u64| sub.contains(j) <==> (ids@.subrange(0, i as int).contains(j) || j == k) by {
                    if sub.contains(j) {
                        let a = choose|a: int| 0 <= a < sub.len() && sub[a] == j;
                        if a < i {
                            assert(ids@.subrange(0, i as int)[a] == j);
                        }
                    }
                    if ids@.subrange(0, i as int).contains(j) {
                        let a = choose|a: int| 0 <= a < i && ids@.subrange(0, i as int)[a] == j;
                        assert(sub[a] == j);
                    }
                    if j == k {
                        assert(sub[i as int] == j);
                    }
                }
                assert(self.log@ =~= s.restrict(Set::new(|j: u64| !sub.contains(j))));
            }
            i = i + 1;
        }
        assert(ids@.subrange(0, i as int) =~= ids@);
    }

    /// Drops the entries whose index is at least `from`; returns their
    /// indexes, ascending.
    pub fn truncate(&mut self, from: u64) -> (removed: Vec<u64>)
        requires
            old(self).wf(),
        ensures
            final(self).wf(),
            final(self).entries() == old(self).entries().restrict(Set::new(|k: u64| k < from)),
            removed@ == old(self).order().filter(|k: u64| k >= from),
            final(self).purged() == old(self).purged(),
            final(self).committed_id() == old(self).committed_id(),
    {
        let ghost s = self.log@;
        let ghost o = self.order();
        let removed = self.indexes_in(from, u64::MAX);
        assert(o.filter(|k: u64| from <= k <= u64::MAX) =~= o.filter(|k: u64| k >= from)) by {
            assert((|k: u64| from <= k <= u64::MAX) =~= (|k: u64| k >= from));
        }
        proof {
            self.lemma_order();
            lemma_filter_members(o, |k: u64| k >= from);
        }
        self.remove_all(&removed);
        proof {
            assert(self.log@ =~= s.restrict(Set::new(|k: u64| k < from)));
        }
        removed
    }

    /// Drops the entries up to and including `upto.index`, and records
    /// `upto` as the last purged position; returns the dropped indexes,
    /// ascending. Purging never goes back.
    pub fn purge(&mut self, upto: LogId) -> (removed: Vec<u64>)
        requires
            old(self).wf(),
            old(self).purged() matches Some(p) ==> log_id_le(p, upto),
        ensures
            final(self).wf(),
            final(self).entries() == old(self).entries().restrict(Set::new(|k: u64| k > upto.index)),
            removed@ == old(self).order().filter(|k: u64| 0 <= k <= upto.index),
            final(self).purged() == Some(upto),
            final(self).committed_id() == old(self).committed_id(),
    {
        let ghost s = self.log@;
        let ghost o = self.order();
        let removed = self.indexes_in(0, upto.index);
        proof {
            self.lemma_order();
            lemma_filter_members(o, |k: u64| 0 <= k <= upto.index);
        }
        self.remove_all(&removed);
        self.last_purged = Some(upto);
        proof {
            assert(self.log@ =~= s.restrict(Set::new(|k: u64| k > upto.index)));
        }
        removed
    }
}

/// Filtering a sequence of distinct, ascending indexes keeps them distinct,
/// and keeps exactly the members that pass.
proof fn lemma_filter_members(o: Seq<u64>, p: spec_fn(u64) -> bool)
    requires
        forall|i: int, j: int| 0 <= i < j < o.len() ==> o[i] < o[j],
    ensures
        o.filter(p).no_duplicates(),
        forall|k: u64| #[trigger] o.filter(p).contains(k) <==> (o.contains(k) && p(k)),
    decreases o.len(),
{
    broadcast use vstd::seq_lib::group_filter_ensures;
    if o.len() > 0 {
        let o0 = o.drop_last();
        assert forall|i: int, j: int| 0 <= i < j < o0.len() implies o0[i] < o0[j] by {
            assert(o0[i] == o[i] && o0[j] == o[j]);
        }
        lemma_filter_members(o0, p);
        assert(o =~= o0.push(o.last()));
        o0.lemma_filter_push(o.last(), p);
        assert forall|k: u64| o0.contains(k) implies k < o.last() by {
            let a = choose|a: int| 0 <= a < o0.len() && o0[a] == k;
            assert(o[a] < o[o.len() - 1]);
        }
        assert forall|k: u64| #[trigger] o.contains(k) <==> (o0.contains(k) || k == o.last()) by {
            if o.contains(k) {
                let a = choose|a: int| 0 <= a < o.len() && o[a] == k;
                if a < o.len() - 1 {
                    assert(o0[a] == k);
                }
            }
            if o0.contains(k) {
                let a = choose|a: int| 0 <= a < o0.len() && o0[a] == k;
                assert(o[a] == k);
            }
            if k == o.last() {
                assert(o[o.len() - 1] == k);
            }
        }
        if p(o.last()) {
            let f0 = o0.filter(p);
            let f = f0.push(o.last());
            assert forall|k: u64| #[trigger] f.contains(k) <==> (f0.contains(k) || k == o.last()) by {
                if f.contains(k) {
                    let a = choose|a: int| 0 <= a < f.len() && f[a] == k;
                    if a < f0.len() {
                        assert(f0[a] == k);
                    }
                }
                if f0.contains(k) {
                    let a = choose|a: int| 0 <= a < f0.len() && f0[a] == k;
                    assert(f[a] == k);
                }
                if k == o.last() {
                    assert(f[f.len() - 1] == k);
                }
            }
            assert(!f0.contains(o.last()));
        }
    }
}

proof fn lemma_lower_hex_value(n: nat)
    ensures
        lower_hex_spec(n).len() > 0,
        all_hex_digits(lower_hex_spec(n)),
        hex_digits_value(lower_hex_spec(n)) == n,
    decreases n,
{
    let t = lower_hex_spec(n);
    if n < 16 {
        assert(t =~= seq![nibble_char(n as int)]);
        assert(t.drop_last() =~= Seq::<char>::empty());
        assert(hex_digits_value(t.drop_last()) == 0);
        assert(hex_char_value(t[0]) == Some(n as int));
        assert(t.last() == t[0]);
    } else {
        lemma_lower_hex_value(n / 16);
        let p = lower_hex_spec(n / 16);
        assert(t == p.push(nibble_char((n % 16) as int)));
        assert(t.drop_last() =~= p);
        assert(hex_char_value(t.last()) == Some((n % 16) as int));
        assert forall|i: int| 0 <= i < t.len() implies (#[trigger] hex_char_value(t[i])) is Some by {
            if i < p.len() {
                assert(t[i] == p[i]);
            }
        }
    }
}

proof fn lemma_zeros_value(k: nat, d: Seq<char>)
    requires
        all_hex_digits(d),
    ensures
        all_hex_digits(Seq::new(k, |i: int| '0') + d),
        hex_digits_value(Seq::new(k, |i: int| '0') + d) == hex_digits_value(d),
    decreases d.len() + k,
{
    let z = Seq::new(k, |i: int| '0');
    let t = z + d;
    assert forall|i: int| 0 <= i < t.len() implies (#[trigger] hex_char_value(t[i])) is Some by {
        if i >= z.len() {
            assert(t[i] == d[i - z.len()]);
        }
    }
    if d.len() > 0 {
        assert(t.drop_last() =~= z + d.drop_last());
        assert(t.last() == d.last());
        assert forall|i: int| 0 <= i < d.drop_last().len() implies (#[trigger] hex_char_value(d.drop_last()[i])) is Some by {
            assert(d.drop_last()[i] == d[i]);
        }
        lemma_zeros_value(k, d.drop_last());
    } else if k > 0 {
        assert(t.drop_last() =~= Seq::new((k - 1) as nat, |i: int| '0') + d);
        lemma_zeros_value((k - 1) as nat, d);
    } else {
        assert(t =~= d);
    }
}

/// A log entry file as read back from disk: the index its name gives, the
/// position stored in it and the entry.
pub struct StoredLogEntry<E> {
    pub file_index: u64,
    pub id: LogId,
    pub entry: E,
}

/// The first file, from `i` on, whose stored index is not the one its name gives.
pub open spec fn first_mismatch<E>(s: Seq<StoredLogEntry<E>>, i: int) -> Option<int>
    decreases s.len() - i,
{
    if i < 0 || i >= s.len() {
        None
    } else if s[i].file_index != s[i].id.index {
        Some(i)
    } else {
        first_mismatch(s, i + 1)
    }
}

/// The log the files make up, a later file replacing an earlier one with
/// the same index.
pub open spec fn stored_log<E>(s: Seq<StoredLogEntry<E>>) -> Map<u64, (LogId, E)>
    decreases s.len(),
{
    if s.len() == 0 {
        Map::empty()
    } else {
        stored_log(s.drop_last()).insert(s.last().id.index, (s.last().id, s.last().entry))
    }
}

/// The message for a file whose stored index differs from its name's.
pub open spec fn mismatch_text(file_index: u64, stored: u64) -> Seq<char> {
    "Log entry index mismatch: filename says "@ + dec_spec(file_index as nat) + ", content says "@
        + dec_spec(stored as nat)
}

/// Rebuilds the log from its entry files, in the order they were read:
/// the first file whose stored index differs from its name's is an error;
/// otherwise each entry is stored at its index.
pub fn restore_log<E>(files: Vec<StoredLogEntry<E>>) -> (r: Result<RaftLog<E>, String>)
    ensures
        match first_mismatch(files@, 0) {
            Some(i) => r matches Err(m) && m@ == mismatch_text(files@[i].file_index, files@[i].id.index),
            None => r matches Ok(log) && log.wf() && log.entries() == stored_log(files@) && log.purged() is None
                && log.committed_id() is None,
        },
{
    let ghost all = files@;
    let mut i: usize = 0;
    while i < files.len()
        invariant
            files@ == all,
            i <= all.len(),
            first_mismatch(all, 0) == first_mismatch(all, i as int),
        decreases files.len() - i,
    {
        if files[i].file_index != files[i].id.index {
            let mut m = String::from_str("Log entry index mismatch: filename says ");
            push_decimal(&mut m, files[i].file_index);
            m.append(", content says ");
            push_decimal(&mut m, files[i].id.index);
            return Err(m);
        }
        i = i + 1;
    }
    let mut log: RaftLog<E> = RaftLog::new();
    let mut rest = files;
    let ghost mut taken: int = 0;
    while rest.len() > 0
        invariant
            0 <= taken <= all.len(),
            rest@ == all.subrange(taken, all.len() as int),
            log.wf(),
            log.entries() == stored_log(all.subrange(0, taken)),
            log.purged() is None,
            log.committed_id() is None,
        decreases rest.len(),
    {
        let f = rest.remove(0);
        proof {
            assert(f == all[taken]);
            assert(all.subrange(0, taken + 1).drop_last() =~= all.subrange(0, taken));
            taken = taken + 1;
            assert(rest@ =~= all.subrange(taken, all.len() as int));
        }
        log.insert(f.id, f.entry);
    }
    assert(all.subrange(0, taken) =~= all);
    Ok(log)
}

/// The file that holds the log entry at `index` (what `log_entry_filename`
/// gives).
pub open spec fn log_file_name(index: u64) -> Seq<char> {
    zero_pad(lower_hex_spec(index as nat), 8) + ".bin"@
}

/// The log directory, as file names and the entries stored in them, after
/// writing `written` in order into `dir`: each entry goes to the file named
/// by its index, replacing what was there.
pub open spec fn write_log_files<E>(
    dir: Map<Seq<char>, (LogId, E)>,
    written: Seq<(LogId, E)>,
) -> Map<Seq<char>, (LogId, E)>
    decreases written.len(),
{
    if written.len() == 0 {
        dir
    } else {
        write_log_files(dir, written.drop_last()).insert(log_file_name(written.last().0.index), written.last())
    }
}

/// The last entry written at each index.
pub open spec fn last_writes<E>(written: Seq<(LogId, E)>) -> Map<u64, (LogId, E)>
    decreases written.len(),
{
    if written.len() == 0 {
        Map::empty()
    } else {
        last_writes(written.drop_last()).insert(written.last().0.index, written.last())
    }
}

/// `files` is what reading the directory `dir` gives, in the order of
/// `names`: each of the names in `dir` that name a log index, once, in any
/// order, with the index its name gives and the entry stored under it.
pub open spec fn dir_listing<E>(
    dir: Map<Seq<char>, (LogId, E)>,
    names: Seq<Seq<char>>,
    files: Seq<StoredLogEntry<E>>,
) -> bool {
    &&& names.no_duplicates()
    &&& names.len() == files.len()
    &&& forall|i: int| 0 <= i < names.len() ==> {
        &&& dir.dom().contains(#[trigger] names[i])
        &&& log_index_of(names[i]) is Some
        &&& files[i] == (StoredLogEntry {
            file_index: log_index_of(names[i])->0,
            id: dir[names[i]].0,
            entry: dir[names[i]].1,
        })
    }
    &&& forall|n: Seq<char>| #[trigger] dir.dom().contains(n) && log_index_of(n) is Some ==> names.contains(n)
}

proof fn lemma_log_file_names()
    ensures
        forall|k: u64| #[trigger] log_index_of(log_file_name(k)) == Some(k),
{
    assert forall|k: u64| #[trigger] log_index_of(log_file_name(k)) == Some(k) by {
        law_log_filename_roundtrip(k);
    }
}

proof fn lemma_written_dir<E>(written: Seq<(LogId, E)>)
    ensures
        forall|k: u64| #[trigger] last_writes(written).dom().contains(k) ==> {
            &&& write_log_files(Map::<Seq<char>, (LogId, E)>::empty(), written).dom().contains(log_file_name(k))
            &&& write_log_files(Map::<Seq<char>, (LogId, E)>::empty(), written)[log_file_name(k)] == last_writes(written)[k]
            &&& last_writes(written)[k].0.index == k
        },
        forall|n: Seq<char>| #[trigger] write_log_files(Map::<Seq<char>, (LogId, E)>::empty(), written).dom().contains(n) ==> {
            &&& log_index_of(n) is Some
            &&& n == log_file_name(log_index_of(n)->0)
            &&& last_writes(written).dom().contains(log_index_of(n)->0)
        },
    decreases written.len(),
{
    lemma_log_file_names();
    if written.len() > 0 {
        let w0 = written.drop_last();
        lemma_written_dir(w0);
        let e = written.last();
        let ke = e.0.index;
        let d = write_log_files(Map::<Seq<char>, (LogId, E)>::empty(), written);
        let d0 = write_log_files(Map::<Seq<char>, (LogId, E)>::empty(), w0);
        let lw = last_writes(written);
        let lw0 = last_writes(w0);
        assert(d == d0.insert(log_file_name(ke), e));
        assert(lw == lw0.insert(ke, e));
        assert(log_index_of(log_file_name(ke)) == Some(ke));
        assert forall|k: u64| #[trigger] lw.dom().contains(k) implies {
            &&& d.dom().contains(log_file_name(k))
            &&& d[log_file_name(k)] == lw[k]
            &&& lw[k].0.index == k
        } by {
            if k != ke {
                assert(log_index_of(log_file_name(k)) == Some(k));
                assert(lw0.dom().contains(k));
            }
        }
        assert forall|n: Seq<char>| #[trigger] d.dom().contains(n) implies {
            &&& log_index_of(n) is Some
            &&& n == log_file_name(log_index_of(n)->0)
            &&& lw.dom().contains(log_index_of(n)->0)
        } by {
            if n != log_file_name(ke) {
                assert(d0.dom().contains(n));
            }
        }
    }
}

proof fn lemma_no_mismatch<E>(s: Seq<StoredLogEntry<E>>, i: int)
    requires
        0 <= i,
        forall|j: int| 0 <= j < s.len() ==> (#[trigger] s[j]).file_index == s[j].id.index,
    ensures
        first_mismatch(s, i) is None,
    decreases s.len() - i,
{
    if i < s.len() {
        lemma_no_mismatch(s, i + 1);
    }
}

proof fn lemma_stored_log_distinct<E>(s: Seq<StoredLogEntry<E>>)
    requires
        forall|i: int, j: int| 0 <= i < j < s.len() ==> (#[trigger] s[i]).id.index != (#[trigger] s[j]).id.index,
    ensures
        forall|k: u64| #[trigger] stored_log(s).dom().contains(k) ==> exists|i: int| 0 <= i < s.len() && (#[trigger] s[i]).id.index == k,
        forall|i: int| 0 <= i < s.len() ==> #[trigger] stored_log(s).dom().contains(s[i].id.index)
            && stored_log(s)[s[i].id.index] == (s[i].id, s[i].entry),
    decreases s.len(),
{
    if s.len() > 0 {
        let s0 = s.drop_last();
        assert forall|i: int, j: int| 0 <= i < j < s0.len() implies (#[trigger] s0[i]).id.index != (#[trigger] s0[j]).id.index by {
            assert(s0[i] == s[i] && s0[j] == s[j]);
        }
        lemma_stored_log_distinct(s0);
        let m = stored_log(s);
        assert(m == stored_log(s0).insert(s.last().id.index, (s.last().id, s.last().entry)));
        assert forall|k: u64| #[trigger] m.dom().contains(k) implies exists|i: int| 0 <= i < s.len() && (#[trigger] s[i]).id.index == k by {
            if k == s.last().id.index {
                assert(s[s.len() - 1].id.index == k);
            } else {
                let i = choose|i: int| 0 <= i < s0.len() && (#[trigger] s0[i]).id.index == k;
                assert(s[i] == s0[i]);
            }
        }
        assert forall|i: int| 0 <= i < s.len() implies #[trigger] m.dom().contains(s[i].id.index)
            && m[s[i].id.index] == (s[i].id, s[i].entry) by {
            if i < s.len() - 1 {
                assert(s[i] == s0[i]);
                assert(s[i].id.index != s[s.len() - 1].id.index);
            }
        }
    }
}

/// Writing entries into an empty log directory and reading the directory
/// back, whatever order the files are listed in, finds no mismatch and
/// gives each index the last entry written at it (so `restore_log` on the
/// files read gives exactly that log).
pub proof fn law_log_reload<E>(written: Seq<(LogId, E)>, names: Seq<Seq<char>>, files: Seq<StoredLogEntry<E>>)
    requires
        dir_listing(write_log_files(Map::<Seq<char>, (LogId, E)>::empty(), written), names, files),
    ensures
        first_mismatch(files, 0) is None,
        stored_log(files) == last_writes(written),
{
    let d = write_log_files(Map::<Seq<char>, (LogId, E)>::empty(), written);
    let lw = last_writes(written);
    lemma_log_file_names();
    lemma_written_dir(written);
    assert forall|i: int| 0 <= i < files.len() implies {
        &&& (#[trigger] files[i]).file_index == files[i].id.index
        &&& names[i] == log_file_name(files[i].file_index)
        &&& lw.dom().contains(files[i].file_index)
        &&& lw[files[i].file_index] == (files[i].id, files[i].entry)
    } by {
        let n = names[i];
        assert(d.dom().contains(n));
    }
    lemma_no_mismatch(files, 0);
    assert forall|i: int, j: int| 0 <= i < j < files.len() implies (#[trigger] files[i]).id.index != (#[trigger] files[j]).id.index by {
        if files[i].id.index == files[j].id.index {
            assert(names[i] == names[j]);
        }
    }
    lemma_stored_log_distinct(files);
    let m = stored_log(files);
    assert forall|k: u64| #[trigger] m.dom().contains(k) <==> lw.dom().contains(k) by {
        if lw.dom().contains(k) {
            let n = log_file_name(k);
            assert(d.dom().contains(n));
            assert(names.contains(n));
            let i = choose|i: int| 0 <= i < names.len() && names[i] == n;
            assert(log_index_of(names[i]) == Some(k));
            assert(files[i].id.index == k);
        }
    }
    assert forall|k: u64| #[trigger] m.dom().contains(k) implies m[k] == lw[k] by {
        let i = choose|i: int| 0 <= i < files.len() && (#[trigger] files[i]).id.index == k;
    }
    assert(m =~= lw);
}

/// Reading the index back from the file name of an entry gives the index.
pub proof fn law_log_filename_roundtrip(index: u64)
    ensures
        log_index_of(zero_pad(lower_hex_spec(index as nat), 8) + ".bin"@) == Some(index),
{
    reveal_strlit(".bin");
    let h = lower_hex_spec(index as nat);
    lemma_lower_hex_value(index as nat);
    let p = zero_pad(h, 8);
    if h.len() < 8 {
        lemma_zeros_value((8 - h.len()) as nat, h);
    }
    let name = p + ".bin"@;
    assert(name.subrange(name.len() - 4, name.len() as int) =~= ".bin"@);
    assert(name.subrange(0, name.len() - 4) =~= p);
    assert(hex_char_value(p[0]) is Some);
    assert(p[0] != '+');
}

/// A read gives back what the last write at that index stored; other
/// indexes are unaffected.
pub proof fn law_log_read_after_write<E>(pre: RaftLog<E>, post: RaftLog<E>, id: LogId, entry: E, k: u64)
    requires
        post.entries() == pre.entries().insert(id.index, (id, entry)),
    ensures
        post.entries().dom().contains(id.index),
        post.entries()[id.index] == (id, entry),
        k != id.index ==> (post.entries().dom().contains(k) == pre.entries().dom().contains(k)
            && (pre.entries().dom().contains(k) ==> post.entries()[k] == pre.entries()[k])),
{
}

/// After truncating from `from` no entry at or after `from` is left, and
/// the earlier entries are unchanged.
pub proof fn law_truncate_keeps_prefix<E>(pre: RaftLog<E>, post: RaftLog<E>, from: u64, k: u64)
    requires
        post.entries() == pre.entries().restrict(Set::new(|k: u64| k < from)),
    ensures
        k >= from ==> !post.entries().dom().contains(k),
        k < from ==> (post.entries().dom().contains(k) == pre.entries().dom().contains(k)
            && (pre.entries().dom().contains(k) ==> post.entries()[k] == pre.entries()[k])),
{
}

/// After purging up to `upto` no entry at or before its index is left, the
/// later entries are unchanged, and the purged position only moves forward.
pub proof fn law_purge_moves_forward<E>(pre: RaftLog<E>, post: RaftLog<E>, upto: LogId, k: u64)
    requires
        post.entries() == pre.entries().restrict(Set::new(|k: u64| k > upto.index)),
        post.purged() == Some(upto),
        pre.purged() matches Some(p) ==> log_id_le(p, upto),
    ensures
        k <= upto.index ==> !post.entries().dom().contains(k),
        k > upto.index ==> (post.entries().dom().contains(k) == pre.entries().dom().contains(k)
            && (pre.entries().dom().contains(k) ==> post.entries()[k] == pre.entries()[k])),
        pre.purged() matches Some(p) ==> (post.purged() matches Some(q) && log_id_le(p, q)),
{
}

} // verus!
