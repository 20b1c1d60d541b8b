//! The peer registry: TEE instances with a pending challenge, and instances
//! whose attestation was verified.
//!
//! Each instance is pending or verified, never both. An instance that is
//! verified cannot register again until its trust is revoked. A pending
//! challenge that is still valid is handed out again rather than replaced.
//! Every change is recorded as an event, which the caller drains and
//! forwards to subscribers.

use vstd::prelude::*;
use vstd::string::*;
use crate::clock::now_millis;
use crate::crypto::random_bytes32;
use crate::identity::InstanceId;
use crate::tee::{
    Tee, TeeRecord, TeeState, PeerRegistryEvent, pending_record, valid_challenge_at, challenge_expired_at,
};

verus! {

/// Default validity of a challenge, in milliseconds.
pub const DEFAULT_CHALLENGE_EXPIRY: u64 = 60_000;

/// Capacity of the channel that forwards registry events to subscribers.
pub const EVENT_CHANNEL_CAPACITY: usize = 256;

/// Whether a record of instance `k` is in `s`.
pub open spec fn has_id(s: Seq<TeeRecord>, k: Seq<u8>) -> bool {
    exists|i: int| 0 <= i < s.len() && (#[trigger] s[i]).instance_id@ == k
}

/// No two records of `s` are of the same instance.
pub open spec fn ids_distinct(s: Seq<TeeRecord>) -> bool {
    forall|i: int, j: int|
        #![trigger s[i], s[j]]
        0 <= i < s.len() && 0 <= j < s.len() && i != j ==> s[i].instance_id@ != s[j].instance_id@
}

/// The records of `s` by instance identity.
pub open spec fn record_map(s: Seq<TeeRecord>) -> Map<Seq<u8>, TeeRecord> {
    Map::new(
        |k: Seq<u8>| has_id(s, k),
        |k: Seq<u8>| s[choose|i: int| 0 <= i < s.len() && (#[trigger] s[i]).instance_id@ == k],
    )
}

/// The identities of the records of `s`, in order.
pub open spec fn ids_of(s: Seq<TeeRecord>) -> Seq<Seq<u8>> {
    s.map_values(|r: TeeRecord| r.instance_id@)
}

proof fn lemma_map_at(s: Seq<TeeRecord>, i: int)
    requires
        ids_distinct(s),
        0 <= i < s.len(),
    ensures
        record_map(s).dom().contains(s[i].instance_id@),
        record_map(s)[s[i].instance_id@] == s[i],
{
    let k = s[i].instance_id@;
    assert(has_id(s, k));
    let j = choose|j: int| 0 <= j < s.len() && (#[trigger] s[j]).instance_id@ == k;
    assert(s[j].instance_id@ == k);
    if j != i {
        assert(s[i].instance_id@ != s[j].instance_id@);
    }
}

proof fn lemma_map_push(s: Seq<TeeRecord>, r: TeeRecord)
    requires
        ids_distinct(s),
        !has_id(s, r.instance_id@),
    ensures
        ids_distinct(s.push(r)),
        record_map(s.push(r)) == record_map(s).insert(r.instance_id@, r),
{
    let t = s.push(r);
    assert forall|i: int, j: int| 0 <= i < t.len() && 0 <= j < t.len() && i != j implies
        #[trigger] t[i].instance_id@ != #[trigger] t[j].instance_id@ by {
        if i < s.len() && j < s.len() {
            assert(t[i] == s[i] && t[j] == s[j]);
        } else if i < s.len() {
            assert(t[i] == s[i]);
        } else {
            assert(t[j] == s[j]);
        }
    }
    let m = record_map(s).insert(r.instance_id@, r);
    assert forall|k: Seq<u8>| #[trigger] record_map(t).dom().contains(k) <==> m.dom().contains(k) by {
        if has_id(s, k) {
            let i = choose|i: int| 0 <= i < s.len() && (#[trigger] s[i]).instance_id@ == k;
            assert(t[i] == s[i]);
        }
        if has_id(t, k) {
            let i = choose|i: int| 0 <= i < t.len() && (#[trigger] t[i]).instance_id@ == k;
            if i < s.len() {
                assert(t[i] == s[i]);
            }
        }
        if k == r.instance_id@ {
            assert(t[s.len() as int] == r);
        }
    }
    assert forall|k: Seq<u8>| record_map(t).dom().contains(k) implies #[trigger] record_map(t)[k] == m[k] by {
        let i = choose|i: int| 0 <= i < t.len() && (#[trigger] t[i]).instance_id@ == k;
        lemma_map_at(t, i);
        if i < s.len() {
            assert(t[i] == s[i]);
            lemma_map_at(s, i);
        }
    }
    assert(record_map(t) =~= m);
}

proof fn lemma_map_remove(s: Seq<TeeRecord>, i: int)
    requires
        ids_distinct(s),
        0 <= i < s.len(),
    ensures
        ids_distinct(s.remove(i)),
        record_map(s.remove(i)) == record_map(s).remove(s[i].instance_id@),
{
    let t = s.remove(i);
    let key = s[i].instance_id@;
    assert forall|j: int| 0 <= j < t.len() implies #[trigger] t[j] == (if j < i { s[j] } else { s[j + 1] }) by {}
    assert forall|a: int, b: int| 0 <= a < t.len() && 0 <= b < t.len() && a != b implies
        #[trigger] t[a].instance_id@ != #[trigger] t[b].instance_id@ by {
        let a2 = if a < i { a } else { a + 1 };
        let b2 = if b < i { b } else { b + 1 };
        assert(t[a] == s[a2] && t[b] == s[b2]);
    }
    let m = record_map(s).remove(key);
    assert forall|k: Seq<u8>| #[trigger] record_map(t).dom().contains(k) <==> m.dom().contains(k) by {
        if has_id(t, k) {
            let a = choose|a: int| 0 <= a < t.len() && (#[trigger] t[a]).instance_id@ == k;
            let a2 = if a < i { a } else { a + 1 };
            assert(t[a] == s[a2]);
            assert(s[a2].instance_id@ != s[i].instance_id@);
        }
        if m.dom().contains(k) {
            let a = choose|a: int| 0 <= a < s.len() && (#[trigger] s[a]).instance_id@ == k;
            assert(a != i);
            let a2 = if a < i { a } else { a - 1 };
            assert(t[a2] == s[a]);
        }
    }
    assert forall|k: Seq<u8>| record_map(t).dom().contains(k) implies #[trigger] record_map(t)[k] == m[k] by {
        let a = choose|a: int| 0 <= a < t.len() && (#[trigger] t[a]).instance_id@ == k;
        let a2 = if a < i { a } else { a + 1 };
        assert(t[a] == s[a2]);
        lemma_map_at(t, a);
        lemma_map_at(s, a2);
    }
    assert(record_map(t) =~= m);
}

proof fn lemma_map_update(s: Seq<TeeRecord>, i: int, r: TeeRecord)
    requires
        ids_distinct(s),
        0 <= i < s.len(),
        r.instance_id@ == s[i].instance_id@,
    ensures
        ids_distinct(s.update(i, r)),
        record_map(s.update(i, r)) == record_map(s).insert(r.instance_id@, r),
{
    let t = s.update(i, r);
    assert forall|a: int, b: int| 0 <= a < t.len() && 0 <= b < t.len() && a != b implies
        #[trigger] t[a].instance_id@ != #[trigger] t[b].instance_id@ by {
        assert(s[a].instance_id@ != s[b].instance_id@);
    }
    let m = record_map(s).insert(r.instance_id@, r);
    assert forall|k: Seq<u8>| #[trigger] record_map(t).dom().contains(k) <==> m.dom().contains(k) by {
        if has_id(t, k) {
            let a = choose|a: int| 0 <= a < t.len() && (#[trigger] t[a]).instance_id@ == k;
            assert(s[a].instance_id@ == k);
        }
        if has_id(s, k) {
            let a = choose|a: int| 0 <= a < s.len() && (#[trigger] s[a]).instance_id@ == k;
            assert(t[a].instance_id@ == k);
        }
        if k == r.instance_id@ {
            assert(t[i] == r);
        }
    }
    assert forall|k: Seq<u8>| record_map(t).dom().contains(k) implies #[trigger] record_map(t)[k] == m[k] by {
        let a = choose|a: int| 0 <= a < t.len() && (#[trigger] t[a]).instance_id@ == k;
        lemma_map_at(t, a);
        if a != i {
            lemma_map_at(s, a);
        }
    }
    assert(record_map(t) =~= m);
}

proof fn lemma_map_len(s: Seq<TeeRecord>)
    requires
        ids_distinct(s),
    ensures
        record_map(s).dom().finite(),
        record_map(s).dom().len() == s.len(),
{
    let f = |r: TeeRecord| r.instance_id@;
    let ids = s.map_values(f);
    assert forall|a: int, b: int| 0 <= a < ids.len() && 0 <= b < ids.len() && a != b implies ids[a] != ids[b] by {
        assert(s[a].instance_id@ != s[b].instance_id@);
    }
    assert(ids.no_duplicates());
    ids.unique_seq_to_set();
    assert forall|k: Seq<u8>| #[trigger] record_map(s).dom().contains(k) <==> ids.to_set().contains(k) by {
        if has_id(s, k) {
            let a = choose|a: int| 0 <= a < s.len() && (#[trigger] s[a]).instance_id@ == k;
            assert(ids[a] == k);
        }
        if ids.contains(k) {
            let a = choose|a: int| 0 <= a < ids.len() && ids[a] == k;
            assert(s[a].instance_id@ == k);
        }
    }
    assert(record_map(s).dom() =~= ids.to_set());
    vstd::seq_lib::seq_to_set_is_finite(ids);
}

fn find_index(v: &Vec<TeeRecord>, id: &InstanceId) -> (r: Option<usize>)
    ensures
        match r {
            Some(i) => i < v@.len() && v@[i as int].instance_id@ == id@,
            None => !has_id(v@, id@),
        },
{
    let mut i: usize = 0;
    while i < v.len()
        invariant
            i <= v@.len(),
            forall|j: int| 0 <= j < i ==> (#[trigger] v@[j]).instance_id@ != id@,
        decreases v.len() - i,
    {
        if v[i].instance_id.same(id) {
            return Some(i);
        }
        i = i + 1;
    }
    None
}

/// Registry of TEE instances awaiting verification and of verified ones.
pub struct PeerRegistry {
    pending: Vec<TeeRecord>,
    verified: Vec<TeeRecord>,
    events: Vec<PeerRegistryEvent>,
    challenge_expiry: u64,
}

impl PeerRegistry {
    /// Instances with a pending challenge, by identity.
    pub closed spec fn pending_map(&self) -> Map<Seq<u8>, TeeRecord> {
        record_map(self.pending@)
    }

    /// Verified instances, by identity.
    pub closed spec fn verified_map(&self) -> Map<Seq<u8>, TeeRecord> {
        record_map(self.verified@)
    }

    /// Events recorded and not yet drained, oldest first.
    pub closed spec fn events(&self) -> Seq<PeerRegistryEvent> {
        self.events@
    }

    /// Validity of a new challenge, in milliseconds.
    pub closed spec fn expiry(&self) -> u64 {
        self.challenge_expiry
    }

    /// Well-formedness: one record per instance in each table, and no
    /// instance both pending and verified.
    pub closed spec fn wf(&self) -> bool {
        &&& ids_distinct(self.pending@)
        &&& ids_distinct(self.verified@)
        &&& forall|k: Seq<u8>| !(#[trigger] has_id(self.pending@, k) && has_id(self.verified@, k))
    }

    /// Each record is filed under its own instance, each table is finite,
    /// and no instance is both pending and verified.
    pub proof fn lemma_wf(&self)
        requires
            self.wf(),
        ensures
            self.pending_map().dom().finite(),
            self.verified_map().dom().finite(),
            forall|k: Seq<u8>| #[trigger] self.pending_map().dom().contains(k) ==> self.pending_map()[k].instance_id@ == k,
            forall|k: Seq<u8>| #[trigger] self.verified_map().dom().contains(k) ==> self.verified_map()[k].instance_id@ == k,
            forall|k: Seq<u8>| !(#[trigger] self.pending_map().dom().contains(k) && self.verified_map().dom().contains(k)),
    {
        lemma_map_len(self.pending@);
        lemma_map_len(self.verified@);
        assert forall|k: Seq<u8>| #[trigger] self.pending_map().dom().contains(k) implies self.pending_map()[k].instance_id@ == k by {
            let i = choose|i: int| 0 <= i < self.pending@.len() && (#[trigger] self.pending@[i]).instance_id@ == k;
            lemma_map_at(self.pending@, i);
        }
        assert forall|k: Seq<u8>| #[trigger] self.verified_map().dom().contains(k) implies self.verified_map()[k].instance_id@ == k by {
            let i = choose|i: int| 0 <= i < self.verified@.len() && (#[trigger] self.verified@[i]).instance_id@ == k;
            lemma_map_at(self.verified@, i);
        }
    }

    /// An empty registry whose challenges are valid for `challenge_expiry`
    /// milliseconds.
    pub fn with_config(challenge_expiry: u64) -> (r: Self)
        ensures
            r.wf(),
            r.pending_map() == Map::<Seq<u8>, TeeRecord>::empty(),
            r.verified_map() == Map::<Seq<u8>, TeeRecord>::empty(),
            r.events() == Seq::<PeerRegistryEvent>::empty(),
            r.expiry() == challenge_expiry,
    {
        let r = PeerRegistry { pending: Vec::new(), verified: Vec::new(), events: Vec::new(), challenge_expiry };
        assert(r.pending_map() =~= Map::<Seq<u8>, TeeRecord>::empty());
        assert(r.verified_map() =~= Map::<Seq<u8>, TeeRecord>::empty());
        r
    }

    /// An empty registry with challenges valid for 60 seconds.
    pub fn new() -> (r: Self)
        ensures
            r.wf(),
            r.pending_map() == Map::<Seq<u8>, TeeRecord>::empty(),
            r.verified_map() == Map::<Seq<u8>, TeeRecord>::empty(),
            r.events() == Seq::<PeerRegistryEvent>::empty(),
            r.expiry() == DEFAULT_CHALLENGE_EXPIRY,
    {
        Self::with_config(DEFAULT_CHALLENGE_EXPIRY)
    }

    /// Hands out the events recorded so far, oldest first, and forgets them.
    pub fn drain_events(&mut self) -> (r: Vec<PeerRegistryEvent>)
        requires
            old(self).wf(),
        ensures
            final(self).wf(),
            r@ == old(self).events(),
            final(self).events() == Seq::<PeerRegistryEvent>::empty(),
            final(self).pending_map() == old(self).pending_map(),
            final(self).verified_map() == old(self).verified_map(),
            final(self).expiry() == old(self).expiry(),
    {
        let mut out: Vec<PeerRegistryEvent> = Vec::new();
        std::mem::swap(&mut out, &mut self.events);
        out
    }

    /// Whether the instance is verified.
    pub fn is_verified(&self, instance_id: &InstanceId) -> (r: bool)
        requires
            self.wf(),
        ensures
            r == self.verified_map().dom().contains(instance_id@),
    {
        find_index(&self.verified, instance_id).is_some()
    }

    /// The record of a verified instance.
    pub fn get_verified(&self, instance_id: &InstanceId) -> (r: Option<TeeRecord>)
        requires
            self.wf(),
        ensures
            match r {
                Some(rec) => self.verified_map().dom().contains(instance_id@) && rec == self.verified_map()[instance_id@],
                None => !self.verified_map().dom().contains(instance_id@),
            },
    {
        match find_index(&self.verified, instance_id) {
            Some(i) => {
                proof {
                    lemma_map_at(self.verified@, i as int);
                }
                Some(self.verified[i].duplicate())
            },
            None => None,
        }
    }

    /// The record of an instance with a pending challenge.
    pub fn get_pending_record(&self, instance_id: &InstanceId) -> (r: Option<TeeRecord>)
        requires
            self.wf(),
        ensures
            match r {
                Some(rec) => self.pending_map().dom().contains(instance_id@) && rec == self.pending_map()[instance_id@],
                None => !self.pending_map().dom().contains(instance_id@),
            },
    {
        match find_index(&self.pending, instance_id) {
            Some(i) => {
                proof {
                    lemma_map_at(self.pending@, i as int);
                }
                Some(self.pending[i].duplicate())
            },
            None => None,
        }
    }

    /// The challenge pending for the instance, if it is still valid at `now`.
    pub fn get_pending_challenge_at(&self, instance_id: &InstanceId, now: u64) -> (r: Option<[u8; 32]>)
        requires
            self.wf(),
        ensures
            r == if self.pending_map().dom().contains(instance_id@) {
                valid_challenge_at(self.pending_map()[instance_id@], now)
            } else {
                None
            },
    {
        match find_index(&self.pending, instance_id) {
            Some(i) => {
                proof {
                    lemma_map_at(self.pending@, i as int);
                }
                match self.pending[i].get_valid_challenge_at(now) {
                    Some(c) => Some(*c),
                    None => None,
                }
            },
            None => None,
        }
    }

    /// The challenge pending for the instance, if it is still valid now.
    pub fn get_pending_challenge(&self, instance_id: &InstanceId) -> (r: Option<[u8; 32]>)
        requires
            self.wf(),
        ensures
            r is Some ==> self.pending_map().dom().contains(instance_id@),
            exists|now: u64| r == if self.pending_map().dom().contains(instance_id@) {
                valid_challenge_at(self.pending_map()[instance_id@], now)
            } else {
                None
            },
    {
        let now = now_millis();
        self.get_pending_challenge_at(instance_id, now)
    }

    /// Number of verified instances.
    pub fn verified_count(&self) -> (r: usize)
        requires
            self.wf(),
        ensures
            r == self.verified_map().len(),
    {
        proof {
            lemma_map_len(self.verified@);
        }
        self.verified.len()
    }

    /// Number of instances with a pending challenge.
    pub fn pending_count(&self) -> (r: usize)
        requires
            self.wf(),
        ensures
            r == self.pending_map().len(),
    {
        proof {
            lemma_map_len(self.pending@);
        }
        self.pending.len()
    }
}

/// What registering instance `id` at time `now` does, with `challenge` as
/// the challenge to issue if a new one is needed: a verified instance is
/// refused (`Err(true)`); a challenge that is still valid is handed out
/// again (`Ok((c, false))`); otherwise a new challenge is recorded, replacing
/// any expired one, and announced (`Ok((challenge, true))`).
pub open spec fn register_step(
    pre: PeerRegistry,
    post: PeerRegistry,
    id: InstanceId,
    namespace: String,
    measurement_hash: String,
    tee: Tee,
    challenge: [u8; 32],
    now: u64,
    r: Result<([u8; 32], bool), bool>,
) -> bool {
    &&& post.wf()
    &&& post.expiry() == pre.expiry()
    &&& post.verified_map() == pre.verified_map()
    &&& if pre.verified_map().dom().contains(id@) {
        &&& r == Err::<([u8; 32], bool), bool>(true)
        &&& post.pending_map() == pre.pending_map()
        &&& post.events() == pre.events()
    } else if pre.pending_map().dom().contains(id@) && valid_challenge_at(pre.pending_map()[id@], now) is Some {
        &&& r == Ok::<([u8; 32], bool), bool>((valid_challenge_at(pre.pending_map()[id@], now)->0, false))
        &&& post.pending_map() == pre.pending_map()
        &&& post.events() == pre.events()
    } else {
        &&& r == Ok::<([u8; 32], bool), bool>((challenge, true))
        &&& post.pending_map() == pre.pending_map().insert(
            id@,
            pending_record(id, namespace, challenge, measurement_hash, tee, pre.expiry(), now),
        )
        &&& post.events() == pre.events().push(
            PeerRegistryEvent::Registered { namespace, instance_id: id, challenge, measurement_hash },
        )
    }
}

impl PeerRegistry {
    /// Registers an instance at time `now`; `challenge` is issued if a new
    /// challenge is needed. Returns the challenge and whether it is new, or
    /// `Err(true)` when the instance is already verified.
    pub fn register_at(
        &mut self,
        instance_id: InstanceId,
        namespace: String,
        measurement_hash: String,
        tee: Tee,
        challenge: [u8; 32],
        now: u64,
    ) -> (r: Result<([u8; 32], bool), bool>)
        requires
            old(self).wf(),
        ensures
            register_step(*old(self), *final(self), instance_id, namespace, measurement_hash, tee, challenge, now, r),
    {
        if find_index(&self.verified, &instance_id).is_some() {
            return Err(true);
        }
        let pi = find_index(&self.pending, &instance_id);
        if let Some(i) = pi {
            proof {
                lemma_map_at(self.pending@, i as int);
            }
            if let Some(c) = self.pending[i].get_valid_challenge_at(now) {
                return Ok((*c, false));
            }
        }
        let record = TeeRecord::new_pending_at(
            instance_id,
            namespace.clone(),
            challenge,
            measurement_hash.clone(),
            tee,
            self.challenge_expiry,
            now,
        );
        let ghost before = self.pending@;
        match pi {
            Some(i) => {
                proof {
                    lemma_map_update(before, i as int, record);
                }
                self.pending.set(i, record);
            },
            None => {
                proof {
                    lemma_map_push(before, record);
                }
                self.pending.push(record);
            },
        }
        proof {
            assert forall|k: Seq<u8>| !(#[trigger] has_id(self.pending@, k) && has_id(self.verified@, k)) by {
                if has_id(self.pending@, k) && k != instance_id@ {
                    assert(record_map(self.pending@).dom().contains(k));
                    assert(has_id(before, k));
                }
            }
        }
        self.events.push(PeerRegistryEvent::Registered { namespace, instance_id, challenge, measurement_hash });
        Ok((challenge, true))
    }

    /// Registers an instance now, with a random challenge if a new one is
    /// needed.
    pub fn register(
        &mut self,
        instance_id: InstanceId,
        namespace: String,
        measurement_hash: String,
        tee: Tee,
    ) -> (r: Result<([u8; 32], bool), bool>)
        requires
            old(self).wf(),
        ensures
            exists|challenge: [u8; 32], now: u64|
                register_step(*old(self), *final(self), instance_id, namespace, measurement_hash, tee, challenge, now, r),
    {
        let now = now_millis();
        let challenge = random_bytes32();
        self.register_at(instance_id, namespace, measurement_hash, tee, challenge, now)
    }
}

/// The verified record that completing a pending record with `state` gives.
pub open spec fn completed_record(id: InstanceId, pending: TeeRecord, state: TeeState) -> TeeRecord {
    TeeRecord {
        instance_id: id,
        namespace: pending.namespace,
        state,
        ip_address: pending.ip_address,
        api_port: pending.api_port,
    }
}

/// What completing the verification of `id` with `state` does: a pending
/// instance becomes verified, keeping its namespace and address, and is
/// announced; an instance that is not pending gives `None` and changes nothing.
pub open spec fn complete_step(pre: PeerRegistry, post: PeerRegistry, id: InstanceId, state: TeeState, r: Option<TeeRecord>) -> bool {
    &&& post.wf()
    &&& post.expiry() == pre.expiry()
    &&& if !pre.pending_map().dom().contains(id@) {
        &&& r is None
        &&& post.pending_map() == pre.pending_map()
        &&& post.verified_map() == pre.verified_map()
        &&& post.events() == pre.events()
    } else {
        let rec = completed_record(id, pre.pending_map()[id@], state);
        &&& r == Some(rec)
        &&& post.pending_map() == pre.pending_map().remove(id@)
        &&& post.verified_map() == pre.verified_map().insert(id@, rec)
        &&& post.events() == pre.events().push(PeerRegistryEvent::Verified { namespace: rec.namespace, instance_id: id, record: rec })
    }
}

/// What revoking `id` does: a verified instance loses its record and the
/// revocation is announced (`true`); otherwise nothing changes (`false`).
pub open spec fn revoke_step(pre: PeerRegistry, post: PeerRegistry, id: InstanceId, reason: String, r: bool) -> bool {
    &&& post.wf()
    &&& post.expiry() == pre.expiry()
    &&& post.pending_map() == pre.pending_map()
    &&& r == pre.verified_map().dom().contains(id@)
    &&& if r {
        let rec = pre.verified_map()[id@];
        &&& post.verified_map() == pre.verified_map().remove(id@)
        &&& post.events() == pre.events().push(
            PeerRegistryEvent::Revoked { namespace: rec.namespace, instance_id: id, reason, record: rec },
        )
    } else {
        &&& post.verified_map() == pre.verified_map()
        &&& post.events() == pre.events()
    }
}

impl PeerRegistry {
    /// Files `record` under its instance among the verified ones.
    fn put_verified(&mut self, record: TeeRecord)
        requires
            ids_distinct(old(self).verified@),
        ensures
            ids_distinct(final(self).verified@),
            record_map(final(self).verified@) == record_map(old(self).verified@).insert(record.instance_id@, record),
            forall|k: Seq<u8>| has_id(final(self).verified@, k) <==> (has_id(old(self).verified@, k) || k == record.instance_id@),
            final(self).pending == old(self).pending,
            final(self).events == old(self).events,
            final(self).challenge_expiry == old(self).challenge_expiry,
    {
        let ghost before = self.verified@;
        match find_index(&self.verified, &record.instance_id) {
            Some(i) => {
                proof {
                    lemma_map_update(before, i as int, record);
                }
                self.verified.set(i, record);
            },
            None => {
                proof {
                    lemma_map_push(before, record);
                }
                self.verified.push(record);
            },
        }
        proof {
            assert forall|k: Seq<u8>| has_id(self.verified@, k) <==> (has_id(before, k) || k == record.instance_id@) by {
                assert(record_map(self.verified@).dom().contains(k) == has_id(self.verified@, k));
                assert(record_map(before).dom().contains(k) == has_id(before, k));
            }
        }
    }

    /// Moves a pending instance to the verified ones with the given state,
    /// keeping its namespace and address, and announces it. `None`, with
    /// nothing changed, when the instance has no pending record.
    pub fn complete_verification(&mut self, instance_id: InstanceId, state: TeeState) -> (r: Option<TeeRecord>)
        requires
            old(self).wf(),
        ensures
            complete_step(*old(self), *final(self), instance_id, state, r),
    {
        let i = match find_index(&self.pending, &instance_id) {
            Some(i) => i,
            None => {
                return None;
            },
        };
        let ghost before = self.pending@;
        proof {
            lemma_map_at(before, i as int);
            lemma_map_remove(before, i as int);
        }
        let pending_record = self.pending.remove(i);
        let record = TeeRecord {
            instance_id,
            namespace: pending_record.namespace,
            state,
            ip_address: pending_record.ip_address,
            api_port: pending_record.api_port,
        };
        let ghost vbefore = self.verified@;
        self.put_verified(record.duplicate());
        proof {
            assert forall|k: Seq<u8>| !(#[trigger] has_id(self.pending@, k) && has_id(self.verified@, k)) by {
                if has_id(self.pending@, k) {
                    assert(record_map(self.pending@).dom().contains(k));
                    assert(has_id(before, k));
                    assert(k != instance_id@);
                }
            }
        }
        let namespace = record.namespace.clone();
        let copy = record.duplicate();
        self.events.push(PeerRegistryEvent::Verified { namespace, instance_id, record: copy });
        Some(record)
    }

    /// Drops the pending record of an instance, if any, and announces the
    /// rejection.
    pub fn reject(&mut self, instance_id: InstanceId, namespace: String, reason: String)
        requires
            old(self).wf(),
        ensures
            final(self).wf(),
            final(self).expiry() == old(self).expiry(),
            final(self).pending_map() == old(self).pending_map().remove(instance_id@),
            final(self).verified_map() == old(self).verified_map(),
            final(self).events() == old(self).events().push(
                PeerRegistryEvent::Rejected { namespace, instance_id, reason },
            ),
    {
        let ghost before = self.pending@;
        match find_index(&self.pending, &instance_id) {
            Some(i) => {
                proof {
                    lemma_map_remove(before, i as int);
                }
                self.pending.remove(i);
                proof {
                    assert forall|k: Seq<u8>| !(#[trigger] has_id(self.pending@, k) && has_id(self.verified@, k)) by {
                        if has_id(self.pending@, k) {
                            assert(record_map(self.pending@).dom().contains(k));
                            assert(has_id(before, k));
                        }
                    }
                }
            },
            None => {
                assert(record_map(before).remove(instance_id@) =~= record_map(before));
            },
        }
        self.events.push(PeerRegistryEvent::Rejected { namespace, instance_id, reason });
    }

    /// Withdraws the trust of a verified instance and announces it; `false`,
    /// with nothing changed, when the instance is not verified.
    pub fn revoke(&mut self, instance_id: &InstanceId, reason: String) -> (r: bool)
        requires
            old(self).wf(),
        ensures
            revoke_step(*old(self), *final(self), *instance_id, reason, r),
    {
        let ghost before = self.verified@;
        match find_index(&self.verified, instance_id) {
            Some(i) => {
                proof {
                    lemma_map_at(before, i as int);
                    lemma_map_remove(before, i as int);
                }
                let record = self.verified.remove(i);
                proof {
                    assert forall|k: Seq<u8>| !(#[trigger] has_id(self.pending@, k) && has_id(self.verified@, k)) by {
                        if has_id(self.verified@, k) {
                            assert(record_map(self.verified@).dom().contains(k));
                            assert(has_id(before, k));
                        }
                    }
                }
                let namespace = record.namespace.clone();
                self.events.push(PeerRegistryEvent::Revoked { namespace, instance_id: *instance_id, reason, record });
                true
            },
            None => false,
        }
    }
}

/// The pending records that are still live at `now`.
pub open spec fn unexpired(m: Map<Seq<u8>, TeeRecord>, now: u64) -> Map<Seq<u8>, TeeRecord> {
    Map::new(|k: Seq<u8>| m.dom().contains(k) && !challenge_expired_at(m[k], now), |k: Seq<u8>| m[k])
}

impl PeerRegistry {
    /// The verified records of a namespace (each once, in no promised order).
    pub fn get_verified_by_namespace(&self, namespace: &str) -> (r: Vec<TeeRecord>)
        requires
            self.wf(),
        ensures
            ids_distinct(r@),
            forall|a: int| 0 <= a < r@.len() ==> {
                &&& self.verified_map().dom().contains((#[trigger] r@[a]).instance_id@)
                &&& self.verified_map()[r@[a].instance_id@] == r@[a]
                &&& r@[a].namespace@ == namespace@
            },
            forall|k: Seq<u8>|
                self.verified_map().dom().contains(k) && (#[trigger] self.verified_map()[k]).namespace@ == namespace@
                    ==> has_id(r@, k),
    {
        let mut out: Vec<TeeRecord> = Vec::new();
        let ghost mut idx: Seq<int> = Seq::empty();
        let mut i: usize = 0;
        while i < self.verified.len()
            invariant
                ids_distinct(self.verified@),
                i <= self.verified@.len(),
                idx.len() == out@.len(),
                forall|a: int| 0 <= a < idx.len() ==> 0 <= #[trigger] idx[a] < i,
                forall|a: int, b: int| 0 <= a < b < idx.len() ==> #[trigger] idx[a] < #[trigger] idx[b],
                forall|a: int| 0 <= a < idx.len() ==> out@[a] == self.verified@[#[trigger] idx[a]],
                forall|a: int| 0 <= a < idx.len() ==> (#[trigger] out@[a]).namespace@ == namespace@,
                forall|j: int| 0 <= j < i && (#[trigger] self.verified@[j]).namespace@ == namespace@
                    ==> exists|a: int| 0 <= a < idx.len() && idx[a] == j,
            decreases self.verified.len() - i,
        {
            let ghost idx0 = idx;
            if crate::json::str_eq(self.verified[i].namespace.as_str(), namespace) {
                let rec = self.verified[i].duplicate();
                proof {
                    idx = idx.push(i as int);
                }
                out.push(rec);
                assert(idx[idx.len() - 1] == i);
            }
            i = i + 1;
            proof {
                assert forall|j: int| 0 <= j < i && (#[trigger] self.verified@[j]).namespace@ == namespace@
                    implies exists|a: int| 0 <= a < idx.len() && idx[a] == j by {
                    if j < i - 1 {
                        let a = choose|a: int| 0 <= a < idx0.len() && idx0[a] == j;
                        assert(idx[a] == idx0[a]);
                    } else {
                        assert(idx[idx.len() - 1] == j);
                    }
                }
            }
        }
        proof {
            assert forall|a: int, b: int| 0 <= a < out@.len() && 0 <= b < out@.len() && a != b implies
                #[trigger] out@[a].instance_id@ != #[trigger] out@[b].instance_id@ by {
                if a < b {
                    assert(idx[a] < idx[b]);
                } else {
                    assert(idx[b] < idx[a]);
                }
                assert(self.verified@[idx[a]].instance_id@ != self.verified@[idx[b]].instance_id@);
            }
            assert forall|a: int| 0 <= a < out@.len() implies {
                &&& self.verified_map().dom().contains((#[trigger] out@[a]).instance_id@)
                &&& self.verified_map()[out@[a].instance_id@] == out@[a]
                &&& out@[a].namespace@ == namespace@
            } by {
                lemma_map_at(self.verified@, idx[a]);
            }
            assert forall|k: Seq<u8>|
                self.verified_map().dom().contains(k) && (#[trigger] self.verified_map()[k]).namespace@ == namespace@
                    implies has_id(out@, k) by {
                let j = choose|j: int| 0 <= j < self.verified@.len() && (#[trigger] self.verified@[j]).instance_id@ == k;
                lemma_map_at(self.verified@, j);
                let a = choose|a: int| 0 <= a < idx.len() && idx[a] == j;
                assert(out@[a] == self.verified@[j]);
            }
        }
        out
    }

    /// Drops the pending records whose challenge has run out at `now`;
    /// returns how many were dropped.
    pub fn cleanup_expired_at(&mut self, now: u64) -> (r: usize)
        requires
            old(self).wf(),
        ensures
            final(self).wf(),
            final(self).expiry() == old(self).expiry(),
            final(self).pending_map() == unexpired(old(self).pending_map(), now),
            final(self).verified_map() == old(self).verified_map(),
            final(self).events() == old(self).events(),
            r == old(self).pending_map().len() - final(self).pending_map().len(),
    {
        let mut kept: Vec<TeeRecord> = Vec::new();
        let ghost mut idx: Seq<int> = Seq::empty();
        let ghost src = self.pending@;
        let mut i: usize = 0;
        while i < self.pending.len()
            invariant
                self.pending@ == src,
                ids_distinct(src),
                i <= src.len(),
                idx.len() == kept@.len(),
                kept@.len() <= i,
                forall|a: int| 0 <= a < idx.len() ==> 0 <= #[trigger] idx[a] < i,
                forall|a: int, b: int| 0 <= a < b < idx.len() ==> #[trigger] idx[a] < #[trigger] idx[b],
                forall|a: int| 0 <= a < idx.len() ==> kept@[a] == src[#[trigger] idx[a]],
                forall|a: int| 0 <= a < idx.len() ==> !challenge_expired_at(#[trigger] kept@[a], now),
                forall|j: int| 0 <= j < i && !challenge_expired_at(#[trigger] src[j], now)
                    ==> exists|a: int| 0 <= a < idx.len() && idx[a] == j,
            decreases src.len() - i,
        {
            let ghost idx0 = idx;
            if !self.pending[i].is_challenge_expired_at(now) {
                let rec = self.pending[i].duplicate();
                proof {
                    idx = idx.push(i as int);
                }
                kept.push(rec);
                assert(idx[idx.len() - 1] == i);
            }
            i = i + 1;
            proof {
                assert forall|j: int| 0 <= j < i && !challenge_expired_at(#[trigger] src[j], now)
                    implies exists|a: int| 0 <= a < idx.len() && idx[a] == j by {
                    if j < i - 1 {
                        let a = choose|a: int| 0 <= a < idx0.len() && idx0[a] == j;
                        assert(idx[a] == idx0[a]);
                    } else {
                        assert(idx[idx.len() - 1] == j);
                    }
                }
            }
        }
        proof {
            assert forall|a: int, b: int| 0 <= a < kept@.len() && 0 <= b < kept@.len() && a != b implies
                #[trigger] kept@[a].instance_id@ != #[trigger] kept@[b].instance_id@ by {
                if a < b {
                    assert(idx[a] < idx[b]);
                } else {
                    assert(idx[b] < idx[a]);
                }
                assert(src[idx[a]].instance_id@ != src[idx[b]].instance_id@);
            }
            let target = unexpired(record_map(src), now);
            assert forall|k: Seq<u8>| #[trigger] record_map(kept@).dom().contains(k) <==> target.dom().contains(k) by {
                if has_id(kept@, k) {
                    let a = choose|a: int| 0 <= a < kept@.len() && (#[trigger] kept@[a]).instance_id@ == k;
                    lemma_map_at(src, idx[a]);
                }
                if target.dom().contains(k) {
                    let j = choose|j: int| 0 <= j < src.len() && (#[trigger] src[j]).instance_id@ == k;
                    lemma_map_at(src, j);
                    let a = choose|a: int| 0 <= a < idx.len() && idx[a] == j;
                    assert(kept@[a] == src[j]);
                }
            }
            assert forall|k: Seq<u8>| record_map(kept@).dom().contains(k) implies #[trigger] record_map(kept@)[k] == target[k] by {
                let a = choose|a: int| 0 <= a < kept@.len() && (#[trigger] kept@[a]).instance_id@ == k;
                lemma_map_at(kept@, a);
                lemma_map_at(src, idx[a]);
            }
            assert(record_map(kept@) =~= target);
            lemma_map_len(src);
            lemma_map_len(kept@);
            assert forall|k: Seq<u8>| !(#[trigger] has_id(kept@, k) && has_id(self.verified@, k)) by {
                if has_id(kept@, k) {
                    assert(record_map(kept@).dom().contains(k));
                    assert(has_id(src, k));
                }
            }
        }
        let removed = self.pending.len() - kept.len();
        self.pending = kept;
        removed
    }

    /// Drops the pending records whose challenge has run out now; returns
    /// how many were dropped.
    pub fn cleanup_expired(&mut self) -> (r: usize)
        requires
            old(self).wf(),
        ensures
            final(self).wf(),
            final(self).expiry() == old(self).expiry(),
            exists|now: u64| final(self).pending_map() == unexpired(old(self).pending_map(), now),
            final(self).verified_map() == old(self).verified_map(),
            final(self).events() == old(self).events(),
            r == old(self).pending_map().len() - final(self).pending_map().len(),
    {
        let now = now_millis();
        self.cleanup_expired_at(now)
    }
}

/// A challenge that registration hands out is the instance's pending
/// challenge, valid at the time of registration.
pub proof fn law_registered_challenge_is_pending(
    pre: PeerRegistry,
    post: PeerRegistry,
    id: InstanceId,
    namespace: String,
    measurement_hash: String,
    tee: Tee,
    challenge: [u8; 32],
    now: u64,
    c: [u8; 32],
    is_new: bool,
)
    requires
        register_step(pre, post, id, namespace, measurement_hash, tee, challenge, now, Ok((c, is_new))),
    ensures
        post.pending_map().dom().contains(id@),
        valid_challenge_at(post.pending_map()[id@], now) == Some(c),
{
}

/// Registering again while the challenge is valid hands out the same
/// challenge, marked as not new: at the same moment, or, for a challenge
/// just issued, at any moment within its validity.
pub proof fn law_reregister_returns_same_challenge(
    r0: PeerRegistry,
    r1: PeerRegistry,
    r2: PeerRegistry,
    id: InstanceId,
    ns1: String,
    mh1: String,
    tee1: Tee,
    ch1: [u8; 32],
    now1: u64,
    ns2: String,
    mh2: String,
    tee2: Tee,
    ch2: [u8; 32],
    now2: u64,
    c: [u8; 32],
    is_new: bool,
    res2: Result<([u8; 32], bool), bool>,
)
    requires
        register_step(r0, r1, id, ns1, mh1, tee1, ch1, now1, Ok((c, is_new))),
        register_step(r1, r2, id, ns2, mh2, tee2, ch2, now2, res2),
        now2 == now1 || (is_new && now1 <= now2 <= now1 + r0.expiry()),
    ensures
        res2 == Ok::<([u8; 32], bool), bool>((c, false)),
        r2.pending_map() == r1.pending_map(),
        r2.events() == r1.events(),
{
}

/// Once a challenge has run out, registering again issues the new challenge,
/// which is then the instance's valid pending challenge.
pub proof fn law_expired_challenge_is_replaced(
    r0: PeerRegistry,
    r1: PeerRegistry,
    r2: PeerRegistry,
    id: InstanceId,
    ns1: String,
    mh1: String,
    tee1: Tee,
    ch1: [u8; 32],
    now1: u64,
    c: [u8; 32],
    is_new: bool,
    ns2: String,
    mh2: String,
    tee2: Tee,
    ch2: [u8; 32],
    now2: u64,
    res2: Result<([u8; 32], bool), bool>,
)
    requires
        register_step(r0, r1, id, ns1, mh1, tee1, ch1, now1, Ok((c, is_new))),
        register_step(r1, r2, id, ns2, mh2, tee2, ch2, now2, res2),
        challenge_expired_at(r1.pending_map()[id@], now2),
    ensures
        res2 == Ok::<([u8; 32], bool), bool>((ch2, true)),
        r2.pending_map().dom().contains(id@),
        valid_challenge_at(r2.pending_map()[id@], now2) == Some(ch2),
{
}

/// A verified instance cannot register: the answer is `Err(true)` and
/// nothing changes.
pub proof fn law_verified_instance_cannot_register(
    r0: PeerRegistry,
    r1: PeerRegistry,
    r2: PeerRegistry,
    id: InstanceId,
    state: TeeState,
    record: TeeRecord,
    namespace: String,
    measurement_hash: String,
    tee: Tee,
    challenge: [u8; 32],
    now: u64,
    res: Result<([u8; 32], bool), bool>,
)
    requires
        complete_step(r0, r1, id, state, Some(record)),
        register_step(r1, r2, id, namespace, measurement_hash, tee, challenge, now, res),
    ensures
        res == Err::<([u8; 32], bool), bool>(true),
        r2.pending_map() == r1.pending_map(),
        r2.verified_map() == r1.verified_map(),
        r2.events() == r1.events(),
{
}

/// Completing a verification makes the instance verified, with the given
/// state, and leaves it no pending challenge.
pub proof fn law_completion_verifies(
    r0: PeerRegistry,
    r1: PeerRegistry,
    id: InstanceId,
    state: TeeState,
    record: TeeRecord,
)
    requires
        complete_step(r0, r1, id, state, Some(record)),
    ensures
        r1.verified_map().dom().contains(id@),
        r1.verified_map()[id@] == record,
        record.state == state,
        !r1.pending_map().dom().contains(id@),
{
}

/// After a revocation the instance is no longer verified, and revoking it
/// again changes nothing and answers `false`.
pub proof fn law_revoke_then_revoke_again(
    r0: PeerRegistry,
    r1: PeerRegistry,
    r2: PeerRegistry,
    id: InstanceId,
    reason1: String,
    reason2: String,
    first: bool,
    second: bool,
)
    requires
        revoke_step(r0, r1, id, reason1, first),
        revoke_step(r1, r2, id, reason2, second),
    ensures
        !r1.verified_map().dom().contains(id@),
        !second,
        r2.verified_map() == r1.verified_map(),
        r2.events() == r1.events(),
{
}

/// A revoked instance may register again and gets a new challenge.
pub proof fn law_revoked_instance_can_register_again(
    r0: PeerRegistry,
    r1: PeerRegistry,
    r2: PeerRegistry,
    id: InstanceId,
    reason: String,
    namespace: String,
    measurement_hash: String,
    tee: Tee,
    challenge: [u8; 32],
    now: u64,
    res: Result<([u8; 32], bool), bool>,
)
    requires
        revoke_step(r0, r1, id, reason, true),
        register_step(r1, r2, id, namespace, measurement_hash, tee, challenge, now, res),
        r0.wf(),
    ensures
        res == Ok::<([u8; 32], bool), bool>((challenge, true)),
{
    r0.lemma_wf();
}

/// Cleaning up keeps every challenge that is still valid and drops every
/// expired one; verified instances are untouched.
pub proof fn law_cleanup_keeps_valid_challenges(pre: PeerRegistry, post: PeerRegistry, now: u64, k: Seq<u8>)
    requires
        post.pending_map() == unexpired(pre.pending_map(), now),
    ensures
        post.pending_map().dom().contains(k) <==> (pre.pending_map().dom().contains(k)
            && !challenge_expired_at(pre.pending_map()[k], now)),
        post.pending_map().dom().contains(k) ==> post.pending_map()[k] == pre.pending_map()[k],
{
}

} // verus!
