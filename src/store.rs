use vstd::prelude::*;

verus! {

/// Lifetime of a lease, in milliseconds: every creation and every successful
/// extension sets the record to expire this long after the operation.
pub const LEASE_TTL_MS: u64 = 10_000;

/// Atomic acquire script for a Lua-scripting key-value store: create
/// `KEYS[1] = ARGV[1]` with a ten second expiry, only if the key is absent.
/// Its effect is `acquired` below.
pub const ACQUIRE_SCRIPT: &'static str = "return redis.call('SET', KEYS[1], ARGV[1], 'NX', 'EX', 10)";

/// Atomic extend script: reset the expiry to ten seconds only if the key holds
/// `ARGV[1]`; replies 1 when it did. Its effect is `extended` below.
pub const EXTEND_SCRIPT: &'static str = "if redis.call('GET', KEYS[1]) == ARGV[1] then return redis.call('EXPIRE', KEYS[1], 10) else return 0 end";

/// Atomic release script: delete the key only if it holds `ARGV[1]`; replies 1
/// when it deleted. Its effect is `released` below.
pub const RELEASE_SCRIPT: &'static str = "if redis.call('GET', KEYS[1]) == ARGV[1] then return redis.call('DEL', KEYS[1]) else return 0 end";

/// A lease record's value: the fencing token that holds it and the instant
/// (in milliseconds) from which it no longer exists.
#[derive(Clone, Copy, Debug, PartialEq, Eq, Structural)]
pub struct Lease {
    pub token: u64,
    pub expires_at: u64,
}

/// The token currently holding `key` at instant `now`, if a live record exists.
pub open spec fn holder(m: Map<Seq<char>, Lease>, key: Seq<char>, now: u64) -> Option<u64> {
    if m.contains_key(key) && now < m[key].expires_at {
        Some(m[key].token)
    } else {
        None
    }
}

/// The record that an operation at `now` writes for `token`.
pub open spec fn fresh_lease(token: u64, now: u64) -> Lease {
    Lease { token, expires_at: (now + LEASE_TTL_MS) as u64 }
}

/// Effect of the acquire operation: set only if no live record exists.
pub open spec fn acquired(m: Map<Seq<char>, Lease>, key: Seq<char>, token: u64, now: u64) -> (
    Map<Seq<char>, Lease>,
    bool,
) {
    if holder(m, key, now) is None {
        (m.insert(key, fresh_lease(token, now)), true)
    } else {
        (m, false)
    }
}

/// Effect of the extend operation: refresh only a live record holding `token`.
pub open spec fn extended(m: Map<Seq<char>, Lease>, key: Seq<char>, token: u64, now: u64) -> (
    Map<Seq<char>, Lease>,
    bool,
) {
    if holder(m, key, now) == Some(token) {
        (m.insert(key, fresh_lease(token, now)), true)
    } else {
        (m, false)
    }
}

/// Effect of the release operation: delete only a live record holding `token`.
pub open spec fn released(m: Map<Seq<char>, Lease>, key: Seq<char>, token: u64, now: u64) -> (
    Map<Seq<char>, Lease>,
    bool,
) {
    if holder(m, key, now) == Some(token) {
        (m.remove(key), true)
    } else {
        (m, false)
    }
}

/// The store after renewing `key` with `token` at each instant of `times`, in order.
pub open spec fn renewed(m: Map<Seq<char>, Lease>, key: Seq<char>, token: u64, times: Seq<u64>) -> Map<
    Seq<char>,
    Lease,
>
    decreases times.len(),
{
    if times.len() == 0 {
        m
    } else {
        extended(renewed(m, key, token, times.drop_last()), key, token, times.last()).0
    }
}

/// Instant of the `i`-th renewal, the acquisition at `start` counting as the zeroth.
pub open spec fn renewal_at(start: u64, times: Seq<u64>, i: int) -> u64 {
    if i == 0 {
        start
    } else {
        times[i - 1]
    }
}

/// Each renewal comes no earlier than the previous one and strictly less than a
/// lease lifetime after it.
pub open spec fn renews_in_time(start: u64, times: Seq<u64>) -> bool {
    &&& start <= u64::MAX - LEASE_TTL_MS
    &&& forall|i: int|
        0 <= i < times.len() ==> {
            &&& renewal_at(start, times, i) <= #[trigger] times[i]
            &&& times[i] < renewal_at(start, times, i) + LEASE_TTL_MS
            &&& times[i] <= u64::MAX - LEASE_TTL_MS
        }
}

/// An operation carrying a token that is not the live holder's, whether the record
/// holds another token or is absent, neither extends nor deletes anything: it
/// reports failure and leaves the store as it was.
pub proof fn lemma_fencing(m: Map<Seq<char>, Lease>, key: Seq<char>, token: u64, now: u64)
    requires
        holder(m, key, now) != Some(token),
    ensures
        extended(m, key, token, now) == (m, false),
        released(m, key, token, now) == (m, false),
{
}

/// A record created with a lifetime of `LEASE_TTL_MS` and never extended is absent
/// once that lifetime has passed.
pub proof fn lemma_lease_expiry(m: Map<Seq<char>, Lease>, key: Seq<char>, token: u64, now: u64, later: u64)
    requires
        acquired(m, key, token, now).1,
        now <= u64::MAX - LEASE_TTL_MS,
        later >= now + LEASE_TTL_MS,
    ensures
        holder(acquired(m, key, token, now).0, key, later) is None,
{
}

proof fn lemma_renewed_lease(m: Map<Seq<char>, Lease>, key: Seq<char>, token: u64, start: u64, times: Seq<u64>)
    requires
        m.contains_key(key),
        m[key] == fresh_lease(token, start),
        renews_in_time(start, times),
    ensures
        renewed(m, key, token, times).contains_key(key),
        renewed(m, key, token, times)[key] == fresh_lease(token, renewal_at(start, times, times.len() as int)),
    decreases times.len(),
{
    if times.len() > 0 {
        let prefix = times.drop_last();
        assert(renews_in_time(start, prefix)) by {
            assert forall|i: int| 0 <= i < prefix.len() implies {
                &&& renewal_at(start, prefix, i) <= #[trigger] prefix[i]
                &&& prefix[i] < renewal_at(start, prefix, i) + LEASE_TTL_MS
                &&& prefix[i] <= u64::MAX - LEASE_TTL_MS
            } by {
                assert(prefix[i] == times[i]);
                assert(renewal_at(start, prefix, i) == renewal_at(start, times, i));
            }
        }
        lemma_renewed_lease(m, key, token, start, prefix);
        let n = times.len() - 1;
        assert(renewal_at(start, prefix, prefix.len() as int) == renewal_at(start, times, n));
        assert(times[n] < renewal_at(start, times, n) + LEASE_TTL_MS);
    }
}

/// A lease renewed at instants each strictly less than a lifetime after the
/// previous one keeps its record without a gap: every renewal succeeds, and the
/// record holds `token` from each renewal up to and including the instant of
/// the next one, and for a full lifetime after the last.
pub proof fn lemma_continuous_renewal(
    m: Map<Seq<char>, Lease>,
    key: Seq<char>,
    token: u64,
    start: u64,
    times: Seq<u64>,
)
    requires
        m.contains_key(key),
        m[key] == fresh_lease(token, start),
        renews_in_time(start, times),
    ensures
        forall|i: int|
            0 <= i < times.len() ==> #[trigger] extended(
                renewed(m, key, token, times.take(i)),
                key,
                token,
                times[i],
            ).1,
        forall|i: int, t: u64|
            0 <= i < times.len() && renewal_at(start, times, i) <= t <= times[i] ==> #[trigger] holder(
                renewed(m, key, token, times.take(i)),
                key,
                t,
            ) == Some(token),
        forall|t: u64|
            renewal_at(start, times, times.len() as int) <= t < renewal_at(start, times, times.len() as int)
                + LEASE_TTL_MS ==> #[trigger] holder(renewed(m, key, token, times), key, t) == Some(token),
{
    assert forall|i: int| 0 <= i <= times.len() implies {
        &&& #[trigger] renewed(m, key, token, times.take(i)).contains_key(key)
        &&& renewed(m, key, token, times.take(i))[key] == fresh_lease(token, renewal_at(start, times, i))
    } by {
        let prefix = times.take(i);
        assert(renews_in_time(start, prefix)) by {
            assert forall|j: int| 0 <= j < prefix.len() implies {
                &&& renewal_at(start, prefix, j) <= #[trigger] prefix[j]
                &&& prefix[j] < renewal_at(start, prefix, j) + LEASE_TTL_MS
                &&& prefix[j] <= u64::MAX - LEASE_TTL_MS
            } by {
                assert(prefix[j] == times[j]);
                assert(renewal_at(start, prefix, j) == renewal_at(start, times, j));
            }
        }
        lemma_renewed_lease(m, key, token, start, prefix);
        assert(renewal_at(start, prefix, i) == renewal_at(start, times, i));
    }
    assert(times.take(times.len() as int) =~= times);
    assert forall|i: int| 0 <= i < times.len() implies #[trigger] extended(
        renewed(m, key, token, times.take(i)),
        key,
        token,
        times[i],
    ).1 by {
        assert(renewed(m, key, token, times.take(i)).contains_key(key));
    }
    assert forall|i: int, t: u64|
        0 <= i < times.len() && renewal_at(start, times, i) <= t <= times[i] implies #[trigger] holder(
        renewed(m, key, token, times.take(i)),
        key,
        t,
    ) == Some(token) by {
        assert(renewed(m, key, token, times.take(i)).contains_key(key));
    }
    assert(renewed(m, key, token, times.take(times.len() as int)).contains_key(key));
}

struct LeaseRecord {
    key: String,
    lease: Lease,
}

/// An in-process lease store that performs the three check-and-act operations
/// indivisibly; time is passed in explicitly, in milliseconds.
pub struct LeaseStore {
    records: Vec<LeaseRecord>,
    leases: Ghost<Map<Seq<char>, Lease>>,
}

impl View for LeaseStore {
    type V = Map<Seq<char>, Lease>;

    closed spec fn view(&self) -> Map<Seq<char>, Lease> {
        self.leases@
    }
}

impl LeaseStore {
    /// Each stored record appears in the model under its key, and keys are unique.
    pub closed spec fn wf(&self) -> bool {
        &&& forall|i: int|
            0 <= i < self.records.len() ==> {
                &&& #[trigger] self.leases@.contains_key(self.records@[i].key@)
                &&& self.leases@[self.records@[i].key@] == self.records@[i].lease
            }
        &&& forall|k: Seq<char>|
            #[trigger] self.leases@.contains_key(k) ==> exists|i: int|
                0 <= i < self.records.len() && #[trigger] self.records@[i].key@ == k
        &&& forall|i: int, j: int|
            0 <= i < self.records.len() && 0 <= j < self.records.len() && i != j
                ==> #[trigger] self.records@[i].key@ != #[trigger] self.records@[j].key@
    }

    pub fn new() -> (r: LeaseStore)
        ensures
            r.wf(),
            r@ == Map::<Seq<char>, Lease>::empty(),
    {
        LeaseStore { records: Vec::new(), leases: Ghost(Map::empty()) }
    }

    fn find(&self, key: &String) -> (r: Option<usize>)
        requires
            self.wf(),
        ensures
            match r {
                Some(i) => i < self.records.len() && self.records@[i as int].key@ == key@,
                None => !self@.contains_key(key@),
            },
    {
        let mut i: usize = 0;
        while i < self.records.len()
            invariant
                self.wf(),
                i <= self.records.len(),
                forall|j: int| 0 <= j < i ==> self.records@[j].key@ != key@,
            decreases self.records.len() - i,
        {
            if self.records[i].key == *key {
                return Some(i);
            }
            i = i + 1;
        }
        None
    }

    fn lookup(&self, key: &String, now: u64) -> (r: Option<usize>)
        requires
            self.wf(),
        ensures
            match r {
                Some(i) => i < self.records.len() && self.records@[i as int].key@ == key@
                    && holder(self@, key@, now) == Some(self.records@[i as int].lease.token),
                None => holder(self@, key@, now) is None,
            },
    {
        match self.find(key) {
            Some(i) => {
                if now < self.records[i].lease.expires_at {
                    Some(i)
                } else {
                    None
                }
            },
            None => None,
        }
    }

    /// The token holding `key` at instant `now`.
    pub fn holder(&self, key: &str, now: u64) -> (r: Option<u64>)
        requires
            self.wf(),
        ensures
            r == holder(self@, key@, now),
    {
        let key = key.to_owned();
        match self.lookup(&key, now) {
            Some(i) => Some(self.records[i].lease.token),
            None => None,
        }
    }

    /// Writes `lease` under `key`, replacing a record of that key if one is stored.
    fn put(&mut self, key: String, lease: Lease)
        requires
            old(self).wf(),
        ensures
            final(self).wf(),
            final(self)@ == old(self)@.insert(key@, lease),
    {
        match self.find(&key) {
            Some(i) => {
                let ghost k = key@;
                self.records.set(i, LeaseRecord { key, lease });
                self.leases = Ghost(self.leases@.insert(k, lease));
                assert forall|k2: Seq<char>| #[trigger] self.leases@.contains_key(k2) implies exists|j: int|
                    0 <= j < self.records.len() && #[trigger] self.records@[j].key@ == k2 by {
                    if k2 != k {
                        let j = choose|j: int|
                            0 <= j < old(self).records.len() && #[trigger] old(self).records@[j].key@ == k2;
                        assert(self.records@[j].key@ == k2);
                    } else {
                        assert(self.records@[i as int].key@ == k2);
                    }
                }
                assert forall|a: int, b: int|
                    0 <= a < self.records.len() && 0 <= b < self.records.len() && a != b
                        implies #[trigger] self.records@[a].key@ != #[trigger] self.records@[b].key@ by {
                    assert(old(self).records@[a].key@ != old(self).records@[b].key@);
                }
            },
            None => {
                let ghost k = key@;
                self.records.push(LeaseRecord { key, lease });
                self.leases = Ghost(self.leases@.insert(k, lease));
                assert forall|k2: Seq<char>| #[trigger] self.leases@.contains_key(k2) implies exists|j: int|
                    0 <= j < self.records.len() && #[trigger] self.records@[j].key@ == k2 by {
                    if k2 != k {
                        let j = choose|j: int|
                            0 <= j < old(self).records.len() && #[trigger] old(self).records@[j].key@ == k2;
                        assert(self.records@[j].key@ == k2);
                    } else {
                        assert(self.records@[self.records.len() - 1].key@ == k2);
                    }
                }
                assert forall|a: int, b: int|
                    0 <= a < self.records.len() && 0 <= b < self.records.len() && a != b
                        implies #[trigger] self.records@[a].key@ != #[trigger] self.records@[b].key@ by {
                    if a < old(self).records.len() && b < old(self).records.len() {
                        assert(old(self).records@[a].key@ != old(self).records@[b].key@);
                    } else if a < old(self).records.len() {
                        assert(old(self).leases@.contains_key(old(self).records@[a].key@));
                    } else {
                        assert(old(self).leases@.contains_key(old(self).records@[b].key@));
                    }
                }
            },
        }
        assert(self.leases@ =~= old(self)@.insert(key@, lease));
    }

    /// Creates `key = token` expiring `LEASE_TTL_MS` after `now`, only if no live
    /// record of `key` exists; true iff this call created it.
    pub fn acquire(&mut self, key: &str, token: u64, now: u64) -> (r: bool)
        requires
            old(self).wf(),
            now <= u64::MAX - LEASE_TTL_MS,
        ensures
            final(self).wf(),
            (final(self)@, r) == acquired(old(self)@, key@, token, now),
    {
        let key = key.to_owned();
        match self.lookup(&key, now) {
            Some(_) => false,
            None => {
                self.put(key, Lease { token, expires_at: now + LEASE_TTL_MS });
                true
            },
        }
    }

    /// Resets the expiry of `key` to `LEASE_TTL_MS` after `now`, only if its live
    /// record holds `token`; the store is untouched otherwise.
    pub fn extend(&mut self, key: &str, token: u64, now: u64) -> (r: bool)
        requires
            old(self).wf(),
            now <= u64::MAX - LEASE_TTL_MS,
        ensures
            final(self).wf(),
            (final(self)@, r) == extended(old(self)@, key@, token, now),
    {
        let key = key.to_owned();
        match self.lookup(&key, now) {
            Some(i) => {
                if self.records[i].lease.token == token {
                    self.put(key, Lease { token, expires_at: now + LEASE_TTL_MS });
                    true
                } else {
                    false
                }
            },
            None => false,
        }
    }

    /// Deletes `key` only if its live record holds `token`; true iff it deleted.
    pub fn release(&mut self, key: &str, token: u64, now: u64) -> (r: bool)
        requires
            old(self).wf(),
        ensures
            final(self).wf(),
            (final(self)@, r) == released(old(self)@, key@, token, now),
    {
        let key = key.to_owned();
        match self.lookup(&key, now) {
            Some(i) => {
                if self.records[i].lease.token == token {
                    let ghost k = key@;
                    let ghost old_records = self.records@;
                    self.records.swap_remove(i);
                    self.leases = Ghost(self.leases@.remove(k));
                    assert forall|k2: Seq<char>| #[trigger] self.leases@.contains_key(k2) implies exists|j: int|
                        0 <= j < self.records.len() && #[trigger] self.records@[j].key@ == k2 by {
                        let j = choose|j: int|
                            0 <= j < old_records.len() && #[trigger] old_records[j].key@ == k2;
                        if j == old_records.len() - 1 {
                            assert(self.records@[i as int].key@ == k2);
                        } else {
                            assert(j != i);
                            assert(self.records@[j].key@ == k2);
                        }
                    }
                    assert(self.leases@ =~= old(self)@.remove(key@));
                    true
                } else {
                    false
                }
            },
            None => false,
        }
    }
}

} // verus!
