use vstd::prelude::*;
use crate::strmap::StrMap;

verus! {

/// `a + b`, clamped to the top of `u64`'s range.
pub open spec fn sat_add(a: u64, b: u64) -> u64 {
    if a + b > u64::MAX {
        u64::MAX
    } else {
        (a + b) as u64
    }
}

/// Computes `sat_add`.
pub fn sat_add_exec(a: u64, b: u64) -> (r: u64)
    ensures
        r == sat_add(a, b),
{
    match a.checked_add(b) {
        Some(c) => c,
        None => u64::MAX,
    }
}

/// The expiry time of a record written at `now` with the given time to live:
/// `now + ttl` seconds (clamped to the clock's range), or none for a
/// permanent record.
pub open spec fn spec_expiry(ttl: Option<u64>, now: u64) -> Option<u64> {
    match ttl {
        Some(d) => Some(sat_add(now, d)),
        None => None,
    }
}

/// The mathematical content of one stored record: its value's characters and
/// its expiry time.
pub struct RecordModel {
    pub value: Seq<char>,
    pub expires_at: Option<u64>,
}

impl RecordModel {
    /// True when the record is expired at time `now`: an expiry time was set
    /// and `now` has reached it.
    pub open spec fn expired(self, now: u64) -> bool {
        match self.expires_at {
            Some(t) => now >= t,
            None => false,
        }
    }
}

/// A value stored in a database together with its optional expiry time,
/// measured in whole seconds on the process's monotonic clock.
pub struct ValueWithExpiry {
    /// The stored value.
    pub value: String,
    /// The second at which the value expires, or `None` for a permanent value.
    pub expires_at: Option<u64>,
}

impl ValueWithExpiry {
    /// The record's mathematical content.
    pub open spec fn model(self) -> RecordModel {
        RecordModel { value: self.value@, expires_at: self.expires_at }
    }

    /// Creates a value that expires `ttl` seconds after `now`, or never when
    /// `ttl` is `None`.
    pub fn new(value: String, ttl: Option<u64>, now: u64) -> (r: Self)
        ensures
            r.value == value,
            r.expires_at == spec_expiry(ttl, now),
    {
        let expires_at = match ttl {
            Some(d) => Some(sat_add_exec(now, d)),
            None => None,
        };
        ValueWithExpiry { value, expires_at }
    }

    /// Reports whether the value is expired at time `now`.
    pub fn is_expired(&self, now: u64) -> (r: bool)
        ensures
            r == self.model().expired(now),
    {
        match self.expires_at {
            Some(t) => now >= t,
            None => false,
        }
    }
}

/// The live part of a store: the records not yet expired at time `now`.
pub open spec fn live_part(m: Map<Seq<char>, RecordModel>, now: u64) -> Map<
    Seq<char>,
    RecordModel,
> {
    Map::new(|k: Seq<char>| m.contains_key(k) && !m[k].expired(now), |k: Seq<char>| m[k])
}

/// The outcome of reading one key.
pub enum ReadOutcome {
    /// The key holds this live value.
    Value(String),
    /// The key held a value whose expiry time has passed.
    Expired,
    /// The key holds nothing.
    NotFound,
}

/// One named database: a record store plus its authentication configuration.
pub struct DbInstance {
    /// The database's immutable name.
    pub name: String,
    /// The keyed records.
    pub data: StrMap<ValueWithExpiry>,
    /// Whether authentication is required to use this database.
    pub require_auth: bool,
    /// The username checked when authentication is required.
    pub username: Option<String>,
    /// The password hash checked when authentication is required.
    pub password: Option<String>,
}

impl DbInstance {
    /// Well-formedness of the record store.
    pub open spec fn wf(self) -> bool {
        self.data.wf()
    }

    /// The store as a map from key contents to record contents.
    pub open spec fn store_model(self) -> Map<Seq<char>, RecordModel> {
        Map::new(
            |k: Seq<char>| self.data@.contains_key(k),
            |k: Seq<char>| self.data@[k].model(),
        )
    }

    /// True when only the record store differs between `self` and `other`.
    pub open spec fn same_identity(self, other: Self) -> bool {
        self.name == other.name && self.require_auth == other.require_auth && self.username
            == other.username && self.password == other.password
    }

    /// Creates a database with an empty store.
    pub fn new(name: String, require_auth: bool, username: Option<String>, password: Option<
        String,
    >) -> (r: Self)
        ensures
            r.wf(),
            r.name == name,
            r.require_auth == require_auth,
            r.username == username,
            r.password == password,
            r.store_model() == Map::<Seq<char>, RecordModel>::empty(),
    {
        let r = DbInstance { name, data: StrMap::new(), require_auth, username, password };
        proof {
            assert(r.store_model() =~= Map::<Seq<char>, RecordModel>::empty());
        }
        r
    }

    /// Reads `key` at time `now`.  A record whose expiry has passed is
    /// removed on the way (lazy eviction) and reported as `Expired`.
    pub fn read(&mut self, key: &str, now: u64) -> (r: ReadOutcome)
        requires
            old(self).wf(),
        ensures
            final(self).wf(),
            final(self).same_identity(*old(self)),
            ({
                let m = old(self).store_model();
                if m.contains_key(key@) {
                    if m[key@].expired(now) {
                        r == ReadOutcome::Expired && final(self).store_model() == m.remove(key@)
                    } else {
                        (r matches ReadOutcome::Value(v) && v@ == m[key@].value)
                            && final(self).store_model() == m
                    }
                } else {
                    r == ReadOutcome::NotFound && final(self).store_model() == m
                }
            }),
    {
        {
            let got = self.data.get(key);
            match got {
                None => {
                    return ReadOutcome::NotFound;
                },
                Some(v) => {
                    if !v.is_expired(now) {
                        return ReadOutcome::Value(v.value.clone());
                    }
                },
            }
        }
        let _ = self.data.remove(key);
        proof {
            assert(self.store_model() =~= old(self).store_model().remove(key@));
        }
        ReadOutcome::Expired
    }

    /// Writes `value` under `key` with the given time to live, replacing any
    /// earlier record whole.
    pub fn write(&mut self, key: String, value: String, ttl: Option<u64>, now: u64)
        requires
            old(self).wf(),
        ensures
            final(self).wf(),
            final(self).same_identity(*old(self)),
            final(self).store_model() == old(self).store_model().insert(
                key@,
                RecordModel { value: value@, expires_at: spec_expiry(ttl, now) },
            ),
    {
        let ghost k = key@;
        let entry = ValueWithExpiry::new(value, ttl, now);
        self.data.insert(key, entry);
        proof {
            assert(self.store_model() =~= old(self).store_model().insert(
                k,
                RecordModel { value: value@, expires_at: spec_expiry(ttl, now) },
            ));
        }
    }

    /// Removes `key`; reports whether a record was there.
    pub fn delete(&mut self, key: &str) -> (r: bool)
        requires
            old(self).wf(),
        ensures
            final(self).wf(),
            final(self).same_identity(*old(self)),
            r == old(self).store_model().contains_key(key@),
            final(self).store_model() == old(self).store_model().remove(key@),
    {
        let removed = self.data.remove(key);
        proof {
            assert(self.store_model() =~= old(self).store_model().remove(key@));
        }
        removed.is_some()
    }

    /// Removes every record expired at time `now` and returns the removed
    /// keys, each exactly once.
    pub fn remove_expired(&mut self, now: u64) -> (removed: Vec<String>)
        requires
            old(self).wf(),
        ensures
            final(self).wf(),
            final(self).same_identity(*old(self)),
            final(self).store_model() == live_part(old(self).store_model(), now),
            forall|i: int|
                0 <= i < removed@.len() ==> old(self).store_model().contains_key(
                    #[trigger] removed@[i]@,
                ) && old(self).store_model()[removed@[i]@].expired(now),
            forall|k: Seq<char>|
                old(self).store_model().contains_key(k) && old(self).store_model()[k].expired(now)
                    ==> exists|i: int| 0 <= i < removed@.len() && removed@[i]@ == k,
            forall|i: int, j: int| 0 <= i < j < removed@.len() ==> removed@[i]@ != removed@[j]@,
    {
        let ghost m0 = old(self).data@;
        let ks = self.data.keys();
        let n = ks.len();
        let mut removed: Vec<String> = Vec::new();
        let mut idx: usize = 0;
        while idx < n
            invariant
                self.wf(),
                self.same_identity(*old(self)),
                n == ks@.len(),
                idx <= n,
                forall|i: int| 0 <= i < n ==> m0.contains_key(#[trigger] ks@[i]@),
                forall|k: Seq<char>|
                    m0.contains_key(k) ==> exists|i: int| 0 <= i < n && ks@[i]@ == k,
                forall|i: int, j: int| 0 <= i < j < n ==> ks@[i]@ != ks@[j]@,
                forall|k: Seq<char>|
                    #[trigger] self.data@.contains_key(k) ==> m0.contains_key(k) && self.data@[k]
                        == m0[k],
                forall|k: Seq<char>|
                    m0.contains_key(k) && !(#[trigger] m0[k].model().expired(now))
                        ==> self.data@.contains_key(k),
                forall|j: int|
                    0 <= j < idx && m0[#[trigger] ks@[j]@].model().expired(now)
                        ==> !self.data@.contains_key(ks@[j]@),
                forall|j: int| idx <= j < n ==> self.data@.contains_key(#[trigger] ks@[j]@),
                forall|i: int|
                    0 <= i < removed@.len() ==> m0.contains_key(#[trigger] removed@[i]@)
                        && m0[removed@[i]@].model().expired(now),
                forall|i: int|
                    0 <= i < removed@.len() ==> exists|j: int| 0 <= j < idx && ks@[j]@ == #[trigger] removed@[i]@,
                forall|j: int|
                    0 <= j < idx && m0.contains_key(#[trigger] ks@[j]@) && m0[ks@[j]@].model().expired(
                        now,
                    ) ==> exists|i: int| 0 <= i < removed@.len() && removed@[i]@ == ks@[j]@,
                forall|i: int, j: int| 0 <= i < j < removed@.len() ==> removed@[i]@ != removed@[j]@,
            decreases n - idx,
        {
            let is_exp = match self.data.get(ks[idx].as_str()) {
                Some(v) => v.is_expired(now),
                None => false,
            };
            if is_exp {
                let _ = self.data.remove(ks[idx].as_str());
                let ghost r_prev = removed@;
                removed.push(ks[idx].clone());
                proof {
                    assert(removed@[removed@.len() - 1]@ == ks@[idx as int]@);
                    assert forall|j: int|
                        0 <= j < idx + 1 && m0.contains_key(#[trigger] ks@[j]@)
                            && m0[ks@[j]@].model().expired(now) implies exists|i: int|
                        0 <= i < removed@.len() && removed@[i]@ == ks@[j]@ by {
                        if j < idx {
                            let i0 = choose|i: int|
                                0 <= i < r_prev.len() && r_prev[i]@ == ks@[j]@;
                            assert(removed@[i0]@ == ks@[j]@);
                        } else {
                            assert(removed@[removed@.len() - 1]@ == ks@[j]@);
                        }
                    }
                    assert forall|i: int| 0 <= i < removed@.len() - 1 implies removed@[i]@
                        != ks@[idx as int]@ by {
                        let j0 = choose|j2: int| 0 <= j2 < idx && ks@[j2]@ == r_prev[i]@;
                        assert(ks@[j0]@ != ks@[idx as int]@);
                    }
                }
            }
            idx = idx + 1;
        }
        proof {
            assert forall|k: Seq<char>|
                m0.contains_key(k) && m0[k].model().expired(now) implies !self.data@.contains_key(
                k,
            ) by {
                let j = choose|j: int| 0 <= j < n && ks@[j]@ == k;
                assert(!self.data@.contains_key(ks@[j]@));
            }
            assert(self.store_model() =~= live_part(old(self).store_model(), now));
            assert forall|k: Seq<char>|
                old(self).store_model().contains_key(k) && old(self).store_model()[k].expired(
                    now,
                ) implies exists|i: int| 0 <= i < removed@.len() && removed@[i]@ == k by {
                let j = choose|j: int| 0 <= j < n && ks@[j]@ == k;
                assert(m0.contains_key(ks@[j]@) && m0[ks@[j]@].model().expired(now));
            }
        }
        removed
    }
}


/// A record written with no time to live is never expired: whatever `now`
/// is, a read finds it live with its written value, and a sweep keeps it
/// unchanged.  It stays until it is deleted or its database is dropped.
pub proof fn lemma_permanent_record(
    m: Map<Seq<char>, RecordModel>,
    k: Seq<char>,
    v: Seq<char>,
    t: u64,
    now: u64,
)
    ensures
        ({
            let m2 = m.insert(k, RecordModel { value: v, expires_at: spec_expiry(None, t) });
            &&& m2.contains_key(k)
            &&& !m2[k].expired(now)
            &&& m2[k].value == v
            &&& live_part(m2, now).contains_key(k)
            &&& live_part(m2, now)[k] == m2[k]
        }),
{
}

/// A record written at time `t` with time to live `d` is live with its
/// written value at every `now` before `t + d`, and is expired at every
/// `now` at or after `t + d` — whether or not the sweeper has run: a sweep
/// keeps a live record unchanged and removes an expired one.
pub proof fn lemma_ttl_record(
    m: Map<Seq<char>, RecordModel>,
    k: Seq<char>,
    v: Seq<char>,
    t: u64,
    d: u64,
    now: u64,
)
    requires
        t + d <= u64::MAX,
    ensures
        ({
            let m2 = m.insert(k, RecordModel { value: v, expires_at: spec_expiry(Some(d), t) });
            &&& m2.contains_key(k)
            &&& m2[k].value == v
            &&& now < t + d ==> !m2[k].expired(now) && live_part(m2, now).contains_key(k)
                && live_part(m2, now)[k] == m2[k]
            &&& now >= t + d ==> m2[k].expired(now) && !live_part(m2, now).contains_key(k)
        }),
{
}


/// A write changes the store atomically: afterwards the written key holds
/// exactly the written value with exactly the expiry computed from its time
/// to live — never a value paired with another write's expiry — and every
/// other key is untouched.
pub proof fn lemma_write_atomic(
    m: Map<Seq<char>, RecordModel>,
    k: Seq<char>,
    v: Seq<char>,
    ttl: Option<u64>,
    now: u64,
)
    ensures
        ({
            let m2 = m.insert(k, RecordModel { value: v, expires_at: spec_expiry(ttl, now) });
            &&& m2.contains_key(k)
            &&& m2[k].value == v
            &&& m2[k].expires_at == spec_expiry(ttl, now)
            &&& forall|k2: Seq<char>|
                k2 != k ==> m2.contains_key(k2) == m.contains_key(k2) && (m.contains_key(k2)
                    ==> m2[k2] == m[k2])
        }),
{
}

} // verus!
