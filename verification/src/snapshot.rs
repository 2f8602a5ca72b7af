use vstd::prelude::*;
use crate::db::DbInstance;
use crate::db::RecordModel;
use crate::db::ValueWithExpiry;
use crate::db::sat_add;
use crate::db::sat_add_exec;
use crate::strmap::StrMap;
use crate::strmap::map_of;

verus! {

/// One record as it stands in a snapshot: the value and the remaining time
/// to live in whole seconds at the moment the snapshot was taken, or `None`
/// for a permanent record.
pub struct SnapValue {
    /// The stored value.
    pub value: String,
    /// The remaining whole seconds to live, or `None`.
    pub remaining: Option<u64>,
}

/// The mathematical content of one snapshot record.
pub struct SnapRecordModel {
    pub value: Seq<char>,
    pub remaining: Option<u64>,
}

impl SnapValue {
    /// The snapshot record's mathematical content.
    pub open spec fn model(self) -> SnapRecordModel {
        SnapRecordModel { value: self.value@, remaining: self.remaining }
    }
}

/// The on-disk form of one database: its full record store with remaining
/// times to live, plus the authentication configuration.
pub struct Snapshot {
    /// The records keyed by their key.
    pub data: StrMap<SnapValue>,
    /// Whether authentication is required to use this database.
    pub require_auth: bool,
    /// The username checked when authentication is required.
    pub username: Option<String>,
    /// The password hash checked when authentication is required.
    pub password: Option<String>,
}

impl Snapshot {
    /// Well-formedness of the snapshot's record table.
    pub open spec fn wf(self) -> bool {
        self.data.wf()
    }

    /// The records as a map from key contents to snapshot record contents.
    pub open spec fn data_model(self) -> Map<Seq<char>, SnapRecordModel> {
        Map::new(
            |k: Seq<char>| self.data@.contains_key(k),
            |k: Seq<char>| self.data@[k].model(),
        )
    }
}

/// The remaining whole seconds to live at time `now` of a record expiring at
/// `expires_at`: zero once the expiry has passed.
pub open spec fn spec_remaining(expires_at: Option<u64>, now: u64) -> Option<u64> {
    match expires_at {
        None => None,
        Some(t) => Some(if t <= now { 0 } else { (t - now) as u64 }),
    }
}

/// The expiry time a stored remaining-seconds value stands for when it is
/// read back at time `now`.
pub open spec fn rehydrated_expiry(remaining: Option<u64>, now: u64) -> Option<u64> {
    match remaining {
        None => None,
        Some(d) => Some(sat_add(now, d)),
    }
}

/// The snapshot contents of a store at time `now`.
pub open spec fn dehydrate(m: Map<Seq<char>, RecordModel>, now: u64) -> Map<
    Seq<char>,
    SnapRecordModel,
> {
    Map::new(
        |k: Seq<char>| m.contains_key(k),
        |k: Seq<char>|
            SnapRecordModel {
                value: m[k].value,
                remaining: spec_remaining(m[k].expires_at, now),
            },
    )
}

/// The store a snapshot's contents stand for when read back at time `now`.
pub open spec fn rehydrate(m: Map<Seq<char>, SnapRecordModel>, now: u64) -> Map<
    Seq<char>,
    RecordModel,
> {
    Map::new(
        |k: Seq<char>| m.contains_key(k),
        |k: Seq<char>|
            RecordModel {
                value: m[k].value,
                expires_at: rehydrated_expiry(m[k].remaining, now),
            },
    )
}

/// Taking a snapshot at time `now` and reading it back at the same time
/// reproduces the same keys and the same values; a record with no expiry
/// stays permanent, an unexpired record keeps its exact expiry time, and an
/// expired record comes back still expired.
pub proof fn lemma_snapshot_round_trip(m: Map<Seq<char>, RecordModel>, now: u64)
    ensures
        forall|k: Seq<char>|
            rehydrate(dehydrate(m, now), now).contains_key(k) == m.contains_key(k),
        forall|k: Seq<char>| #[trigger]
            m.contains_key(k) ==> rehydrate(dehydrate(m, now), now)[k].value == m[k].value,
        forall|k: Seq<char>| #[trigger]
            m.contains_key(k) && m[k].expires_at is None ==> rehydrate(dehydrate(m, now), now)[k].expires_at is None,
        forall|k: Seq<char>| #[trigger]
            m.contains_key(k) && (m[k].expires_at matches Some(t) && t > now) ==> rehydrate(
                dehydrate(m, now),
                now,
            )[k].expires_at == m[k].expires_at,
        forall|k: Seq<char>| #[trigger]
            m.contains_key(k) && m[k].expired(now) ==> rehydrate(dehydrate(m, now), now)[k].expired(now),
{
}

impl DbInstance {
    /// Prepares the database's on-disk form at time `now`: every record's
    /// value with its remaining whole seconds to live, and the
    /// authentication configuration, ready to be written out.
    pub fn persist(&self, now: u64) -> (snap: Snapshot)
        requires
            self.wf(),
        ensures
            snap.wf(),
            snap.require_auth == self.require_auth,
            snap.username == self.username,
            snap.password == self.password,
            snap.data_model() == dehydrate(self.store_model(), now),
    {
        let ghost m0 = self.data@;
        let ks = self.data.keys();
        let n = ks.len();
        let mut table: StrMap<SnapValue> = StrMap::new();
        let mut idx: usize = 0;
        while idx < n
            invariant
                self.wf(),
                table.wf(),
                n == ks@.len(),
                idx <= n,
                m0 == self.data@,
                forall|i: int| 0 <= i < n ==> m0.contains_key(#[trigger] ks@[i]@),
                forall|k: Seq<char>|
                    m0.contains_key(k) ==> exists|i: int| 0 <= i < n && ks@[i]@ == k,
                forall|k: Seq<char>|
                    #[trigger] table@.contains_key(k) ==> m0.contains_key(k) && table@[k].value@
                        == m0[k].value@ && table@[k].remaining == spec_remaining(
                        m0[k].expires_at,
                        now,
                    ),
                forall|j: int| 0 <= j < idx ==> table@.contains_key(#[trigger] ks@[j]@),
            decreases n - idx,
        {
            match self.data.get(ks[idx].as_str()) {
                Some(v) => {
                    let remaining = match v.expires_at {
                        None => None,
                        Some(t) => Some(if t <= now { 0 } else { t - now }),
                    };
                    let sv = SnapValue { value: v.value.clone(), remaining };
                    table.insert(ks[idx].clone(), sv);
                },
                None => (),
            }
            idx = idx + 1;
        }
        let snap = Snapshot {
            data: table,
            require_auth: self.require_auth,
            username: self.username.clone(),
            password: self.password.clone(),
        };
        proof {
            assert forall|k: Seq<char>| m0.contains_key(k) implies snap.data@.contains_key(
                k,
            ) by {
                let i0 = choose|i: int| 0 <= i < n && ks@[i]@ == k;
                assert(snap.data@.contains_key(ks@[i0]@));
            }
            assert(snap.data_model() =~= dehydrate(self.store_model(), now));
        }
        snap
    }

    /// Rebuilds a database named `name` from a snapshot read back at time
    /// `now`: each record's expiry becomes `now` plus its stored remaining
    /// seconds.
    pub fn from_snapshot(name: String, snap: Snapshot, now: u64) -> (r: DbInstance)
        requires
            snap.wf(),
        ensures
            r.wf(),
            r.name == name,
            r.require_auth == snap.require_auth,
            r.username == snap.username,
            r.password == snap.password,
            r.store_model() == rehydrate(snap.data_model(), now),
    {
        let Snapshot { data, require_auth, username, password } = snap;
        let ghost t0 = data@;
        let pairs = data.take_entries();
        let n = pairs.len();
        let mut store: StrMap<ValueWithExpiry> = StrMap::new();
        let mut idx: usize = 0;
        while idx < n
            invariant
                store.wf(),
                n == pairs@.len(),
                idx <= n,
                forall|k: Seq<char>|
                    #[trigger] store@.contains_key(k) == map_of(
                        pairs@.subrange(0, idx as int),
                    ).contains_key(k),
                forall|k: Seq<char>|
                    #[trigger] store@.contains_key(k) ==> {
                        let sv = map_of(pairs@.subrange(0, idx as int))[k];
                        store@[k].value@ == sv.value@ && store@[k].expires_at
                            == rehydrated_expiry(sv.remaining, now)
                    },
            decreases n - idx,
        {
            let key = pairs[idx].0.clone();
            let value = pairs[idx].1.value.clone();
            let expires_at = match pairs[idx].1.remaining {
                None => None,
                Some(d) => Some(sat_add_exec(now, d)),
            };
            store.insert(key, ValueWithExpiry { value, expires_at });
            proof {
                assert(pairs@.subrange(0, idx + 1).drop_last() =~= pairs@.subrange(0, idx as int));
                assert(pairs@.subrange(0, idx + 1).last() == pairs@[idx as int]);
            }
            idx = idx + 1;
        }
        let r = DbInstance { name, data: store, require_auth, username, password };
        proof {
            assert(pairs@.subrange(0, n as int) =~= pairs@);
            assert(map_of(pairs@) == t0);
            assert(r.store_model() =~= rehydrate(snap.data_model(), now));
        }
        r
    }
}

} // verus!
