use vstd::prelude::*;
use crate::catalog::Catalog;
use crate::db::live_part;

verus! {

/// One sweep cycle at time `now`: every database in the catalog loses
/// exactly its records whose expiry has passed.  Returns, for each database
/// that lost records, its name and the removed keys; these databases must
/// then be persisted.  Databases, names and authentication configurations
/// are untouched.
pub fn sweep(catalog: &mut Catalog, now: u64) -> (report: Vec<(String, Vec<String>)>)
    requires
        old(catalog).wf(),
    ensures
        final(catalog).wf(),
        forall|k: Seq<char>|
            final(catalog)@.contains_key(k) == old(catalog)@.contains_key(k),
        forall|k: Seq<char>|
            #[trigger] old(catalog)@.contains_key(k) ==> final(catalog)@[k].same_identity(
                old(catalog)@[k],
            ) && final(catalog)@[k].store_model() == live_part(
                old(catalog)@[k].store_model(),
                now,
            ),
        forall|i: int|
            0 <= i < report@.len() ==> old(catalog)@.contains_key(#[trigger] report@[i].0@)
                && report@[i].1@.len() > 0,
        forall|i: int, j: int|
            0 <= i < report@.len() && 0 <= j < report@[i].1@.len()
                ==> old(catalog)@[#[trigger] report@[i].0@].store_model().contains_key(
                #[trigger] report@[i].1@[j]@,
            ) && old(catalog)@[report@[i].0@].store_model()[report@[i].1@[j]@].expired(now),
{
    let names = catalog.names();
    let n = names.len();
    let mut report: Vec<(String, Vec<String>)> = Vec::new();
    let mut idx: usize = 0;
    while idx < n
        invariant
            catalog.wf(),
            n == names@.len(),
            idx <= n,
            forall|i: int| 0 <= i < n ==> old(catalog)@.contains_key(#[trigger] names@[i]@),
            forall|k: Seq<char>|
                old(catalog)@.contains_key(k) ==> exists|i: int| 0 <= i < n && names@[i]@ == k,
            forall|i: int, j: int| 0 <= i < j < n ==> names@[i]@ != names@[j]@,
            forall|k: Seq<char>|
                catalog@.contains_key(k) == old(catalog)@.contains_key(k),
            forall|j: int|
                idx <= j < n ==> catalog@[#[trigger] names@[j]@] == old(catalog)@[names@[j]@],
            forall|j: int|
                0 <= j < idx ==> (#[trigger] catalog@[names@[j]@]).same_identity(
                    old(catalog)@[names@[j]@],
                ) && catalog@[names@[j]@].store_model() == live_part(
                    old(catalog)@[names@[j]@].store_model(),
                    now,
                ),
            forall|i: int|
                0 <= i < report@.len() ==> old(catalog)@.contains_key(#[trigger] report@[i].0@)
                    && report@[i].1@.len() > 0,
            forall|i: int, j: int|
                0 <= i < report@.len() && 0 <= j < report@[i].1@.len()
                    ==> old(catalog)@[#[trigger] report@[i].0@].store_model().contains_key(
                    #[trigger] report@[i].1@[j]@,
                ) && old(catalog)@[report@[i].0@].store_model()[report@[i].1@[j]@].expired(now),
        decreases n - idx,
    {
        match catalog.remove(names[idx].as_str()) {
            Some(mut db) => {
                let removed = db.remove_expired(now);
                catalog.insert(db);
                if removed.len() > 0 {
                    report.push((names[idx].clone(), removed));
                }
            },
            None => {
                proof {
                    assert(false);
                }
            },
        }
        idx = idx + 1;
    }
    proof {
        assert forall|k: Seq<char>| old(catalog)@.contains_key(k) implies (
        #[trigger] catalog@[k]).same_identity(old(catalog)@[k]) && catalog@[k].store_model()
            == live_part(old(catalog)@[k].store_model(), now) by {
            let i0 = choose|i: int| 0 <= i < n && names@[i]@ == k;
            assert(catalog@[names@[i0]@].same_identity(old(catalog)@[names@[i0]@]));
        }
    }
    report
}

} // verus!
