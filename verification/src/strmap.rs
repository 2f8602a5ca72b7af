use vstd::prelude::*;
use crate::text::str_eq;

verus! {

/// A finite map from string keys to values of type `V`, kept as a vector of
/// entries with pairwise distinct keys.  Its mathematical view is a
/// `Map<Seq<char>, V>`.
pub struct StrMap<V> {
    entries: Vec<(String, V)>,
}

/// True when the key contents of `s` are pairwise distinct.
pub open spec fn distinct_keys<V>(s: Seq<(String, V)>) -> bool {
    forall|i: int, j: int| 0 <= i < j < s.len() ==> s[i].0@ != s[j].0@
}

/// The map described by a sequence of entries; a later entry for the same
/// key contents wins.
pub open spec fn map_of<V>(s: Seq<(String, V)>) -> Map<Seq<char>, V>
    decreases s.len(),
{
    if s.len() == 0 {
        Map::empty()
    } else {
        map_of(s.drop_last()).insert(s.last().0@, s.last().1)
    }
}

pub proof fn lemma_map_of_index<V>(s: Seq<(String, V)>, i: int)
    requires
        distinct_keys(s),
        0 <= i < s.len(),
    ensures
        map_of(s).contains_key(s[i].0@),
        map_of(s)[s[i].0@] == s[i].1,
    decreases s.len(),
{
    if i == s.len() - 1 {
    } else {
        assert(s[i].0@ != s.last().0@);
        assert(s.drop_last()[i] == s[i]);
        lemma_map_of_index(s.drop_last(), i);
    }
}

pub proof fn lemma_map_of_absent<V>(s: Seq<(String, V)>, k: Seq<char>)
    requires
        forall|i: int| 0 <= i < s.len() ==> s[i].0@ != k,
    ensures
        !map_of(s).contains_key(k),
    decreases s.len(),
{
    if s.len() == 0 {
    } else {
        assert(forall|i: int| 0 <= i < s.drop_last().len() ==> s.drop_last()[i] == s[i]);
        lemma_map_of_absent(s.drop_last(), k);
    }
}

pub proof fn lemma_map_of_contained<V>(s: Seq<(String, V)>, k: Seq<char>)
    requires
        map_of(s).contains_key(k),
    ensures
        exists|i: int| 0 <= i < s.len() && s[i].0@ == k,
{
    if forall|i: int| 0 <= i < s.len() ==> s[i].0@ != k {
        lemma_map_of_absent(s, k);
    }
}

pub proof fn lemma_map_of_remove_idx<V>(s: Seq<(String, V)>, i: int)
    requires
        distinct_keys(s),
        0 <= i < s.len(),
    ensures
        map_of(s.remove(i)) == map_of(s).remove(s[i].0@),
    decreases s.len(),
{
    let k = s[i].0@;
    if i == s.len() - 1 {
        assert(s.remove(i) =~= s.drop_last());
        assert(forall|j: int| 0 <= j < s.drop_last().len() ==> s.drop_last()[j] == s[j]);
        lemma_map_of_absent(s.drop_last(), k);
        assert(map_of(s).remove(k) =~= map_of(s.drop_last()));
    } else {
        let t = s.remove(i);
        assert(t.len() == s.len() - 1);
        assert(t.last() == s.last());
        assert(t.drop_last() =~= s.drop_last().remove(i));
        assert(forall|j: int| 0 <= j < s.drop_last().len() ==> s.drop_last()[j] == s[j]);
        assert(distinct_keys(s.drop_last()));
        lemma_map_of_remove_idx(s.drop_last(), i);
        assert(map_of(t) == map_of(s.drop_last()).remove(k).insert(s.last().0@, s.last().1));
        assert(s.last().0@ != k);
        assert(map_of(s.drop_last()).remove(k).insert(s.last().0@, s.last().1) =~= map_of(
            s.drop_last(),
        ).insert(s.last().0@, s.last().1).remove(k));
    }
}

impl<V> View for StrMap<V> {
    type V = Map<Seq<char>, V>;

    closed spec fn view(&self) -> Map<Seq<char>, V> {
        map_of(self.entries@)
    }
}

impl<V> StrMap<V> {
    /// Well-formedness: no two entries share their key contents.
    pub closed spec fn wf(&self) -> bool {
        distinct_keys(self.entries@)
    }

    /// Creates an empty map.
    pub fn new() -> (r: Self)
        ensures
            r@ == Map::<Seq<char>, V>::empty(),
            r.wf(),
    {
        StrMap { entries: Vec::new() }
    }

    /// The index of the entry for `key`, if there is one.
    fn find_index(&self, key: &str) -> (r: Option<usize>)
        ensures
            match r {
                Some(i) => i < self.entries@.len() && self.entries@[i as int].0@ == key@,
                None => forall|j: int| 0 <= j < self.entries@.len() ==> self.entries@[j].0@ != key@,
            },
    {
        let n = self.entries.len();
        let mut i: usize = 0;
        while i < n
            invariant
                n == self.entries@.len(),
                i <= n,
                forall|j: int| 0 <= j < i ==> self.entries@[j].0@ != key@,
            decreases n - i,
        {
            if str_eq(self.entries[i].0.as_str(), key) {
                return Some(i);
            }
            i = i + 1;
        }
        None
    }

    /// Whether the map has an entry for `key`.
    pub fn contains_key(&self, key: &str) -> (r: bool)
        requires
            self.wf(),
        ensures
            r == self@.contains_key(key@),
    {
        match self.find_index(key) {
            Some(i) => {
                proof {
                    lemma_map_of_index(self.entries@, i as int);
                }
                true
            },
            None => {
                proof {
                    lemma_map_of_absent(self.entries@, key@);
                }
                false
            },
        }
    }

    /// The value for `key`, if there is one.
    pub fn get<'a>(&'a self, key: &str) -> (r: Option<&'a V>)
        requires
            self.wf(),
        ensures
            match r {
                Some(v) => self@.contains_key(key@) && *v == self@[key@],
                None => !self@.contains_key(key@),
            },
    {
        match self.find_index(key) {
            Some(i) => {
                proof {
                    lemma_map_of_index(self.entries@, i as int);
                }
                Some(&self.entries[i].1)
            },
            None => {
                proof {
                    lemma_map_of_absent(self.entries@, key@);
                }
                None
            },
        }
    }

    /// Removes the entry for `key` and returns its value, if there is one.
    pub fn remove(&mut self, key: &str) -> (r: Option<V>)
        requires
            old(self).wf(),
        ensures
            final(self).wf(),
            final(self)@ == old(self)@.remove(key@),
            match r {
                Some(v) => old(self)@.contains_key(key@) && v == old(self)@[key@],
                None => !old(self)@.contains_key(key@) && final(self)@ == old(self)@,
            },
    {
        match self.find_index(key) {
            Some(i) => {
                proof {
                    lemma_map_of_index(self.entries@, i as int);
                    lemma_map_of_remove_idx(self.entries@, i as int);
                    assert(forall|a: int, b: int|
                        0 <= a < b < self.entries@.remove(i as int).len()
                            ==> self.entries@.remove(i as int)[a].0@ != self.entries@.remove(
                            i as int,
                        )[b].0@);
                }
                let (_, v) = self.entries.remove(i);
                Some(v)
            },
            None => {
                proof {
                    lemma_map_of_absent(self.entries@, key@);
                    assert(old(self)@.remove(key@) =~= old(self)@);
                }
                None
            },
        }
    }

    /// Inserts `value` for `key`, replacing any earlier entry for it.
    pub fn insert(&mut self, key: String, value: V)
        requires
            old(self).wf(),
        ensures
            final(self).wf(),
            final(self)@ == old(self)@.insert(key@, value),
    {
        let _ = self.remove(key.as_str());
        let ghost mid = self.entries@;
        self.entries.push((key, value));
        proof {
            assert(self.entries@.drop_last() =~= mid);
            assert(map_of(self.entries@) == map_of(mid).insert(key@, value));
            assert(map_of(mid).insert(key@, value) =~= old(self)@.insert(key@, value));
            assert forall|a: int, b: int|
                0 <= a < b < self.entries@.len() implies self.entries@[a].0@
                != self.entries@[b].0@ by {
                if b == self.entries@.len() - 1 {
                    lemma_map_of_index(mid, a);
                }
            }
        }
    }

    /// The keys of the map, each exactly once, in an unspecified order.
    pub fn keys(&self) -> (r: Vec<String>)
        requires
            self.wf(),
        ensures
            forall|i: int| 0 <= i < r@.len() ==> self@.contains_key(#[trigger] r@[i]@),
            forall|k: Seq<char>|
                self@.contains_key(k) ==> exists|i: int| 0 <= i < r@.len() && r@[i]@ == k,
            forall|i: int, j: int| 0 <= i < j < r@.len() ==> r@[i]@ != r@[j]@,
    {
        let n = self.entries.len();
        let mut r: Vec<String> = Vec::new();
        let mut i: usize = 0;
        while i < n
            invariant
                self.wf(),
                n == self.entries@.len(),
                i <= n,
                r@.len() == i,
                forall|j: int| 0 <= j < i ==> r@[j]@ == self.entries@[j].0@,
            decreases n - i,
        {
            r.push(self.entries[i].0.clone());
            i = i + 1;
        }
        proof {
            assert forall|i2: int| 0 <= i2 < r@.len() implies self@.contains_key(
                #[trigger] r@[i2]@,
            ) by {
                lemma_map_of_index(self.entries@, i2);
            }
            assert forall|k: Seq<char>| self@.contains_key(k) implies exists|i2: int|
                0 <= i2 < r@.len() && r@[i2]@ == k by {
                lemma_map_of_contained(self.entries@, k);
                let i0 = choose|i3: int|
                    0 <= i3 < self.entries@.len() && self.entries@[i3].0@ == k;
                assert(r@[i0]@ == k);
            }
        }
        r
    }

    /// Gives the entries up as a vector; their keys are pairwise distinct and
    /// describe exactly this map.
    pub fn take_entries(self) -> (r: Vec<(String, V)>)
        ensures
            self.wf() ==> distinct_keys(r@),
            map_of(r@) == self@,
    {
        let StrMap { entries } = self;
        entries
    }
}

} // verus!
