use vstd::prelude::*;
use crate::db::DbInstance;
use crate::parser::run_statement;
use crate::parser::statement_outcome;
use crate::strmap::StrMap;

verus! {

/// The process-wide registry of databases by name: the single source of
/// truth for which databases exist in memory.
pub struct Catalog {
    dbs: StrMap<DbInstance>,
}

impl View for Catalog {
    type V = Map<Seq<char>, DbInstance>;

    closed spec fn view(&self) -> Map<Seq<char>, DbInstance> {
        self.dbs@
    }
}

impl Catalog {
    /// The table itself is well formed.
    pub closed spec fn table_wf(&self) -> bool {
        self.dbs.wf()
    }

    /// Well-formedness: every registered database is well formed and is
    /// keyed by its own name.
    pub open spec fn wf(&self) -> bool {
        self.table_wf() && forall|k: Seq<char>|
            self@.contains_key(k) ==> (#[trigger] self@[k]).wf() && self@[k].name@ == k
    }

    /// Creates an empty catalog.
    pub fn new() -> (r: Self)
        ensures
            r.wf(),
            r@ == Map::<Seq<char>, DbInstance>::empty(),
    {
        Catalog { dbs: StrMap::new() }
    }

    /// Whether a database named `name` is registered.
    pub fn contains(&self, name: &str) -> (r: bool)
        requires
            self.wf(),
        ensures
            r == self@.contains_key(name@),
    {
        self.dbs.contains_key(name)
    }

    /// The database named `name`, if registered.
    pub fn get<'a>(&'a self, name: &str) -> (r: Option<&'a DbInstance>)
        requires
            self.wf(),
        ensures
            match r {
                Some(d) => self@.contains_key(name@) && *d == self@[name@],
                None => !self@.contains_key(name@),
            },
    {
        self.dbs.get(name)
    }

    /// Registers `db` under its own name, replacing any database already
    /// registered under it.
    pub fn insert(&mut self, db: DbInstance)
        requires
            old(self).wf(),
            db.wf(),
        ensures
            final(self).wf(),
            final(self)@ == old(self)@.insert(db.name@, db),
    {
        let key = db.name.clone();
        self.dbs.insert(key, db);
    }

    /// Removes and returns the database named `name`, if registered.
    pub fn remove(&mut self, name: &str) -> (r: Option<DbInstance>)
        requires
            old(self).wf(),
        ensures
            final(self).wf(),
            final(self)@ == old(self)@.remove(name@),
            match r {
                Some(d) => old(self)@.contains_key(name@) && d == old(self)@[name@],
                None => !old(self)@.contains_key(name@) && final(self)@ == old(self)@,
            },
    {
        self.dbs.remove(name)
    }

    /// The names of all registered databases, each exactly once, in an
    /// unspecified order.
    pub fn names(&self) -> (r: Vec<String>)
        requires
            self.wf(),
        ensures
            forall|i: int| 0 <= i < r@.len() ==> self@.contains_key(#[trigger] r@[i]@),
            forall|k: Seq<char>|
                self@.contains_key(k) ==> exists|i: int| 0 <= i < r@.len() && r@[i]@ == k,
            forall|i: int, j: int| 0 <= i < j < r@.len() ==> r@[i]@ != r@[j]@,
    {
        self.dbs.keys()
    }

    /// Runs one data-command line against the database named `name` at time
    /// `now`.  Returns the reply line and whether the database changed and
    /// so must be persisted, or `None` when no such database is registered.
    pub fn run_statement(&mut self, name: &str, input: &str, now: u64) -> (r: Option<
        (String, bool),
    >)
        requires
            old(self).wf(),
        ensures
            final(self).wf(),
            !old(self)@.contains_key(name@) ==> r is None && final(self)@ == old(self)@,
            old(self)@.contains_key(name@) ==> ({
                let d0 = old(self)@[name@];
                let outcome = statement_outcome(d0.store_model(), input@, now);
                r matches Some(p) && p.0@ == outcome.1 && p.1 == outcome.2
                    && final(self)@.contains_key(name@) && final(self)@ == old(self)@.insert(
                    name@,
                    final(self)@[name@],
                ) && final(self)@[name@].same_identity(d0) && final(self)@[name@].store_model()
                    == outcome.0
            }),
    {
        match self.dbs.remove(name) {
            Some(mut d) => {
                let (reply, mutated) = run_statement(&mut d, input, now);
                proof {
                    assert(d.name@ == name@);
                }
                let key = d.name.clone();
                self.dbs.insert(key, d);
                proof {
                    assert(self@ =~= old(self)@.insert(name@, self@[name@]));
                }
                Some((reply, mutated))
            },
            None => None,
        }
    }
}

} // verus!
