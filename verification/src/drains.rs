//! A registry of log drains and the contexts that fan records out to them.
//!
//! The drains themselves are opaque here (`D`): a [`SlogManager`] keeps the
//! drains that receive every record and the drains registered by name, and a
//! [`Context`] says which of them one record goes to. Writing the record to
//! each drain is the caller's work.
use vstd::prelude::*;

verus! {

/// Errors of a logging context.
#[derive(Debug)]
pub enum ContextError {
    /// Fatal problem, with its description.
    Fatal(String),
}

/// Result of a logging context.
pub type ContextResult<T> = Result<T, ContextError>;

/// The names of a list of named drains.
pub open spec fn entry_keys<D>(s: Seq<(String, D)>) -> Seq<Seq<char>> {
    s.map_values(|e: (String, D)| e.0@)
}

/// The map from names to drains that a list of named drains stands for,
/// later entries taking precedence.
pub open spec fn entries_map<D>(s: Seq<(String, D)>) -> Map<Seq<char>, D>
    decreases s.len(),
{
    if s.len() == 0 {
        Map::empty()
    } else {
        entries_map(s.drop_last()).insert(s.last().0@, s.last().1)
    }
}

/// A name that no entry has is not in the map.
pub proof fn lemma_entries_map_absent<D>(s: Seq<(String, D)>, k: Seq<char>)
    requires
        !entry_keys(s).contains(k),
    ensures
        !entries_map(s).dom().contains(k),
    decreases s.len(),
{
    if s.len() > 0 {
        assert(entry_keys(s.drop_last()) =~= entry_keys(s).drop_last());
        assert(entry_keys(s)[s.len() - 1] == s.last().0@);
        if entry_keys(s.drop_last()).contains(k) {
            let i = choose|i: int| 0 <= i < entry_keys(s.drop_last()).len() && entry_keys(s.drop_last())[i] == k;
            assert(entry_keys(s)[i] == k);
        }
        lemma_entries_map_absent(s.drop_last(), k);
    }
}

/// With distinct names, the map sends the name of each entry to its drain.
pub proof fn lemma_entries_map_at<D>(s: Seq<(String, D)>, i: int)
    requires
        entry_keys(s).no_duplicates(),
        0 <= i < s.len(),
    ensures
        entries_map(s).dom().contains(s[i].0@),
        entries_map(s)[s[i].0@] == s[i].1,
    decreases s.len(),
{
    let last = s.len() - 1;
    if i < last {
        assert(entry_keys(s.drop_last()) =~= entry_keys(s).drop_last());
        assert(entry_keys(s)[i] != entry_keys(s)[last]);
        lemma_entries_map_at(s.drop_last(), i);
        assert(s.drop_last()[i] == s[i]);
    }
}

/// With distinct names, replacing the entry of a name replaces its drain in
/// the map.
proof fn lemma_entries_map_update<D>(s: Seq<(String, D)>, i: int, e: (String, D))
    requires
        entry_keys(s).no_duplicates(),
        0 <= i < s.len(),
        e.0@ == s[i].0@,
    ensures
        entries_map(s.update(i, e)) == entries_map(s).insert(e.0@, e.1),
        entry_keys(s.update(i, e)) == entry_keys(s),
    decreases s.len(),
{
    let u = s.update(i, e);
    let last = s.len() - 1;
    assert(entry_keys(u) =~= entry_keys(s));
    if i == last {
        assert(u.drop_last() =~= s.drop_last());
        assert(entries_map(u) =~= entries_map(s).insert(e.0@, e.1));
    } else {
        assert(u.drop_last() =~= s.drop_last().update(i, e));
        assert(entry_keys(s.drop_last()) =~= entry_keys(s).drop_last());
        lemma_entries_map_update(s.drop_last(), i, e);
        assert(entry_keys(s)[i] != entry_keys(s)[last]);
        assert(u.last() == s.last());
        assert(entries_map(u) =~= entries_map(s).insert(e.0@, e.1));
    }
}

/// The drains of a logger: those that get every record, and those that are
/// registered by name.
pub struct SlogManager<D> {
    drain_map: Vec<(String, D)>,
    all_drains: Vec<D>,
}

impl<D> SlogManager<D> {
    /// The drains registered by name.
    pub closed spec fn drains(&self) -> Map<Seq<char>, D> {
        entries_map(self.drain_map@)
    }

    /// The drains that get every record, in the order they were added.
    pub closed spec fn all(&self) -> Seq<D> {
        self.all_drains@
    }

    /// No name is registered twice.
    pub closed spec fn wf(&self) -> bool {
        entry_keys(self.drain_map@).no_duplicates()
    }

    /// Every manager is well formed.
    #[verifier::type_invariant]
    spec fn inv(&self) -> bool {
        self.wf()
    }

    /// A manager with no drains.
    pub fn new() -> (r: SlogManager<D>)
        ensures
            r.drains() == Map::<Seq<char>, D>::empty(),
            r.all() == Seq::<D>::empty(),
    {
        let drain_map: Vec<(String, D)> = Vec::new();
        proof {
            assert(entry_keys(drain_map@) =~= Seq::<Seq<char>>::empty());
        }
        SlogManager { drain_map, all_drains: Vec::new() }
    }

    /// Adds a drain that gets every record.
    pub fn add_all_drain(&mut self, drain: D) -> (r: &Self)
        ensures
            *r == *final(self),
            r.all() == old(self).all().push(drain),
            r.drains() == old(self).drains(),
    {
        proof {
            use_type_invariant(&*self);
        }
        let mut tmp = SlogManager::new();
        std::mem::swap(self, &mut tmp);
        let SlogManager { drain_map, mut all_drains } = tmp;
        all_drains.push(drain);
        *self = SlogManager { drain_map, all_drains };
        self
    }

    /// The position of the entry named `name`.
    fn position(&self, name: &String) -> (r: Option<usize>)
        ensures
            r matches Some(i) ==> i < self.drain_map@.len() && self.drain_map@[i as int].0@
                == name@,
            r is None ==> !entry_keys(self.drain_map@).contains(name@),
    {
        key_position(&self.drain_map, name)
    }

    /// Registers `drain` under `name`, replacing the drain registered under
    /// that name before, if any.
    pub fn add(&mut self, name: String, drain: D) -> (r: &Self)
        ensures
            *r == *final(self),
            r.drains() == old(self).drains().insert(name@, drain),
            r.all() == old(self).all(),
    {
        proof {
            use_type_invariant(&*self);
        }
        let mut tmp = SlogManager::new();
        std::mem::swap(self, &mut tmp);
        let SlogManager { mut drain_map, all_drains } = tmp;
        match key_position(&drain_map, &name) {
            Some(i) => {
                proof {
                    lemma_entries_map_update(drain_map@, i as int, (name, drain));
                }
                drain_map.set(i, (name, drain));
            },
            None => {
                let ghost k = name@;
                let ghost prev = drain_map@;
                drain_map.push((name, drain));
                proof {
                    assert(drain_map@.drop_last() =~= prev);
                    assert(entry_keys(drain_map@) =~= entry_keys(prev).push(k));
                }
            },
        }
        *self = SlogManager { drain_map, all_drains };
        self
    }
}

/// The position of the entry named `name` in a list of named drains.
fn key_position<D>(map: &Vec<(String, D)>, name: &String) -> (r: Option<usize>)
    ensures
        r matches Some(i) ==> i < map@.len() && map@[i as int].0@ == name@,
        r is None ==> !entry_keys(map@).contains(name@),
{
    let mut i: usize = 0;
    while i < map.len()
        invariant
            0 <= i <= map@.len(),
            forall|j: int| 0 <= j < i ==> entry_keys(map@)[j] != name@,
        decreases map@.len() - i,
    {
        if map[i].0 == *name {
            return Some(i);
        }
        i = i + 1;
    }
    proof {
        if entry_keys(map@).contains(name@) {
            let k = choose|k: int| 0 <= k < entry_keys(map@).len() && entry_keys(map@)[k] == name@;
            assert(entry_keys(map@)[k] == name@);
        }
    }
    None
}

/// A logging context over a manager: a record logged through it goes to
/// every drain that gets every record, then to the drains named in the
/// context, in the order the names were added.
pub struct Context<'a, D> {
    asio: &'a SlogManager<D>,
    log_drains: Vec<String>,
}

impl<'a, D> Context<'a, D> {
    /// The manager the context draws its drains from.
    pub closed spec fn manager(&self) -> SlogManager<D> {
        *self.asio
    }

    /// The names of the drains of this context, in the order added.
    pub closed spec fn keys(&self) -> Seq<Seq<char>> {
        self.log_drains@.map_values(|s: String| s@)
    }

    /// A context over `slog_manager` that names no drains.
    pub fn new(slog_manager: &'a SlogManager<D>) -> (r: Context<'a, D>)
        ensures
            r.manager() == *slog_manager,
            r.keys() == Seq::<Seq<char>>::empty(),
    {
        let r = Context { asio: slog_manager, log_drains: Vec::new() };
        proof {
            assert(r.keys() =~= Seq::<Seq<char>>::empty());
        }
        r
    }

    /// Names one more drain for this context.
    pub fn add(&mut self, key: String) -> (r: &Self)
        ensures
            *r == *final(self),
            r.manager() == old(self).manager(),
            r.keys() == old(self).keys().push(key@),
    {
        let ghost k = key@;
        self.log_drains.push(key);
        proof {
            assert(self.keys() =~= old(self).keys().push(k));
        }
        self
    }

    /// The drains a record logged through this context is written to, in
    /// order: every drain of the manager that gets all records, then the
    /// drain registered under each name of the context, stopping at the
    /// first name that has none. The flag says whether every name had one
    /// (logging through the context is refused otherwise).
    pub fn log_targets(&self) -> (r: (Vec<&'a D>, bool))
        ensures
            self.manager().all().len() <= r.0@.len() <= self.manager().all().len()
                + self.keys().len(),
            forall|i: int|
                0 <= i < self.manager().all().len() ==> *#[trigger] r.0@[i]
                    == self.manager().all()[i],
            forall|j: int|
                0 <= j < r.0@.len() - self.manager().all().len() ==> #[trigger] self.manager().drains().dom().contains(
                    self.keys()[j],
                ) && *r.0@[self.manager().all().len() + j] == self.manager().drains()[self.keys()[j]],
            r.1 <==> r.0@.len() == self.manager().all().len() + self.keys().len(),
            !r.1 ==> !self.manager().drains().dom().contains(
                self.keys()[r.0@.len() - self.manager().all().len()],
            ),
            r.1 <==> forall|j: int|
                0 <= j < self.keys().len() ==> #[trigger] self.manager().drains().dom().contains(
                    self.keys()[j],
                ),
    {
        let mgr: &'a SlogManager<D> = self.asio;
        proof {
            use_type_invariant(mgr);
        }
        let mut r: Vec<&'a D> = Vec::new();
        let mut i: usize = 0;
        while i < mgr.all_drains.len()
            invariant
                mgr == self.asio,
                0 <= i <= mgr.all_drains@.len(),
                r@.len() == i,
                forall|k: int| 0 <= k < i ==> *#[trigger] r@[k] == mgr.all_drains@[k],
            decreases mgr.all_drains@.len() - i,
        {
            r.push(&mgr.all_drains[i]);
            i = i + 1;
        }
        let n = mgr.all_drains.len();
        let mut j: usize = 0;
        while j < self.log_drains.len()
            invariant
                mgr == self.asio,
                n == mgr.all_drains@.len(),
                0 <= j <= self.log_drains@.len(),
                r@.len() == n + j,
                self.manager().wf(),
                forall|k: int| 0 <= k < n ==> *#[trigger] r@[k] == mgr.all_drains@[k],
                forall|t: int|
                    0 <= t < j ==> #[trigger] self.manager().drains().dom().contains(self.keys()[t])
                        && *r@[n + t] == self.manager().drains()[self.keys()[t]],
            decreases self.log_drains@.len() - j,
        {
            let key = &self.log_drains[j];
            proof {
                assert(self.keys()[j as int] == key@);
            }
            match mgr.position(key) {
                Some(p) => {
                    proof {
                        lemma_entries_map_at(mgr.drain_map@, p as int);
                    }
                    r.push(&mgr.drain_map[p].1);
                },
                None => {
                    proof {
                        lemma_entries_map_absent(mgr.drain_map@, key@);
                        assert(!self.manager().drains().dom().contains(self.keys()[j as int]));
                    }
                    return (r, false);
                },
            }
            j = j + 1;
        }
        (r, true)
    }
}

} // verus!
