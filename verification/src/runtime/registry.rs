//! Registries that map names to handlers. The handler type is left to the
//! caller (the runtime keeps shared pointers to its handler objects).
use crate::runtime::versions::{
    ascending, has_version, semver_parse, semver_order, version_text, SemanticVersion, VersionOrder, VersionTable,
    VersionView,
};
use vstd::prelude::*;
use vstd::string::*;

verus! {

/// Values kept under distinct names; storing under a name already present
/// replaces its value.
pub struct NamedMap<H> {
    entries: Vec<(String, H)>,
    model: Ghost<Map<Seq<char>, H>>,
}

impl<H> NamedMap<H> {
    /// The entries hold distinct names and agree with the model.
    pub closed spec fn wf(&self) -> bool {
        &&& forall|i: int, j: int|
            0 <= i < j < self.entries@.len() ==> (#[trigger] self.entries@[i]).0@ != (#[trigger] self.entries@[j]).0@
        &&& forall|k: Seq<char>|
            #[trigger] self.model@.contains_key(k) <==> exists|i: int| 0 <= i < self.entries@.len() && (#[trigger] self.entries@[i]).0@ == k
        &&& forall|i: int| 0 <= i < self.entries@.len() ==> self.model@[(#[trigger] self.entries@[i]).0@] == self.entries@[i].1
    }

    /// The values held, by name.
    pub closed spec fn view(&self) -> Map<Seq<char>, H> {
        self.model@
    }

    /// The names held, in the order they were first stored.
    pub closed spec fn names(&self) -> Seq<Seq<char>> {
        self.entries@.map_values(|e: (String, H)| e.0@)
    }

    /// An empty map.
    pub fn new() -> (r: Self)
        ensures
            r.wf(),
            r@ == Map::<Seq<char>, H>::empty(),
            r.names() == Seq::<Seq<char>>::empty(),
    {
        let r = NamedMap { entries: Vec::new(), model: Ghost(Map::empty()) };
        assert(r.names() =~= Seq::<Seq<char>>::empty());
        r
    }

    fn find(&self, name: &str) -> (r: Option<usize>)
        requires
            self.wf(),
        ensures
            match r {
                Some(i) => i < self.entries@.len() && self.entries@[i as int].0@ == name@,
                None => !self@.contains_key(name@),
            },
    {
        let mut i: usize = 0;
        while i < self.entries.len()
            invariant
                i <= self.entries@.len(),
                forall|j: int| 0 <= j < i ==> (#[trigger] self.entries@[j]).0@ != name@,
            decreases self.entries.len() - i,
        {
            if crate::text::str_eq(self.entries[i].0.as_str(), name) {
                return Some(i);
            }
            i += 1;
        }
        None
    }

    /// The value stored under `name`.
    pub fn get(&self, name: &str) -> (r: Option<&H>)
        requires
            self.wf(),
        ensures
            match r {
                Some(h) => self@.contains_key(name@) && *h == self@[name@],
                None => !self@.contains_key(name@),
            },
    {
        match self.find(name) {
            Some(i) => Some(&self.entries[i].1),
            None => None,
        }
    }

    /// Whether a value is stored under `name`.
    pub fn contains(&self, name: &str) -> (r: bool)
        requires
            self.wf(),
        ensures
            r == self@.contains_key(name@),
    {
        self.find(name).is_some()
    }

    /// The number of names held.
    pub fn len(&self) -> (r: usize)
        requires
            self.wf(),
        ensures
            r == self@.dom().len(),
            r == self.names().len(),
            self@.dom().finite(),
    {
        proof {
            let ks = self.names();
            assert(ks.no_duplicates()) by {
                assert forall|i: int, j: int| 0 <= i < ks.len() && 0 <= j < ks.len() && i != j implies ks[i] != ks[j] by {
                    if i < j {
                        assert(self.entries@[i].0@ != self.entries@[j].0@);
                    } else {
                        assert(self.entries@[j].0@ != self.entries@[i].0@);
                    }
                }
            }
            ks.unique_seq_to_set();
            assert(self@.dom() =~= ks.to_set()) by {
                assert forall|k: Seq<char>| self@.dom().contains(k) implies ks.to_set().contains(k) by {
                    let i = choose|i: int| 0 <= i < self.entries@.len() && (#[trigger] self.entries@[i]).0@ == k;
                    assert(ks[i] == k);
                }
                assert forall|k: Seq<char>| ks.to_set().contains(k) implies self@.dom().contains(k) by {
                    let i = choose|i: int| 0 <= i < ks.len() && ks[i] == k;
                    assert(self.entries@[i].0@ == k);
                }
            }
        }
        self.entries.len()
    }

    /// The names held, in the order they were first stored.
    pub fn name_list(&self) -> (r: Vec<String>)
        requires
            self.wf(),
        ensures
            r@.map_values(|s: String| s@) == self.names(),
            forall|k: Seq<char>| self@.contains_key(k) <==> self.names().contains(k),
            self.names().no_duplicates(),
            r@.len() == self@.dom().len(),
    {
        proof {
            self.lemma_finite();
        }
        let mut out: Vec<String> = Vec::new();
        let mut i: usize = 0;
        while i < self.entries.len()
            invariant
                i <= self.entries@.len(),
                out@.len() == i,
                forall|j: int| 0 <= j < i ==> (#[trigger] out@[j])@ == self.entries@[j].0@,
            decreases self.entries.len() - i,
        {
            out.push(self.entries[i].0.clone());
            i += 1;
        }
        assert(out@.map_values(|s: String| s@) =~= self.names());
        proof {
            assert forall|k: Seq<char>| self@.contains_key(k) <==> self.names().contains(k) by {
                if self@.contains_key(k) {
                    let i = choose|i: int| 0 <= i < self.entries@.len() && (#[trigger] self.entries@[i]).0@ == k;
                    assert(self.names()[i] == k);
                }
                if self.names().contains(k) {
                    let i = choose|i: int| 0 <= i < self.names().len() && self.names()[i] == k;
                    assert(self.entries@[i].0@ == k);
                }
            }
        }
        out
    }

    /// Stores `value` under `name`, replacing what was there.
    pub fn insert(&mut self, name: String, value: H)
        requires
            old(self).wf(),
        ensures
            final(self).wf(),
            final(self)@ == old(self)@.insert(name@, value),
            old(self)@.contains_key(name@) ==> final(self).names() == old(self).names(),
            !old(self)@.contains_key(name@) ==> final(self).names() == old(self).names().push(name@),
    {
        let found = self.find(name.as_str());
        let ghost key = name@;
        match found {
            Some(i) => {
                let ghost old_entries = self.entries@;
                let ghost new_model = self.model@.insert(key, value);
                self.entries.set(i, (name, value));
                self.model = Ghost(new_model);
                assert forall|k: Seq<char>| #[trigger] self.model@.contains_key(k) <==> exists|j: int|
                    0 <= j < self.entries@.len() && (#[trigger] self.entries@[j]).0@ == k by {
                    if self.model@.contains_key(k) && k != key {
                        let j = choose|j: int| 0 <= j < old_entries.len() && (#[trigger] old_entries[j]).0@ == k;
                        assert(self.entries@[j].0@ == k);
                    }
                    if k == key {
                        assert(self.entries@[i as int].0@ == k);
                    }
                    if exists|j: int| 0 <= j < self.entries@.len() && (#[trigger] self.entries@[j]).0@ == k {
                        let j = choose|j: int| 0 <= j < self.entries@.len() && (#[trigger] self.entries@[j]).0@ == k;
                        if j != i {
                            assert(old_entries[j].0@ == k);
                        }
                    }
                }
                assert forall|x: int, y: int| 0 <= x < y < self.entries@.len() implies (#[trigger] self.entries@[x]).0@
                    != (#[trigger] self.entries@[y]).0@ by {
                    assert(old_entries[x].0@ != old_entries[y].0@);
                }
                assert forall|x: int| 0 <= x < self.entries@.len() implies self.model@[(#[trigger] self.entries@[x]).0@]
                    == self.entries@[x].1 by {
                    if x != i {
                        assert(old_entries[x].0@ != old_entries[i as int].0@);
                    }
                }
                assert(self.names() =~= old_entries.map_values(|e: (String, H)| e.0@));
            },
            None => {
                let ghost old_entries = self.entries@;
                let ghost new_model = self.model@.insert(key, value);
                self.entries.push((name, value));
                self.model = Ghost(new_model);
                assert forall|k: Seq<char>| #[trigger] self.model@.contains_key(k) <==> exists|j: int|
                    0 <= j < self.entries@.len() && (#[trigger] self.entries@[j]).0@ == k by {
                    if self.model@.contains_key(k) && k != key {
                        let j = choose|j: int| 0 <= j < old_entries.len() && (#[trigger] old_entries[j]).0@ == k;
                        assert(self.entries@[j].0@ == k);
                    }
                    if k == key {
                        assert(self.entries@[old_entries.len() as int].0@ == k);
                    }
                }
                assert forall|x: int, y: int| 0 <= x < y < self.entries@.len() implies (#[trigger] self.entries@[x]).0@
                    != (#[trigger] self.entries@[y]).0@ by {
                    if y == old_entries.len() {
                        assert(self.entries@[x] == old_entries[x]);
                        assert(old_entries[x].0@ != key) by {
                            if old_entries[x].0@ == key {
                                assert(old(self).model@.contains_key(key));
                            }
                        }
                    } else {
                        assert(old_entries[x].0@ != old_entries[y].0@);
                    }
                }
                assert forall|x: int| 0 <= x < self.entries@.len() implies self.model@[(#[trigger] self.entries@[x]).0@]
                    == self.entries@[x].1 by {
                    if x < old_entries.len() {
                        assert(old_entries[x].0@ != key) by {
                            if old_entries[x].0@ == key {
                                assert(old(self).model@.contains_key(key));
                            }
                        }
                    }
                }
                assert(self.names() =~= old_entries.map_values(|e: (String, H)| e.0@).push(key));
            },
        }
    }
}

impl<H> NamedMap<H> {
    /// Takes the value stored under `name` out of the map.
    pub fn take(&mut self, name: &str) -> (r: Option<H>)
        requires
            old(self).wf(),
        ensures
            final(self).wf(),
            final(self)@ == old(self)@.remove(name@),
            match r {
                Some(h) => old(self)@.contains_key(name@) && h == old(self)@[name@],
                None => !old(self)@.contains_key(name@),
            },
    {
        match self.find(name) {
            Some(i) => {
                let ghost old_entries = self.entries@;
                let ghost key = name@;
                let (_, h) = self.entries.remove(i);
                self.model = Ghost(self.model@.remove(key));
                proof {
                    let n = self.entries@;
                    assert forall|x: int| 0 <= x < n.len() implies n[x] == old_entries[if x < i { x } else { x + 1 }] by {}
                    assert forall|k: Seq<char>| #[trigger] self.model@.contains_key(k) <==> exists|j: int|
                        0 <= j < n.len() && (#[trigger] n[j]).0@ == k by {
                        if self.model@.contains_key(k) {
                            let j = choose|j: int| 0 <= j < old_entries.len() && (#[trigger] old_entries[j]).0@ == k;
                            assert(j != i);
                            let j2 = if j < i { j } else { j - 1 };
                            assert(n[j2].0@ == k);
                        }
                        if exists|j: int| 0 <= j < n.len() && (#[trigger] n[j]).0@ == k {
                            let j = choose|j: int| 0 <= j < n.len() && (#[trigger] n[j]).0@ == k;
                            let j2 = if j < i { j } else { j + 1 };
                            assert(old_entries[j2].0@ == k);
                            assert(old_entries[j2].0@ != old_entries[i as int].0@) by {
                                if j2 < i {
                                } else {
                                }
                            }
                        }
                    }
                    assert forall|x: int, y: int| 0 <= x < y < n.len() implies (#[trigger] n[x]).0@ != (#[trigger] n[y]).0@ by {
                        let x2 = if x < i { x } else { x + 1 };
                        let y2 = if y < i { y } else { y + 1 };
                        assert(old_entries[x2].0@ != old_entries[y2].0@);
                    }
                    assert forall|x: int| 0 <= x < n.len() implies self.model@[(#[trigger] n[x]).0@] == n[x].1 by {
                        let x2 = if x < i { x } else { x + 1 };
                        if x2 < i {
                            assert(old_entries[x2].0@ != old_entries[i as int].0@);
                        } else {
                            assert(old_entries[i as int].0@ != old_entries[x2].0@);
                        }
                    }
                }
                Some(h)
            },
            None => {
                assert(self.model@.remove(name@) =~= self.model@);
                None
            },
        }
    }
}

impl<H: Clone> NamedMap<H> {
    /// A copy of the map: the same names, each with a clone of its value.
    pub fn duplicate(&self) -> (r: Self)
        requires
            self.wf(),
        ensures
            r.wf(),
            r@.dom() == self@.dom(),
            forall|k: Seq<char>| #[trigger] r@.contains_key(k) ==> vstd::pervasive::cloned(self@[k], r@[k]),
    {
        let mut out: NamedMap<H> = NamedMap::new();
        let mut i: usize = 0;
        while i < self.entries.len()
            invariant
                self.wf(),
                out.wf(),
                i <= self.entries@.len(),
                forall|k: Seq<char>| #[trigger] out@.contains_key(k) <==> exists|j: int| 0 <= j < i && (#[trigger] self.entries@[j]).0@ == k,
                forall|k: Seq<char>| #[trigger] out@.contains_key(k) ==> vstd::pervasive::cloned(self@[k], out@[k]),
            decreases self.entries.len() - i,
        {
            let name = self.entries[i].0.clone();
            let value = self.entries[i].1.clone();
            proof {
                assert(self@[self.entries@[i as int].0@] == self.entries@[i as int].1);
            }
            out.insert(name, value);
            proof {
                assert forall|k: Seq<char>| #[trigger] out@.contains_key(k) <==> exists|j: int| 0 <= j < i + 1 && (#[trigger] self.entries@[j]).0@ == k by {
                    if k == self.entries@[i as int].0@ {
                    } else if exists|j: int| 0 <= j < i + 1 && (#[trigger] self.entries@[j]).0@ == k {
                        let j = choose|j: int| 0 <= j < i + 1 && (#[trigger] self.entries@[j]).0@ == k;
                        assert(j < i);
                    }
                }
            }
            i += 1;
        }
        proof {
            assert(out@.dom() =~= self@.dom()) by {
                assert forall|k: Seq<char>| out@.dom().contains(k) <==> self@.dom().contains(k) by {
                    if self@.contains_key(k) {
                        let j = choose|j: int| 0 <= j < self.entries@.len() && (#[trigger] self.entries@[j]).0@ == k;
                        assert(out@.contains_key(k));
                    }
                }
            }
        }
        out
    }
}

impl<H> NamedMap<H> {
    /// A map holds finitely many names, each once, and as many as its name
    /// list is long.
    pub proof fn lemma_finite(&self)
        requires
            self.wf(),
        ensures
            self@.dom().finite(),
            self.names().no_duplicates(),
            self@.dom() == self.names().to_set(),
            self@.dom().len() == self.names().len(),
    {
        let ks = self.names();
        assert(ks.no_duplicates()) by {
            assert forall|i: int, j: int| 0 <= i < ks.len() && 0 <= j < ks.len() && i != j implies ks[i] != ks[j] by {
                if i < j {
                    assert(self.entries@[i].0@ != self.entries@[j].0@);
                } else {
                    assert(self.entries@[j].0@ != self.entries@[i].0@);
                }
            }
        }
        ks.unique_seq_to_set();
        assert(self@.dom() =~= ks.to_set()) by {
            assert forall|k: Seq<char>| self@.dom().contains(k) implies ks.to_set().contains(k) by {
                let i = choose|i: int| 0 <= i < self.entries@.len() && (#[trigger] self.entries@[i]).0@ == k;
                assert(ks[i] == k);
            }
            assert forall|k: Seq<char>| ks.to_set().contains(k) implies self@.dom().contains(k) by {
                let i = choose|i: int| 0 <= i < ks.len() && ks[i] == k;
                assert(self.entries@[i].0@ == k);
            }
        }
        vstd::seq_lib::seq_to_set_is_finite(ks);
    }
}

/// Registering an activity under a new name adds one to the count of
/// registered activities; registering under a name already held leaves the
/// count as it was.
pub proof fn lemma_register_count<H>(b: ActivityRegistryBuilder<H>, name: Seq<char>, handler: H)
    requires
        b.map.wf(),
    ensures
        b.map@.insert(name, handler).dom().finite(),
        b.map@.insert(name, handler).dom().len() == b.map@.dom().len() + (if b.map@.contains_key(name) {
            0int
        } else {
            1int
        }),
{
    b.map.lemma_finite();
    assert(b.map@.insert(name, handler).dom() =~= b.map@.dom().insert(name));
    if b.map@.contains_key(name) {
        assert(b.map@.dom().insert(name) =~= b.map@.dom());
    }
}

/// Immutable registry mapping activity names to handlers.
pub struct ActivityRegistry<H> {
    pub map: NamedMap<H>,
}

/// Builder for `ActivityRegistry`.
pub struct ActivityRegistryBuilder<H> {
    pub map: NamedMap<H>,
}

impl<H> ActivityRegistry<H> {
    /// Create a new builder for registering activities.
    pub fn builder() -> (r: ActivityRegistryBuilder<H>)
        ensures
            r.map.wf(),
            r.map@ == Map::<Seq<char>, H>::empty(),
    {
        ActivityRegistryBuilder { map: NamedMap::new() }
    }

    /// Get the handler for a specific activity; `None` if it is not registered.
    pub fn get(&self, name: &str) -> (r: Option<&H>)
        requires
            self.map.wf(),
        ensures
            match r {
                Some(h) => self.map@.contains_key(name@) && *h == self.map@[name@],
                None => !self.map@.contains_key(name@),
            },
    {
        self.map.get(name)
    }

    /// List all registered activity names.
    pub fn list_activity_names(&self) -> (r: Vec<String>)
        requires
            self.map.wf(),
        ensures
            r@.map_values(|s: String| s@) == self.map.names(),
            forall|k: Seq<char>| self.map@.contains_key(k) <==> self.map.names().contains(k),
            self.map.names().no_duplicates(),
            r@.len() == self.map@.dom().len(),
    {
        self.map.name_list()
    }

    /// Check if an activity is registered.
    pub fn has(&self, name: &str) -> (r: bool)
        requires
            self.map.wf(),
        ensures
            r == self.map@.contains_key(name@),
    {
        self.map.contains(name)
    }

    /// Get the count of registered activities.
    pub fn count(&self) -> (r: usize)
        requires
            self.map.wf(),
        ensures
            r == self.map@.dom().len(),
            self.map@.dom().finite(),
    {
        self.map.len()
    }
}

impl<H: Clone> ActivityRegistryBuilder<H> {
    /// A builder that starts from the activities of an existing registry.
    pub fn from_registry(reg: &ActivityRegistry<H>) -> (r: Self)
        requires
            reg.map.wf(),
        ensures
            r.map.wf(),
            r.map@.dom() == reg.map@.dom(),
            forall|k: Seq<char>| #[trigger] r.map@.contains_key(k) ==> vstd::pervasive::cloned(reg.map@[k], r.map@[k]),
    {
        ActivityRegistryBuilder { map: reg.map.duplicate() }
    }
}

/// A builder started from a registry maps exactly the same names to the
/// same handlers, where copying a handler gives the same handler (as for
/// shared pointers and plain values).
pub proof fn lemma_from_registry_same_handlers<H: Clone>(reg: ActivityRegistry<H>, b: ActivityRegistryBuilder<H>)
    requires
        reg.map.wf(),
        b.map.wf(),
        b.map@.dom() == reg.map@.dom(),
        forall|k: Seq<char>| #[trigger] b.map@.contains_key(k) ==> vstd::pervasive::cloned(reg.map@[k], b.map@[k]),
        forall|x: H, y: H| #[trigger] vstd::pervasive::cloned(x, y) ==> x == y,
    ensures
        b.map@ == reg.map@,
{
    assert forall|k: Seq<char>| #[trigger] b.map@.contains_key(k) implies b.map@[k] == reg.map@[k] by {
        assert(vstd::pervasive::cloned(reg.map@[k], b.map@[k]));
    }
    assert(b.map@ =~= reg.map@);
}

impl<H> ActivityRegistryBuilder<H> {
    /// Register an activity handler under `name`; a later registration of
    /// the same name replaces an earlier one.
    pub fn register(self, name: String, handler: H) -> (r: Self)
        requires
            self.map.wf(),
        ensures
            r.map.wf(),
            r.map@ == self.map@.insert(name@, handler),
    {
        let mut b = self;
        b.map.insert(name, handler);
        b
    }

    /// Register several activities, in order.
    pub fn register_all(self, items: Vec<(String, H)>) -> (r: Self)
        requires
            self.map.wf(),
        ensures
            r.map.wf(),
            r.map@ == registered_all(self.map@, items@),
    {
        let mut b = self;
        let mut rest = items;
        let ghost all = rest@;
        let ghost start = b.map@;
        let mut i: usize = 0;
        let n = rest.len();
        while rest.len() > 0
            invariant
                n == all.len(),
                i + rest@.len() == all.len(),
                rest@ == all.subrange(i as int, all.len() as int),
                b.map.wf(),
                b.map@ == registered_all(start, all.subrange(0, i as int)),
            decreases rest@.len(),
        {
            let (name, handler) = rest.remove(0);
            proof {
                assert(all.subrange(0, i + 1).drop_last() == all.subrange(0, i as int));
                assert(all.subrange(0, i + 1).last() == all[i as int]);
            }
            b.map.insert(name, handler);
            i += 1;
        }
        assert(all.subrange(0, all.len() as int) == all);
        b
    }

    /// Merge another activity registry into this builder; the other
    /// registry's handlers replace handlers registered under the same names.
    pub fn merge(self, other: ActivityRegistry<H>) -> (r: Self)
        requires
            self.map.wf(),
            other.map.wf(),
        ensures
            r.map.wf(),
            r.map@ == self.map@.union_prefer_right(other.map@),
    {
        let mut b = self;
        let ghost start = b.map@;
        let mut rest = other.map.entries;
        let ghost all = rest@;
        let mut i: usize = 0;
        let n = rest.len();
        while rest.len() > 0
            invariant
                n == all.len(),
                i + rest@.len() == all.len(),
                rest@ == all.subrange(i as int, all.len() as int),
                b.map.wf(),
                b.map@ == registered_all(start, all.subrange(0, i as int)),
            decreases rest@.len(),
        {
            let (name, handler) = rest.remove(0);
            proof {
                assert(all.subrange(0, i + 1).drop_last() == all.subrange(0, i as int));
                assert(all.subrange(0, i + 1).last() == all[i as int]);
            }
            b.map.insert(name, handler);
            i += 1;
        }
        assert(all.subrange(0, all.len() as int) == all);
        proof {
            lemma_registered_distinct(start, all);
            assert forall|i: int, j: int| 0 <= i < j < all.len() implies (#[trigger] all[i]).0@ != (#[trigger] all[j]).0@ by {
                assert(other.map.entries@[i].0@ != other.map.entries@[j].0@);
            }
            assert(b.map@ =~= start.union_prefer_right(other.map@)) by {
                assert forall|k: Seq<char>| #[trigger] other.map@.contains_key(k) <==> exists|i: int| 0 <= i < all.len() && (#[trigger] all[i]).0@ == k by {}
            }
        }
        b
    }

    /// Finalize and produce an `ActivityRegistry`.
    pub fn build(self) -> (r: ActivityRegistry<H>)
        ensures
            r.map == self.map,
    {
        ActivityRegistry { map: self.map }
    }
}

/// `m` with each named value of `items` stored in turn.
pub open spec fn registered_all<H>(m: Map<Seq<char>, H>, items: Seq<(String, H)>) -> Map<Seq<char>, H>
    decreases items.len(),
{
    if items.len() == 0 {
        m
    } else {
        registered_all(m, items.drop_last()).insert(items.last().0@, items.last().1)
    }
}

/// Storing items with distinct names, in any order, gives `m` overridden by them.
proof fn lemma_registered_distinct<H>(m: Map<Seq<char>, H>, items: Seq<(String, H)>)
    requires
        forall|i: int, j: int| 0 <= i < j < items.len() ==> (#[trigger] items[i]).0@ != (#[trigger] items[j]).0@,
    ensures
        forall|k: Seq<char>|
            #[trigger] registered_all(m, items).contains_key(k) <==> (m.contains_key(k) || exists|i: int|
                0 <= i < items.len() && (#[trigger] items[i]).0@ == k),
        forall|i: int| 0 <= i < items.len() ==> registered_all(m, items)[(#[trigger] items[i]).0@] == items[i].1,
        forall|k: Seq<char>|
            m.contains_key(k) && !(exists|i: int| 0 <= i < items.len() && (#[trigger] items[i]).0@ == k) ==> #[trigger] registered_all(m, items)[k] == m[k],
    decreases items.len(),
{
    if items.len() > 0 {
        let pre = items.drop_last();
        assert forall|i: int, j: int| 0 <= i < j < pre.len() implies (#[trigger] pre[i]).0@ != (#[trigger] pre[j]).0@ by {
            assert(pre[i] == items[i] && pre[j] == items[j]);
        }
        lemma_registered_distinct(m, pre);
        let last = items.last();
        assert(registered_all(m, items) == registered_all(m, pre).insert(last.0@, last.1));
        assert(items[items.len() - 1] == last);
        assert forall|k: Seq<char>|
            #[trigger] registered_all(m, items).contains_key(k) <==> (m.contains_key(k) || exists|i: int|
                0 <= i < items.len() && (#[trigger] items[i]).0@ == k) by {
            assert(registered_all(m, pre).contains_key(k) <==> (m.contains_key(k) || exists|i: int|
                0 <= i < pre.len() && (#[trigger] pre[i]).0@ == k));
            if exists|i: int| 0 <= i < items.len() && (#[trigger] items[i]).0@ == k {
                let i = choose|i: int| 0 <= i < items.len() && (#[trigger] items[i]).0@ == k;
                if i < pre.len() {
                    assert(pre[i] == items[i]);
                }
            }
            if exists|i: int| 0 <= i < pre.len() && (#[trigger] pre[i]).0@ == k {
                let i = choose|i: int| 0 <= i < pre.len() && (#[trigger] pre[i]).0@ == k;
                assert(items[i] == pre[i]);
            }
        }
        assert forall|i: int| 0 <= i < items.len() implies registered_all(m, items)[(#[trigger] items[i]).0@] == items[i].1 by {
            if i < pre.len() {
                assert(pre[i] == items[i]);
                assert(items[i].0@ != last.0@);
            }
        }
        assert forall|k: Seq<char>|
            m.contains_key(k) && !(exists|i: int| 0 <= i < items.len() && (#[trigger] items[i]).0@ == k) implies #[trigger] registered_all(m, items)[k] == m[k] by {
            assert(k != last.0@);
            if exists|i: int| 0 <= i < pre.len() && (#[trigger] pre[i]).0@ == k {
                let i = choose|i: int| 0 <= i < pre.len() && (#[trigger] pre[i]).0@ == k;
                assert(items[i] == pre[i]);
            }
            assert(items[items.len() - 1] == last);
        }
    }
}


/// How the version of an orchestration is chosen for a new instance.
#[derive(Debug)]
pub enum VersionPolicy {
    /// The highest registered version.
    Latest,
    /// This version only.
    Exact(SemanticVersion),
}

/// A policy as values.
pub enum PolicyView {
    Latest,
    Exact(VersionView),
}

pub open spec fn policy_view(p: VersionPolicy) -> PolicyView {
    match p {
        VersionPolicy::Latest => PolicyView::Latest,
        VersionPolicy::Exact(v) => PolicyView::Exact(v@),
    }
}

impl Clone for VersionPolicy {
    fn clone(&self) -> (r: Self)
        ensures
            policy_view(r) == policy_view(*self),
    {
        match self {
            VersionPolicy::Latest => VersionPolicy::Latest,
            VersionPolicy::Exact(v) => VersionPolicy::Exact(v.clone()),
        }
    }
}

/// The versions a name has: its table, or none.
pub open spec fn table_of<H>(m: Map<Seq<char>, VersionTable<H>>, name: Seq<char>) -> Seq<(VersionView, H)> {
    if m.contains_key(name) {
        m[name]@
    } else {
        Seq::empty()
    }
}

/// Every table of the map is ascending.
pub open spec fn tables_ascending<H>(m: Map<Seq<char>, VersionTable<H>>) -> bool {
    forall|k: Seq<char>| #[trigger] m.contains_key(k) ==> ascending(m[k]@)
}

/// The policy of a name: the one set for it, else `Latest`.
pub open spec fn policy_of(p: Map<Seq<char>, VersionPolicy>, name: Seq<char>) -> PolicyView {
    if p.contains_key(name) {
        policy_view(p[name])
    } else {
        PolicyView::Latest
    }
}

/// The handler of version `v` in a table that has it.
pub open spec fn handler_of<H>(t: Seq<(VersionView, H)>, v: VersionView) -> H {
    t[choose|i: int| 0 <= i < t.len() && #[trigger] t[i].0 == v].1
}

/// The version and handler a policy picks from a table: the last (highest)
/// for `Latest`, the named version for `Exact`; `None` where there is none.
pub open spec fn pick<H>(t: Seq<(VersionView, H)>, pv: PolicyView) -> Option<(VersionView, H)> {
    match pv {
        PolicyView::Latest => if t.len() > 0 {
            Some(t.last())
        } else {
            None
        },
        PolicyView::Exact(v) => if has_version(t, v) {
            Some((v, handler_of(t, v)))
        } else {
            None
        },
    }
}

/// The message of a registration refused because the version is held:
/// `context` then `name@version`.
pub open spec fn duplicate_message(context: Seq<char>, name: Seq<char>, v: VersionView) -> Seq<char> {
    context + name + seq!['@'] + version_text(v)
}

pub open spec fn registration_context() -> Seq<char> {
    "duplicate orchestration registration: "@
}

pub open spec fn merge_context() -> Seq<char> {
    "duplicate orchestration in merge: "@
}

/// Registry of orchestrations: for each name its handlers by version, and
/// the version policy of each name.
pub struct OrchestrationRegistry<H> {
    pub inner: NamedMap<VersionTable<H>>,
    pub policy: NamedMap<VersionPolicy>,
}

/// Builder for `OrchestrationRegistry`; refused registrations are kept as
/// error messages.
pub struct OrchestrationRegistryBuilder<H> {
    pub map: NamedMap<VersionTable<H>>,
    pub policy: NamedMap<VersionPolicy>,
    pub errors: Vec<String>,
}

impl<H> OrchestrationRegistry<H> {
    /// The maps are well formed and every table ascending.
    pub open spec fn wf(&self) -> bool {
        self.inner.wf() && self.policy.wf() && tables_ascending(self.inner@)
    }

    /// A builder with no orchestrations, policies or errors.
    pub fn builder() -> (r: OrchestrationRegistryBuilder<H>)
        ensures
            r.wf(),
            r.map@ == Map::<Seq<char>, VersionTable<H>>::empty(),
            r.policy@ == Map::<Seq<char>, VersionPolicy>::empty(),
            r.errors@ == Seq::<String>::empty(),
    {
        OrchestrationRegistryBuilder { map: NamedMap::new(), policy: NamedMap::new(), errors: Vec::new() }
    }

    /// The version and handler a new instance of `name` gets under the
    /// name's policy.
    pub fn resolve_handler(&self, name: &str) -> (r: Option<(SemanticVersion, &H)>)
        requires
            self.wf(),
        ensures
            match r {
                Some(e) => pick(table_of(self.inner@, name@), policy_of(self.policy@, name@)) == Some(
                    (e.0@, *e.1),
                ),
                None => pick(table_of(self.inner@, name@), policy_of(self.policy@, name@)) is None,
            },
    {
        let table = match self.inner.get(name) {
            Some(t) => t,
            None => {
                return None;
            },
        };
        match self.policy.get(name) {
            Some(VersionPolicy::Exact(v)) => match table.get(v) {
                Some(h) => {
                    proof {
                        let t = table@;
                        let i = choose|i: int| 0 <= i < t.len() && #[trigger] t[i].0 == v@ && t[i].1 == *h;
                        let j = choose|j: int| 0 <= j < t.len() && #[trigger] t[j].0 == v@;
                        assert(ascending(t));
                        assert(i == j);
                    }
                    Some((v.clone(), h))
                },
                None => None,
            },
            _ => match table.latest() {
                Some(e) => Some(e),
                None => None,
            },
        }
    }

    /// The version a new instance of `name` gets under the name's policy.
    pub fn resolve_version(&self, name: &str) -> (r: Option<SemanticVersion>)
        requires
            self.wf(),
        ensures
            match r {
                Some(v) => match pick(table_of(self.inner@, name@), policy_of(self.policy@, name@)) {
                    Some(e) => v@ == e.0,
                    None => false,
                },
                None => pick(table_of(self.inner@, name@), policy_of(self.policy@, name@)) is None,
            },
    {
        match self.resolve_handler(name) {
            Some(e) => Some(e.0),
            None => None,
        }
    }

    /// The handler of version `v` of `name`.
    pub fn resolve_handler_exact(&self, name: &str, v: &SemanticVersion) -> (r: Option<&H>)
        requires
            self.wf(),
        ensures
            match r {
                Some(h) => has_version(table_of(self.inner@, name@), v@) && *h == handler_of(
                    table_of(self.inner@, name@),
                    v@,
                ),
                None => !has_version(table_of(self.inner@, name@), v@),
            },
    {
        match self.inner.get(name) {
            Some(t) => match t.get(v) {
                Some(h) => {
                    proof {
                        let s = t@;
                        let i = choose|i: int| 0 <= i < s.len() && #[trigger] s[i].0 == v@ && s[i].1 == *h;
                        let j = choose|j: int| 0 <= j < s.len() && #[trigger] s[j].0 == v@;
                        assert(ascending(s));
                        assert(i == j);
                    }
                    Some(h)
                },
                None => None,
            },
            None => None,
        }
    }

    /// Sets the version policy of `name`.
    pub fn set_version_policy(&mut self, name: String, policy: VersionPolicy)
        requires
            old(self).wf(),
        ensures
            final(self).wf(),
            final(self).inner == old(self).inner,
            final(self).policy@ == old(self).policy@.insert(name@, policy),
    {
        self.policy.insert(name, policy);
    }

    /// Goes back to the highest version for `name`.
    pub fn unpin(&mut self, name: String)
        requires
            old(self).wf(),
        ensures
            final(self).wf(),
            final(self).inner == old(self).inner,
            final(self).policy@ == old(self).policy@.insert(name@, VersionPolicy::Latest),
    {
        self.set_version_policy(name, VersionPolicy::Latest);
    }

    /// The names that have orchestrations.
    pub fn list_orchestration_names(&self) -> (r: Vec<String>)
        requires
            self.wf(),
        ensures
            forall|k: Seq<char>| self.inner@.contains_key(k) <==> r@.map_values(|s: String| s@).contains(k),
            r@.map_values(|s: String| s@).no_duplicates(),
            r@.len() == self.inner@.dom().len(),
    {
        let r = self.inner.name_list();
        r
    }

    /// The versions of `name`, ascending; none where it is not registered.
    pub fn list_orchestration_versions(&self, name: &str) -> (r: Vec<SemanticVersion>)
        requires
            self.wf(),
        ensures
            r@.len() == table_of(self.inner@, name@).len(),
            forall|i: int| 0 <= i < r@.len() ==> (#[trigger] r@[i])@ == table_of(self.inner@, name@)[i].0,
    {
        match self.inner.get(name) {
            Some(t) => t.versions(),
            None => Vec::new(),
        }
    }
}

impl<H: Clone> OrchestrationRegistry<H> {
    /// A builder holding the orchestrations of `reg` (handlers cloned), with
    /// no policies and no errors.
    pub fn builder_from(reg: &OrchestrationRegistry<H>) -> (r: OrchestrationRegistryBuilder<H>)
        requires
            reg.wf(),
        ensures
            r.map.wf(),
            r.policy.wf(),
            r.map@.dom() == reg.inner@.dom(),
            forall|k: Seq<char>| #[trigger] r.map@.contains_key(k) ==> vstd::pervasive::cloned(reg.inner@[k], r.map@[k]),
            r.policy@ == Map::<Seq<char>, VersionPolicy>::empty(),
            r.errors@ == Seq::<String>::empty(),
    {
        OrchestrationRegistryBuilder { map: reg.inner.duplicate(), policy: NamedMap::new(), errors: Vec::new() }
    }
}

/// Writes the message of a refused registration.
fn duplicate_message_text(context: &str, name: &str, v: &SemanticVersion) -> (r: String)
    ensures
        r@ == context@ + name@ + seq!['@'] + version_text(v@),
{
    proof {
        reveal_strlit("@");
    }
    let mut s = String::from_str(context);
    s.append(name);
    s.append("@");
    let t = v.to_text();
    s.append(t.as_str());
    s
}

/// The texts joined with `sep` between them.
pub open spec fn joined(parts: Seq<Seq<char>>, sep: Seq<char>) -> Seq<char>
    decreases parts.len(),
{
    if parts.len() == 0 {
        Seq::empty()
    } else if parts.len() == 1 {
        parts[0]
    } else {
        joined(parts.drop_last(), sep) + sep + parts.last()
    }
}

impl<H> OrchestrationRegistryBuilder<H> {
    /// The maps are well formed and every table ascending.
    pub open spec fn wf(&self) -> bool {
        self.map.wf() && self.policy.wf() && tables_ascending(self.map@)
    }

    /// Adds version `v` of `name` with `h`. A version the name has already is
    /// refused: nothing is added and `context` with `name@version` is
    /// recorded as an error. Gives whether it was added.
    fn add_checked(&mut self, name: String, v: SemanticVersion, h: H, context: &str) -> (added: bool)
        requires
            old(self).wf(),
        ensures
            final(self).wf(),
            final(self).policy == old(self).policy,
            added == !has_version(table_of(old(self).map@, name@), v@),
            !added ==> final(self).map@ == old(self).map@ && final(self).errors@.map_values(|e: String| e@)
                == old(self).errors@.map_values(|e: String| e@).push(duplicate_message(context@, name@, v@)),
            added ==> final(self).errors@ == old(self).errors@ && final(self).map@.dom() == old(self).map@.dom().insert(
                name@,
            ) && (forall|k: Seq<char>| k != name@ && old(self).map@.contains_key(k) ==> final(self).map@[k] == old(
                self,
            ).map@[k]) && exists|p: int|
                0 <= p <= table_of(old(self).map@, name@).len() && final(self).map@[name@]@ == table_of(
                    old(self).map@,
                    name@,
                ).insert(p, (v@, h)),
    {
        let ghost m0 = self.map@;
        let ghost key = name@;
        let taken = self.map.take(name.as_str());
        let mut table = match taken {
            Some(t) => t,
            None => VersionTable::new(),
        };
        proof {
            assert(table@ == table_of(m0, key));
            if m0.contains_key(key) {
                assert(ascending(m0[key]@));
            }
        }
        if table.contains(&v) {
            let msg = duplicate_message_text(context, name.as_str(), &v);
            self.map.insert(name, table);
            proof {
                assert(self.map@ =~= m0);
            }
            let ghost e0 = self.errors@;
            self.errors.push(msg);
            assert(self.errors@.map_values(|e: String| e@) =~= e0.map_values(|e: String| e@).push(
                duplicate_message(context@, key, v@),
            ));
            false
        } else {
            table.insert(v, h);
            self.map.insert(name, table);
            proof {
                assert(self.map@.dom() =~= m0.dom().insert(key));
                assert forall|k: Seq<char>| #[trigger] self.map@.contains_key(k) implies ascending(self.map@[k]@) by {
                    if k != key {
                        assert(m0.contains_key(k));
                    }
                }
            }
            true
        }
    }

    /// Registers `handler` as version 1.0.0 of `name`; where `name` has
    /// that version already, records the error
    /// `duplicate orchestration registration: name@1.0.0` instead.
    pub fn register(self, name: String, handler: H) -> (r: Self)
        requires
            self.wf(),
        ensures
            r.wf(),
            r.policy == self.policy,
            has_version(table_of(self.map@, name@), (1u64, 0u64, 0u64, Seq::empty(), Seq::empty())) ==> r.map@
                == self.map@ && r.errors@.map_values(|e: String| e@) == self.errors@.map_values(|e: String| e@).push(
                duplicate_message(registration_context(), name@, (1u64, 0u64, 0u64, Seq::empty(), Seq::empty())),
            ),
            !has_version(table_of(self.map@, name@), (1u64, 0u64, 0u64, Seq::empty(), Seq::empty())) ==> r.errors@
                == self.errors@ && r.map@.dom() == self.map@.dom().insert(name@) && (forall|k: Seq<char>|
                k != name@ && self.map@.contains_key(k) ==> r.map@[k] == self.map@[k]) && exists|p: int|
                0 <= p <= table_of(self.map@, name@).len() && r.map@[name@]@ == table_of(self.map@, name@).insert(
                    p,
                    ((1u64, 0u64, 0u64, Seq::empty(), Seq::empty()), handler),
                ),
    {
        let mut b = self;
        let v = SemanticVersion::new(1, 0, 0);
        proof {
            reveal_strlit("duplicate orchestration registration: ");
        }
        b.add_checked(name, v, handler, "duplicate orchestration registration: ");
        b
    }
}


/// Version 1.0.0, which unversioned registrations use.
pub open spec fn first_version() -> VersionView {
    (1u64, 0u64, 0u64, Seq::empty(), Seq::empty())
}

/// The version a text names, where it names one.
pub open spec fn parsed(text: Seq<char>) -> VersionView {
    semver_parse(text)->0
}

/// A versioned registration is accepted where the version is held already
/// (it is then refused as a duplicate) or is later than every version held:
/// the table is empty or its last version comes before it.
pub open spec fn later_or_held<H>(t: Seq<(VersionView, H)>, v: VersionView) -> bool {
    has_version(t, v) || t.len() == 0 || semver_order(t.last().0, v) == VersionOrder::Less
}

/// What a checked registration of `(v, h)` under `name` does to a builder.
pub open spec fn added_checked<H>(
    m0: Map<Seq<char>, VersionTable<H>>,
    e0: Seq<Seq<char>>,
    name: Seq<char>,
    v: VersionView,
    h: H,
    context: Seq<char>,
    m: Map<Seq<char>, VersionTable<H>>,
    e: Seq<Seq<char>>,
) -> bool {
    if has_version(table_of(m0, name), v) {
        m == m0 && e == e0.push(duplicate_message(context, name, v))
    } else {
        &&& e == e0
        &&& m.dom() == m0.dom().insert(name)
        &&& forall|k: Seq<char>| k != name && m0.contains_key(k) ==> m[k] == m0[k]
        &&& exists|p: int| 0 <= p <= table_of(m0, name).len() && m[name]@ == table_of(m0, name).insert(p, (v, h))
    }
}

pub open spec fn texts(e: Seq<String>) -> Seq<Seq<char>> {
    e.map_values(|s: String| s@)
}

impl<H> OrchestrationRegistryBuilder<H> {
    /// Registers `handler` as version 1.0.0 of `name`, replacing a handler
    /// registered there before.
    pub fn register_typed(self, name: String, handler: H) -> (r: Self)
        requires
            self.wf(),
        ensures
            r.wf(),
            r.policy == self.policy,
            r.errors@ == self.errors@,
            r.map@.dom() == self.map@.dom().insert(name@),
            forall|k: Seq<char>| k != name@ && self.map@.contains_key(k) ==> r.map@[k] == self.map@[k],
            has_version(table_of(self.map@, name@), first_version()) ==> exists|i: int|
                0 <= i < table_of(self.map@, name@).len() && table_of(self.map@, name@)[i].0 == first_version()
                    && r.map@[name@]@ == table_of(self.map@, name@).update(i, (first_version(), handler)),
            !has_version(table_of(self.map@, name@), first_version()) ==> exists|p: int|
                0 <= p <= table_of(self.map@, name@).len() && r.map@[name@]@ == table_of(self.map@, name@).insert(
                    p,
                    (first_version(), handler),
                ),
    {
        let mut b = self;
        let ghost m0 = b.map@;
        let ghost key = name@;
        let v = SemanticVersion::new(1, 0, 0);
        let taken = b.map.take(name.as_str());
        let mut table = match taken {
            Some(t) => t,
            None => VersionTable::new(),
        };
        proof {
            assert(table@ == table_of(m0, key));
            if m0.contains_key(key) {
                assert(ascending(m0[key]@));
            }
        }
        if table.contains(&v) {
            table.set_handler(&v, handler);
        } else {
            table.insert(v, handler);
        }
        b.map.insert(name, table);
        proof {
            assert(b.map@.dom() =~= m0.dom().insert(key));
            assert forall|k: Seq<char>| #[trigger] b.map@.contains_key(k) implies ascending(b.map@[k]@) by {
                if k != key {
                    assert(m0.contains_key(k));
                }
            }
        }
        b
    }

    /// Registers `handler` as version `version` of `name`. A version that
    /// `name` has already is refused with the error
    /// `duplicate orchestration registration: name@version`. The version
    /// must be a semantic version later than every version of `name`
    /// registered before.
    pub fn register_versioned(self, name: String, version: &str, handler: H) -> (r: Self)
        requires
            self.wf(),
            semver_parse(version@) is Some,
            later_or_held(table_of(self.map@, name@), parsed(version@)),
        ensures
            r.wf(),
            r.policy == self.policy,
            added_checked(
                self.map@,
                texts(self.errors@),
                name@,
                parsed(version@),
                handler,
                registration_context(),
                r.map@,
                texts(r.errors@),
            ),
    {
        let mut b = self;
        match SemanticVersion::parse(version) {
            Some(v) => {
                proof {
                    reveal_strlit("duplicate orchestration registration: ");
                }
                b.add_checked(name, v, handler, "duplicate orchestration registration: ");
                b
            },
            None => b,
        }
    }

    /// `register_versioned` where it may be called: the version text is a
    /// semantic version, later than every version of `name` or held
    /// already. Otherwise the builder comes back unchanged with `false`.
    pub fn try_register_versioned(self, name: String, version: &str, handler: H) -> (r: (Self, bool))
        requires
            self.wf(),
        ensures
            r.0.wf(),
            r.1 == (semver_parse(version@) is Some && later_or_held(table_of(self.map@, name@), parsed(version@))),
            r.1 ==> r.0.policy == self.policy && added_checked(
                self.map@,
                texts(self.errors@),
                name@,
                parsed(version@),
                handler,
                registration_context(),
                r.0.map@,
                texts(r.0.errors@),
            ),
            !r.1 ==> r.0.map@ == self.map@ && r.0.policy == self.policy && r.0.errors@ == self.errors@,
    {
        let v = match SemanticVersion::parse(version) {
            Some(v) => v,
            None => {
                return (self, false);
            },
        };
        let ok = match self.map.get(name.as_str()) {
            Some(t) => {
                proof {
                    assert(ascending(t@));
                }
                if t.contains(&v) {
                    true
                } else {
                    match t.latest() {
                        Some(e) => e.0.compare(&v) == VersionOrder::Less,
                        None => true,
                    }
                }
            },
            None => true,
        };
        if ok {
            (self.register_versioned(name, version, handler), true)
        } else {
            (self, false)
        }
    }

    /// Sets the version policy of `name`.
    pub fn set_policy(self, name: String, policy: VersionPolicy) -> (r: Self)
        requires
            self.wf(),
        ensures
            r.wf(),
            r.map == self.map,
            r.errors == self.errors,
            r.policy@ == self.policy@.insert(name@, policy),
    {
        let mut b = self;
        b.policy.insert(name, policy);
        b
    }

    /// The registry, whatever errors were recorded.
    pub fn build(self) -> (r: OrchestrationRegistry<H>)
        ensures
            r.inner == self.map,
            r.policy == self.policy,
    {
        OrchestrationRegistry { inner: self.map, policy: self.policy }
    }

    /// The registry where no error was recorded; else the errors joined
    /// with `"; "`.
    pub fn build_result(self) -> (r: Result<OrchestrationRegistry<H>, String>)
        ensures
            self.errors@.len() == 0 ==> (r matches Ok(reg) && reg.inner == self.map && reg.policy == self.policy),
            self.errors@.len() > 0 ==> (r matches Err(msg) && msg@ == joined(texts(self.errors@), "; "@)),
    {
        if self.errors.len() == 0 {
            Ok(OrchestrationRegistry { inner: self.map, policy: self.policy })
        } else {
            proof {
                reveal_strlit("; ");
            }
            let ghost es = texts(self.errors@);
            let mut msg = self.errors[0].clone();
            let mut i: usize = 1;
            proof {
                assert(es.subrange(0, 1).drop_last() =~= Seq::<Seq<char>>::empty());
                assert(joined(es.subrange(0, 1), "; "@) == es[0]);
            }
            while i < self.errors.len()
                invariant
                    1 <= i <= self.errors@.len(),
                    es == texts(self.errors@),
                    msg@ == joined(es.subrange(0, i as int), "; "@),
                decreases self.errors.len() - i,
            {
                msg.append("; ");
                msg.append(self.errors[i].as_str());
                proof {
                    assert(es.subrange(0, i + 1).drop_last() =~= es.subrange(0, i as int));
                    assert(es.subrange(0, i + 1).last() == es[i as int]);
                }
                i = i + 1;
            }
            assert(es.subrange(0, es.len() as int) =~= es);
            Err(msg)
        }
    }
}


/// Whether `name` has version `v` in the map.
pub open spec fn holds<H>(m: Map<Seq<char>, VersionTable<H>>, name: Seq<char>, v: VersionView) -> bool {
    has_version(table_of(m, name), v)
}

/// The names that have version 1.0.0.
pub open spec fn holders_of_first<H>(m: Map<Seq<char>, VersionTable<H>>) -> Set<Seq<char>> {
    Set::new(|k: Seq<char>| holds(m, k, first_version()))
}

/// The errors a run of unversioned registrations records, given the names
/// that hold version 1.0.0 before it: one for each item whose name holds
/// it already, from before or from an earlier item.
pub open spec fn register_all_errors<H>(held: Set<Seq<char>>, items: Seq<(String, H)>) -> Seq<Seq<char>>
    decreases items.len(),
{
    if items.len() == 0 {
        Seq::empty()
    } else {
        let k = items[0].0@;
        let rest = register_all_errors(held.insert(k), items.drop_first());
        if held.contains(k) {
            seq![duplicate_message(registration_context(), k, first_version())] + rest
        } else {
            rest
        }
    }
}

/// The first item registered under `name`.
pub open spec fn first_index<H>(items: Seq<(String, H)>, name: Seq<char>) -> int {
    choose|i: int| 0 <= i < items.len() && items[i].0@ == name && forall|j: int| 0 <= j < i ==> items[j].0@ != name
}

pub open spec fn names_in<H>(items: Seq<(String, H)>, name: Seq<char>, upto: int) -> bool {
    exists|j: int| 0 <= j < upto && #[trigger] items[j].0@ == name
}

/// Putting a new version into an ascending table keeps the versions it had,
/// with their handlers, and adds the new one.
pub proof fn lemma_handler_after_insert<H>(t: Seq<(VersionView, H)>, p: int, v: VersionView, h: H)
    requires
        ascending(t),
        !has_version(t, v),
        0 <= p <= t.len(),
        ascending(t.insert(p, (v, h))),
    ensures
        forall|w: VersionView| #[trigger] has_version(t.insert(p, (v, h)), w) <==> (has_version(t, w) || w == v),
        forall|w: VersionView| has_version(t, w) ==> #[trigger] handler_of(t.insert(p, (v, h)), w) == handler_of(t, w),
        handler_of(t.insert(p, (v, h)), v) == h,
{
    let n = t.insert(p, (v, h));
    assert forall|w: VersionView| #[trigger] has_version(n, w) <==> (has_version(t, w) || w == v) by {
        if has_version(t, w) {
            let i = choose|i: int| 0 <= i < t.len() && #[trigger] t[i].0 == w;
            let i2 = if i < p { i } else { i + 1 };
            assert(n[i2].0 == w);
        }
        if w == v {
            assert(n[p].0 == v);
        }
        if has_version(n, w) && w != v {
            let i = choose|i: int| 0 <= i < n.len() && #[trigger] n[i].0 == w;
            let i2 = if i < p { i } else { i - 1 };
            assert(t[i2].0 == w);
        }
    }
    assert forall|w: VersionView| has_version(t, w) implies #[trigger] handler_of(n, w) == handler_of(t, w) by {
        let i = choose|i: int| 0 <= i < t.len() && #[trigger] t[i].0 == w;
        let i2 = if i < p { i } else { i + 1 };
        assert(n[i2].0 == w);
        let a = choose|a: int| 0 <= a < n.len() && #[trigger] n[a].0 == w;
        assert(a == i2);
    }
    assert(n[p].0 == v);
    let a = choose|a: int| 0 <= a < n.len() && #[trigger] n[a].0 == v;
    assert(a == p);
}

impl<H> OrchestrationRegistryBuilder<H> {
    /// Registers each item as version 1.0.0 of its name, in order.
    pub fn register_all(self, items: Vec<(String, H)>) -> (r: Self)
        requires
            self.wf(),
        ensures
            r.wf(),
            r.policy == self.policy,
            texts(r.errors@) == texts(self.errors@) + register_all_errors(holders_of_first(self.map@), items@),
            forall|k: Seq<char>, v: VersionView|
                #[trigger] holds(r.map@, k, v) <==> (holds(self.map@, k, v) || (v == first_version() && names_in(
                    items@,
                    k,
                    items@.len() as int,
                ))),
            forall|k: Seq<char>, v: VersionView|
                holds(self.map@, k, v) ==> #[trigger] handler_of(table_of(r.map@, k), v) == handler_of(
                    table_of(self.map@, k),
                    v,
                ),
            forall|k: Seq<char>|
                !holds(self.map@, k, first_version()) && names_in(items@, k, items@.len() as int) ==> #[trigger] handler_of(
                    table_of(r.map@, k),
                    first_version(),
                ) == items@[first_index(items@, k)].1,
    {
        let mut b = self;
        let ghost m0 = b.map@;
        let ghost e0 = texts(b.errors@);
        let mut rest = items;
        let ghost all = rest@;
        let mut i: usize = 0;
        let n = rest.len();
        while rest.len() > 0
            invariant
                n == all.len(),
                i + rest@.len() == all.len(),
                rest@ == all.skip(i as int),
                b.wf(),
                b.policy == self.policy,
                texts(b.errors@) + register_all_errors(holders_of_first(b.map@), all.skip(i as int)) == e0
                    + register_all_errors(holders_of_first(m0), all),
                forall|k: Seq<char>, v: VersionView|
                    #[trigger] holds(b.map@, k, v) <==> (holds(m0, k, v) || (v == first_version() && names_in(
                        all,
                        k,
                        i as int,
                    ))),
                forall|k: Seq<char>, v: VersionView|
                    holds(m0, k, v) ==> #[trigger] handler_of(table_of(b.map@, k), v) == handler_of(table_of(m0, k), v),
                forall|k: Seq<char>|
                    !holds(m0, k, first_version()) && names_in(all, k, i as int) ==> #[trigger] handler_of(
                        table_of(b.map@, k),
                        first_version(),
                    ) == all[first_index(all, k)].1,
            decreases rest@.len(),
        {
            let (name, handler) = rest.remove(0);
            let ghost mb = b.map@;
            let ghost eb = texts(b.errors@);
            let ghost k = name@;
            let ghost h = handler;
            proof {
                assert(all.skip(i as int)[0] == all[i as int]);
                assert(all.skip(i as int).drop_first() =~= all.skip(i + 1));
            }
            b = b.register(name, handler);
            proof {
                let v1 = first_version();
                assert(holders_of_first(b.map@) =~= holders_of_first(mb).insert(k)) by {
                    assert forall|x: Seq<char>| holders_of_first(b.map@).contains(x) <==> holders_of_first(mb).insert(
                        k,
                    ).contains(x) by {
                        if !holds(mb, k, v1) && x == k {
                            let p = choose|p: int| 0 <= p <= table_of(mb, k).len() && b.map@[k]@ == table_of(
                                mb,
                                k,
                            ).insert(p, (v1, h));
                            assert(b.map@[k]@[p].0 == v1);
                        }
                        if !holds(mb, k, v1) && x != k {
                            assert(table_of(b.map@, x) == table_of(mb, x));
                        }
                    }
                }
                assert(texts(b.errors@) + register_all_errors(holders_of_first(b.map@), all.skip(i + 1)) == e0
                    + register_all_errors(holders_of_first(m0), all)) by {
                    if holds(mb, k, v1) {
                        assert(texts(b.errors@) =~= eb.push(duplicate_message(registration_context(), k, v1)));
                        assert(holders_of_first(mb).contains(k));
                        assert(eb.push(duplicate_message(registration_context(), k, v1)) + register_all_errors(
                            holders_of_first(mb).insert(k),
                            all.skip(i + 1),
                        ) =~= eb + (seq![duplicate_message(registration_context(), k, v1)] + register_all_errors(
                            holders_of_first(mb).insert(k),
                            all.skip(i + 1),
                        )));
                    } else {
                        assert(!holders_of_first(mb).contains(k));
                    }
                }
                if !holds(mb, k, v1) {
                    let p = choose|p: int| 0 <= p <= table_of(mb, k).len() && b.map@[k]@ == table_of(mb, k).insert(
                        p,
                        (v1, h),
                    );
                    if mb.contains_key(k) {
                        assert(ascending(mb[k]@));
                    }
                    assert(b.map@.contains_key(k));
                    assert(ascending(b.map@[k]@));
                    lemma_handler_after_insert(table_of(mb, k), p, v1, h);
                    assert(table_of(b.map@, k) == table_of(mb, k).insert(p, (v1, h)));
                    assert(forall|w: VersionView| #[trigger] has_version(table_of(b.map@, k), w) <==> (has_version(
                        table_of(mb, k),
                        w,
                    ) || w == v1));
                    assert(forall|w: VersionView| has_version(table_of(mb, k), w) ==> #[trigger] handler_of(
                        table_of(b.map@, k),
                        w,
                    ) == handler_of(table_of(mb, k), w));
                    assert(handler_of(table_of(b.map@, k), v1) == h);
                }
                assert forall|x: Seq<char>, v: VersionView|
                    #[trigger] holds(b.map@, x, v) <==> (holds(m0, x, v) || (v == v1 && names_in(all, x, i + 1))) by {
                    assert(holds(mb, x, v) <==> (holds(m0, x, v) || (v == v1 && names_in(all, x, i as int))));
                    if x == k && !holds(mb, k, v1) {
                        assert(has_version(table_of(b.map@, k), v) <==> (has_version(table_of(mb, k), v) || v == v1));
                    }
                    if names_in(all, x, i + 1) && !names_in(all, x, i as int) {
                        assert(all[i as int].0@ == x);
                    }
                    if names_in(all, x, i as int) {
                        let j = choose|j: int| 0 <= j < i && #[trigger] all[j].0@ == x;
                        assert(names_in(all, x, i + 1));
                    }
                    if x == k {
                        assert(all[i as int].0@ == x);
                    }
                    if x != k && !holds(mb, k, v1) {
                        assert(table_of(b.map@, x) == table_of(mb, x));
                    }
                }
                assert forall|x: Seq<char>, v: VersionView| holds(m0, x, v) implies #[trigger] handler_of(
                    table_of(b.map@, x),
                    v,
                ) == handler_of(table_of(m0, x), v) by {
                    if x != k && !holds(mb, k, v1) {
                        assert(table_of(b.map@, x) == table_of(mb, x));
                    }
                    assert(holds(mb, x, v));
                }
                assert forall|x: Seq<char>|
                    !holds(m0, x, v1) && names_in(all, x, i + 1) implies #[trigger] handler_of(table_of(b.map@, x), v1)
                        == all[first_index(all, x)].1 by {
                    if x != k && !holds(mb, k, v1) {
                        assert(table_of(b.map@, x) == table_of(mb, x));
                    }
                    if !names_in(all, x, i as int) {
                        assert(all[i as int].0@ == x);
                        assert(x == k);
                        assert(!holds(mb, k, v1));
                        assert(all[i as int].0@ == x && forall|j: int| 0 <= j < i ==> all[j].0@ != x);
                        let f = first_index(all, x);
                        assert(f == i) by {
                            if f < i {
                                assert(all[f].0@ == x);
                                assert(names_in(all, x, i as int));
                            }
                            if f > i {
                            }
                        }
                    } else {
                        assert(holds(mb, x, v1));
                        if x == k {
                        }
                    }
                }
            }
            i += 1;
        }
        proof {
            assert(all.skip(i as int) =~= Seq::<(String, H)>::empty());
            assert(texts(b.errors@) + Seq::<Seq<char>>::empty() =~= texts(b.errors@));
        }
        b
    }
}


/// Whether version `v` of `name` is among the first `i` tables of `all`
/// and the first `j` versions of table `i`.
pub open spec fn merged_upto<H>(all: Seq<(String, VersionTable<H>)>, i: int, j: int, k: Seq<char>, v: VersionView) -> bool {
    ||| exists|a: int| 0 <= a < i && #[trigger] all[a].0@ == k && has_version(all[a].1@, v)
    ||| (0 <= i < all.len() && all[i].0@ == k && exists|c: int| 0 <= c < j && #[trigger] all[i].1@[c].0 == v)
}

pub open spec fn merge_message(p: (Seq<char>, VersionView)) -> Seq<char> {
    duplicate_message(merge_context(), p.0, p.1)
}

/// The merge invariant: `m`, `e` and the conflicts `c` are what merging the
/// versions of `all` up to table `i`, version `j`, into `m0`, `e0` gives.
pub open spec fn merge_state<H>(
    m0: Map<Seq<char>, VersionTable<H>>,
    e0: Seq<Seq<char>>,
    o: Map<Seq<char>, VersionTable<H>>,
    all: Seq<(String, VersionTable<H>)>,
    i: int,
    j: int,
    named_i: bool,
    m: Map<Seq<char>, VersionTable<H>>,
    e: Seq<Seq<char>>,
    c: Seq<(Seq<char>, VersionView)>,
) -> bool {
    &&& forall|k: Seq<char>|
        #[trigger] m.contains_key(k) <==> (m0.contains_key(k) || (exists|a: int| 0 <= a < i && #[trigger] all[a].0@ == k)
            || (named_i && all[i].0@ == k))
    &&& forall|k: Seq<char>, v: VersionView| #[trigger] holds(m, k, v) <==> (holds(m0, k, v) || merged_upto(all, i, j, k, v))
    &&& forall|k: Seq<char>, v: VersionView|
        holds(m0, k, v) ==> #[trigger] handler_of(table_of(m, k), v) == handler_of(table_of(m0, k), v)
    &&& forall|k: Seq<char>, v: VersionView|
        !holds(m0, k, v) && merged_upto(all, i, j, k, v) ==> #[trigger] handler_of(table_of(m, k), v) == handler_of(
            table_of(o, k),
            v,
        )
    &&& e == e0 + c.map_values(|p: (Seq<char>, VersionView)| merge_message(p))
    &&& c.no_duplicates()
    &&& forall|p: (Seq<char>, VersionView)| c.contains(p) <==> (holds(m0, p.0, p.1) && merged_upto(all, i, j, p.0, p.1))
}

impl<H> OrchestrationRegistryBuilder<H> {
    /// Merges the orchestrations of `other` into the builder. A version a
    /// name has already keeps its handler and records the error
    /// `duplicate orchestration in merge: name@version`; every other version
    /// is added. The errors come name by name, each name's versions
    /// ascending.
    pub fn merge(self, other: OrchestrationRegistry<H>) -> (r: Self)
        requires
            self.wf(),
            other.wf(),
        ensures
            r.wf(),
            r.policy == self.policy,
            forall|k: Seq<char>| #[trigger] r.map@.contains_key(k) <==> (self.map@.contains_key(k) || other.inner@.contains_key(k)),
            forall|k: Seq<char>, v: VersionView|
                #[trigger] holds(r.map@, k, v) <==> (holds(self.map@, k, v) || holds(other.inner@, k, v)),
            forall|k: Seq<char>, v: VersionView|
                holds(self.map@, k, v) ==> #[trigger] handler_of(table_of(r.map@, k), v) == handler_of(
                    table_of(self.map@, k),
                    v,
                ),
            forall|k: Seq<char>, v: VersionView|
                !holds(self.map@, k, v) && holds(other.inner@, k, v) ==> #[trigger] handler_of(table_of(r.map@, k), v)
                    == handler_of(table_of(other.inner@, k), v),
            exists|c: Seq<(Seq<char>, VersionView)>|
                {
                    &&& c.no_duplicates()
                    &&& forall|p: (Seq<char>, VersionView)|
                        c.contains(p) <==> (holds(self.map@, p.0, p.1) && holds(other.inner@, p.0, p.1))
                    &&& texts(r.errors@) == texts(self.errors@) + c.map_values(
                        |p: (Seq<char>, VersionView)| merge_message(p),
                    )
                },
    {
        let mut b = self;
        let ghost m0 = b.map@;
        let ghost e0 = texts(b.errors@);
        let ghost o = other.inner@;
        proof {
            assert forall|k: Seq<char>| #[trigger] o.contains_key(k) implies ascending(o[k]@) by {}
        }
        let OrchestrationRegistry { inner, policy: _ } = other;
        let NamedMap { entries: mut outer, model: _ } = inner;
        let ghost all = outer@;
        let ghost mut c: Seq<(Seq<char>, VersionView)> = Seq::empty();
        proof {
            assert(forall|a: int| 0 <= a < all.len() ==> o.contains_key(#[trigger] all[a].0@) && o[all[a].0@] == all[a].1);
            assert(c.map_values(|p: (Seq<char>, VersionView)| merge_message(p)) =~= Seq::<Seq<char>>::empty());
            assert(e0 + Seq::<Seq<char>>::empty() =~= e0);
            assert(texts(b.errors@) =~= e0);
        }
        let mut i: usize = 0;
        let n = outer.len();
        while outer.len() > 0
            invariant
                n == all.len(),
                i + outer@.len() == all.len(),
                outer@ == all.skip(i as int),
                forall|a: int, b2: int| 0 <= a < b2 < all.len() ==> (#[trigger] all[a]).0@ != (#[trigger] all[b2]).0@,
                forall|a: int| 0 <= a < all.len() ==> o.contains_key(#[trigger] all[a].0@) && o[all[a].0@] == all[a].1,
                forall|k: Seq<char>| #[trigger] o.contains_key(k) ==> exists|a: int| 0 <= a < all.len() && #[trigger] all[a].0@ == k,
                forall|k: Seq<char>| #[trigger] o.contains_key(k) ==> ascending(o[k]@),
                b.wf(),
                b.policy == self.policy,
                merge_state(m0, e0, o, all, i as int, 0, false, b.map@, texts(b.errors@), c),
            decreases outer@.len(),
        {
            let (name, table) = outer.remove(0);
            proof {
                assert(all.skip(i as int)[0] == all[i as int]);
                assert(all.skip(i as int).drop_first() =~= all.skip(i + 1));
                assert(o.contains_key(all[i as int].0@));
            }
            let ghost t = table@;
            let ghost k = name@;
            if !b.map.contains(name.as_str()) {
                let ghost mb = b.map@;
                b.map.insert(name.clone(), VersionTable::new());
                proof {
                    assert(b.map@[k]@ =~= Seq::<(VersionView, H)>::empty());
                    assert forall|x: Seq<char>| #[trigger] b.map@.contains_key(x) implies ascending(b.map@[x]@) by {
                        if x != k {
                            assert(mb.contains_key(x));
                        }
                    }
                    assert forall|x: Seq<char>, v: VersionView| #[trigger] holds(b.map@, x, v) == holds(mb, x, v) by {
                        if x == k {
                            assert(table_of(mb, x) =~= Seq::<(VersionView, H)>::empty());
                        }
                    }
                    assert forall|x: Seq<char>, v: VersionView| #[trigger] handler_of(table_of(b.map@, x), v) == handler_of(
                        table_of(mb, x),
                        v,
                    ) || x == k by {}
                }
            }
            let mut versions = table.into_entries();
            let ghost tv = versions@;
            let mut j: usize = 0;
            let tn = versions.len();
            proof {
                assert(tv.map_values(|e: (SemanticVersion, H)| (e.0@, e.1)) == t);
                assert(t == all[i as int].1@);
                assert(ascending(t));
            }
            while versions.len() > 0
                invariant
                    n == all.len(),
                    i < all.len(),
                    k == all[i as int].0@,
                    name@ == k,
                    t == all[i as int].1@,
                    ascending(t),
                    tn == t.len(),
                    j + versions@.len() == t.len(),
                    versions@.map_values(|e: (SemanticVersion, H)| (e.0@, e.1)) == t.skip(j as int),
                    forall|a: int, b2: int| 0 <= a < b2 < all.len() ==> (#[trigger] all[a]).0@ != (#[trigger] all[b2]).0@,
                    forall|a: int| 0 <= a < all.len() ==> o.contains_key(#[trigger] all[a].0@) && o[all[a].0@] == all[a].1,
                    b.wf(),
                    b.policy == self.policy,
                    b.map@.contains_key(k),
                    merge_state(m0, e0, o, all, i as int, j as int, true, b.map@, texts(b.errors@), c),
                decreases versions@.len(),
            {
                let (v, h) = versions.remove(0);
                let ghost vv = v@;
                let ghost mb = b.map@;
                let ghost eb = texts(b.errors@);
                proof {
                    assert(t.skip(j as int)[0] == t[j as int]);
                    assert(t.skip(j as int).drop_first() =~= t.skip(j + 1));
                    assert(vv == t[j as int].0 && h == t[j as int].1);
                    // (k, vv) is not merged yet
                    assert(!merged_upto(all, i as int, j as int, k, vv)) by {
                        if exists|a: int| 0 <= a < i && #[trigger] all[a].0@ == k && has_version(all[a].1@, vv) {
                            let a = choose|a: int| 0 <= a < i && #[trigger] all[a].0@ == k && has_version(all[a].1@, vv);
                            assert(all[a].0@ != all[i as int].0@);
                        }
                        if exists|x: int| 0 <= x < j && #[trigger] all[i as int].1@[x].0 == vv {
                            let x = choose|x: int| 0 <= x < j && #[trigger] all[i as int].1@[x].0 == vv;
                            assert(t[x].0 != t[j as int].0);
                        }
                    }
                    assert(holds(mb, k, vv) <==> holds(m0, k, vv));
                    // the handler other has for (k, vv) is h
                    assert(table_of(o, k) == t);
                    assert(has_version(t, vv)) by {
                        assert(t[j as int].0 == vv);
                    }
                    let x = choose|x: int| 0 <= x < t.len() && #[trigger] t[x].0 == vv;
                    assert(x == j);
                    assert(handler_of(table_of(o, k), vv) == h);
                }
                b.add_checked(name.clone(), v, h, "duplicate orchestration in merge: ");
                proof {
                    reveal_strlit("duplicate orchestration in merge: ");
                    let v1 = vv;
                    assert forall|x: Seq<char>, w: VersionView|
                        merged_upto(all, i as int, j + 1, x, w) <==> (merged_upto(all, i as int, j as int, x, w) || (x == k
                            && w == vv)) by {
                        if x == k && w == vv {
                            assert(all[i as int].1@[j as int].0 == vv);
                        }
                        if (0 <= i < all.len() && all[i as int].0@ == x && exists|y: int| 0 <= y < j + 1 && #[trigger] all[i as int].1@[y].0 == w) {
                            let y = choose|y: int| 0 <= y < j + 1 && #[trigger] all[i as int].1@[y].0 == w;
                            if y < j {
                                assert(merged_upto(all, i as int, j as int, x, w));
                            }
                        }
                    }
                    if holds(mb, k, vv) {
                        let c2 = c.push((k, vv));
                        assert(c2.map_values(|p: (Seq<char>, VersionView)| merge_message(p)) =~= c.map_values(
                            |p: (Seq<char>, VersionView)| merge_message(p),
                        ).push(merge_message((k, vv))));
                        assert(texts(b.errors@) =~= eb.push(duplicate_message(merge_context(), k, vv)));
                        assert(texts(b.errors@) =~= e0 + c2.map_values(|p: (Seq<char>, VersionView)| merge_message(p)));
                        assert(!c.contains((k, vv)));
                        assert(c2.no_duplicates()) by {
                            assert forall|a: int, b2: int| 0 <= a < c2.len() && 0 <= b2 < c2.len() && a != b2 implies c2[a] != c2[b2] by {
                                if a == c.len() {
                                    assert(c[b2] != (k, vv)) by {
                                        assert(c.contains(c[b2]));
                                    }
                                } else if b2 == c.len() {
                                    assert(c[a] != (k, vv)) by {
                                        assert(c.contains(c[a]));
                                    }
                                }
                            }
                        }
                        assert forall|p: (Seq<char>, VersionView)| c2.contains(p) <==> (holds(m0, p.0, p.1) && merged_upto(
                            all,
                            i as int,
                            j + 1,
                            p.0,
                            p.1,
                        )) by {
                            if c2.contains(p) && p != (k, vv) {
                                let a = choose|a: int| 0 <= a < c2.len() && c2[a] == p;
                                assert(c.contains(p)) by {
                                    assert(a < c.len());
                                    assert(c[a] == p);
                                }
                            }
                            if p == (k, vv) {
                                assert(c2[c.len() as int] == p);
                            }
                            if holds(m0, p.0, p.1) && merged_upto(all, i as int, j as int, p.0, p.1) {
                                assert(c.contains(p));
                                let a = choose|a: int| 0 <= a < c.len() && c[a] == p;
                                assert(c2[a] == p);
                            }
                        }
                        c = c2;
                        assert forall|x: Seq<char>, w: VersionView| #[trigger] holds(b.map@, x, w) <==> (holds(m0, x, w)
                            || merged_upto(all, i as int, j + 1, x, w)) by {
                            assert(holds(mb, x, w) <==> (holds(m0, x, w) || merged_upto(all, i as int, j as int, x, w)));
                        }
                        assert forall|x: Seq<char>, w: VersionView|
                            !holds(m0, x, w) && merged_upto(all, i as int, j + 1, x, w) implies #[trigger] handler_of(
                            table_of(b.map@, x),
                            w,
                        ) == handler_of(table_of(o, x), w) by {
                            assert(holds(mb, x, w) <==> (holds(m0, x, w) || merged_upto(all, i as int, j as int, x, w)));
                        }
                        assert forall|x: Seq<char>, w: VersionView| holds(m0, x, w) implies #[trigger] handler_of(
                            table_of(b.map@, x),
                            w,
                        ) == handler_of(table_of(m0, x), w) by {}
                    } else {
                        let p = choose|p: int| 0 <= p <= table_of(mb, k).len() && b.map@[k]@ == table_of(mb, k).insert(
                            p,
                            (vv, h),
                        );
                        assert(mb.contains_key(k));
                        assert(ascending(mb[k]@));
                        assert(b.map@.contains_key(k));
                        assert(ascending(b.map@[k]@));
                        lemma_handler_after_insert(table_of(mb, k), p, vv, h);
                        assert(table_of(b.map@, k) == table_of(mb, k).insert(p, (vv, h)));
                        assert(forall|w: VersionView| #[trigger] has_version(table_of(b.map@, k), w) <==> (has_version(
                            table_of(mb, k),
                            w,
                        ) || w == vv));
                        assert(forall|w: VersionView| has_version(table_of(mb, k), w) ==> #[trigger] handler_of(
                            table_of(b.map@, k),
                            w,
                        ) == handler_of(table_of(mb, k), w));
                        assert(handler_of(table_of(b.map@, k), vv) == h);
                        assert(texts(b.errors@) == eb);
                        assert forall|pp: (Seq<char>, VersionView)| c.contains(pp) <==> (holds(m0, pp.0, pp.1) && merged_upto(
                            all,
                            i as int,
                            j + 1,
                            pp.0,
                            pp.1,
                        )) by {
                            if pp == (k, vv) {
                                assert(!holds(m0, k, vv));
                                if c.contains(pp) {
                                }
                            }
                        }
                        assert forall|x: Seq<char>| #[trigger] b.map@.contains_key(x) <==> (m0.contains_key(x) || (exists|a: int|
                            0 <= a < i && #[trigger] all[a].0@ == x) || (true && all[i as int].0@ == x)) by {
                            assert(mb.contains_key(x) <==> (m0.contains_key(x) || (exists|a: int| 0 <= a < i && #[trigger] all[a].0@ == x)
                                || (true && all[i as int].0@ == x)));
                        }
                        assert forall|x: Seq<char>, w: VersionView| #[trigger] holds(b.map@, x, w) <==> (holds(m0, x, w)
                            || merged_upto(all, i as int, j + 1, x, w)) by {
                            assert(holds(mb, x, w) <==> (holds(m0, x, w) || merged_upto(all, i as int, j as int, x, w)));
                            if x == k {
                                assert(has_version(table_of(b.map@, k), w) <==> (has_version(table_of(mb, k), w) || w == vv));
                            } else {
                                assert(table_of(b.map@, x) == table_of(mb, x));
                            }
                        }
                        assert forall|x: Seq<char>, w: VersionView| holds(m0, x, w) implies #[trigger] handler_of(
                            table_of(b.map@, x),
                            w,
                        ) == handler_of(table_of(m0, x), w) by {
                            assert(holds(mb, x, w));
                            if x != k {
                                assert(table_of(b.map@, x) == table_of(mb, x));
                            }
                        }
                        assert forall|x: Seq<char>, w: VersionView|
                            !holds(m0, x, w) && merged_upto(all, i as int, j + 1, x, w) implies #[trigger] handler_of(
                            table_of(b.map@, x),
                            w,
                        ) == handler_of(table_of(o, x), w) by {
                            assert(holds(mb, x, w) <==> (holds(m0, x, w) || merged_upto(all, i as int, j as int, x, w)));
                            if x != k {
                                assert(table_of(b.map@, x) == table_of(mb, x));
                            } else if w != vv {
                                assert(holds(mb, x, w));
                            }
                        }
                    }
                }
                j += 1;
            }
            proof {
                assert forall|x: Seq<char>, w: VersionView|
                    merged_upto(all, i + 1, 0, x, w) <==> merged_upto(all, i as int, j as int, x, w) by {
                    if exists|a: int| 0 <= a < i + 1 && #[trigger] all[a].0@ == x && has_version(all[a].1@, w) {
                        let a = choose|a: int| 0 <= a < i + 1 && #[trigger] all[a].0@ == x && has_version(all[a].1@, w);
                        if a == i {
                            let y = choose|y: int| 0 <= y < t.len() && #[trigger] t[y].0 == w;
                            assert(all[i as int].1@[y].0 == w);
                        }
                    }
                    if 0 <= i < all.len() && all[i as int].0@ == x && exists|y: int| 0 <= y < j && #[trigger] all[i as int].1@[y].0 == w {
                        let y = choose|y: int| 0 <= y < j && #[trigger] all[i as int].1@[y].0 == w;
                        assert(has_version(all[i as int].1@, w)) by {
                            assert(t[y].0 == w);
                        }
                    }
                }
                assert forall|x: Seq<char>| #[trigger] b.map@.contains_key(x) <==> (m0.contains_key(x) || (exists|a: int|
                    0 <= a < i + 1 && #[trigger] all[a].0@ == x) || (false && all[i + 1].0@ == x)) by {
                    if exists|a: int| 0 <= a < i + 1 && #[trigger] all[a].0@ == x {
                        let a = choose|a: int| 0 <= a < i + 1 && #[trigger] all[a].0@ == x;
                        if a < i {
                            assert(exists|a: int| 0 <= a < i && #[trigger] all[a].0@ == x);
                        }
                    }
                }
                assert forall|x: Seq<char>, w: VersionView| #[trigger] holds(b.map@, x, w) <==> (holds(m0, x, w)
                    || merged_upto(all, i + 1, 0, x, w)) by {
                    assert(holds(b.map@, x, w) <==> (holds(m0, x, w) || merged_upto(all, i as int, j as int, x, w)));
                }
                assert forall|x: Seq<char>, w: VersionView|
                    !holds(m0, x, w) && merged_upto(all, i + 1, 0, x, w) implies #[trigger] handler_of(table_of(b.map@, x), w)
                        == handler_of(table_of(o, x), w) by {
                    assert(merged_upto(all, i as int, j as int, x, w));
                }
                assert forall|pp: (Seq<char>, VersionView)| c.contains(pp) <==> (holds(m0, pp.0, pp.1) && merged_upto(
                    all,
                    i + 1,
                    0,
                    pp.0,
                    pp.1,
                )) by {
                    assert(merged_upto(all, i + 1, 0, pp.0, pp.1) <==> merged_upto(all, i as int, j as int, pp.0, pp.1));
                }
            }
            i += 1;
        }
        proof {
            assert forall|x: Seq<char>, w: VersionView| merged_upto(all, n as int, 0, x, w) <==> holds(o, x, w) by {
                if holds(o, x, w) {
                    assert(o.contains_key(x));
                    let a = choose|a: int| 0 <= a < all.len() && #[trigger] all[a].0@ == x;
                    assert(table_of(o, x) == all[a].1@);
                }
                if exists|a: int| 0 <= a < n && #[trigger] all[a].0@ == x && has_version(all[a].1@, w) {
                    let a = choose|a: int| 0 <= a < n && #[trigger] all[a].0@ == x && has_version(all[a].1@, w);
                    assert(o.contains_key(x));
                    assert(table_of(o, x) == all[a].1@);
                }
            }
            assert forall|x: Seq<char>| #[trigger] b.map@.contains_key(x) <==> (m0.contains_key(x) || o.contains_key(x)) by {
                if o.contains_key(x) {
                    let a = choose|a: int| 0 <= a < all.len() && #[trigger] all[a].0@ == x;
                }
            }
            assert forall|x: Seq<char>, w: VersionView| #[trigger] holds(b.map@, x, w) <==> (holds(m0, x, w) || holds(o, x, w)) by {
                assert(merged_upto(all, n as int, 0, x, w) <==> holds(o, x, w));
            }
            assert forall|x: Seq<char>, w: VersionView|
                !holds(m0, x, w) && holds(o, x, w) implies #[trigger] handler_of(table_of(b.map@, x), w) == handler_of(
                table_of(o, x),
                w,
            ) by {
                assert(merged_upto(all, n as int, 0, x, w) <==> holds(o, x, w));
            }
            assert forall|pp: (Seq<char>, VersionView)| c.contains(pp) <==> (holds(m0, pp.0, pp.1) && holds(o, pp.0, pp.1)) by {
                assert(merged_upto(all, n as int, 0, pp.0, pp.1) <==> holds(o, pp.0, pp.1));
            }
        }
        b
    }
}


/// The handler an orchestration item runs with, given the version text the
/// item names, if any: a named version is read with `semver` and looked up
/// exactly; otherwise the name's policy picks.
pub open spec fn item_resolution<H>(
    tables: Map<Seq<char>, VersionTable<H>>,
    policy: Map<Seq<char>, VersionPolicy>,
    name: Seq<char>,
    version: Option<Seq<char>>,
) -> Option<(VersionView, H)> {
    match version {
        Some(text) => match semver_parse(text) {
            Some(v) => pick(table_of(tables, name), PolicyView::Exact(v)),
            None => None,
        },
        None => pick(table_of(tables, name), policy_of(policy, name)),
    }
}

impl<H> OrchestrationRegistry<H> {
    /// The version and handler an orchestration item runs with: the version
    /// the item names, where it names one, else the one the policy picks.
    /// `None` where the named text is no version or nothing is registered.
    pub fn resolve_for_item(&self, name: &str, version: Option<&str>) -> (r: Option<(SemanticVersion, &H)>)
        requires
            self.wf(),
        ensures
            match r {
                Some(e) => item_resolution(
                    self.inner@,
                    self.policy@,
                    name@,
                    match version {
                        Some(t) => Some(t@),
                        None => None,
                    },
                ) == Some((e.0@, *e.1)),
                None => item_resolution(
                    self.inner@,
                    self.policy@,
                    name@,
                    match version {
                        Some(t) => Some(t@),
                        None => None,
                    },
                ) is None,
            },
    {
        match version {
            Some(text) => match SemanticVersion::parse(text) {
                Some(v) => match self.resolve_handler_exact(name, &v) {
                    Some(h) => Some((v, h)),
                    None => None,
                },
                None => None,
            },
            None => self.resolve_handler(name),
        }
    }
}

/// After `unpin`, the name resolves to its highest (last) version.
pub proof fn lemma_unpin_resolves_latest<H>(
    tables: Map<Seq<char>, VersionTable<H>>,
    policy: Map<Seq<char>, VersionPolicy>,
    name: Seq<char>,
)
    ensures
        pick(table_of(tables, name), policy_of(policy.insert(name, VersionPolicy::Latest), name)) == (if table_of(
            tables,
            name,
        ).len() > 0 {
            Some(table_of(tables, name).last())
        } else {
            None
        }),
{
}

/// A merge of registries that share no version of any name records no
/// error.
pub proof fn lemma_disjoint_merge_records_no_error<H>(
    m: Map<Seq<char>, VersionTable<H>>,
    o: Map<Seq<char>, VersionTable<H>>,
    e: Seq<Seq<char>>,
    r: Seq<Seq<char>>,
)
    requires
        forall|k: Seq<char>, v: VersionView| !(#[trigger] holds(m, k, v) && holds(o, k, v)),
        exists|c: Seq<(Seq<char>, VersionView)>|
            {
                &&& c.no_duplicates()
                &&& forall|p: (Seq<char>, VersionView)| c.contains(p) <==> (holds(m, p.0, p.1) && holds(o, p.0, p.1))
                &&& r == e + c.map_values(|p: (Seq<char>, VersionView)| merge_message(p))
            },
    ensures
        r == e,
{
    let c = choose|c: Seq<(Seq<char>, VersionView)>|
        {
            &&& c.no_duplicates()
            &&& forall|p: (Seq<char>, VersionView)| c.contains(p) <==> (holds(m, p.0, p.1) && holds(o, p.0, p.1))
            &&& r == e + c.map_values(|p: (Seq<char>, VersionView)| merge_message(p))
        };
    if c.len() > 0 {
        assert(c.contains(c[0]));
        assert(holds(m, c[0].0, c[0].1));
    }
    assert(c.map_values(|p: (Seq<char>, VersionView)| merge_message(p)) =~= Seq::<Seq<char>>::empty());
    assert(r =~= e);
}

} // verus!
