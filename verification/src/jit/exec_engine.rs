//! The engine's registry of materialised functions, keyed by name.
//!
//! The engine proper owns one entry per added function — a resource tracker,
//! a callable address and the context the module was wrapped in.  Those
//! handles are opaque here: the registry is generic over the entry type and
//! settles only which entry each name maps to.  The caller performs the
//! materialisation before [`JitExecutionEngine::add_function`] and the
//! ordered teardown after [`JitExecutionEngine::remove_group_fn`].

use vstd::prelude::*;

use crate::strops::str_eq;

verus! {

/// Registry of materialised functions: a list of `(name, entry)` pairs with
/// pairwise distinct names, read as a map from name to entry.
pub struct JitExecutionEngine<E> {
    pub entries: Vec<(String, E)>,
}

/// The map an entry list denotes; later pairs would win, and well-formed
/// registries keep names distinct.
pub open spec fn map_of_entries<E>(s: Seq<(String, E)>) -> Map<Seq<char>, E>
    decreases s.len(),
{
    if s.len() == 0 {
        Map::empty()
    } else {
        map_of_entries(s.drop_last()).insert(s.last().0@, s.last().1)
    }
}

/// A name is in the map exactly when some pair carries it.
proof fn lemma_map_of_entries_contains<E>(s: Seq<(String, E)>, name: Seq<char>)
    ensures
        map_of_entries(s).contains_key(name) <==> exists|i: int|
            0 <= i < s.len() && #[trigger] s[i].0@ == name,
    decreases s.len(),
{
    if s.len() > 0 {
        lemma_map_of_entries_contains(s.drop_last(), name);
        if map_of_entries(s).contains_key(name) {
            if s.last().0@ == name {
                assert(s[s.len() - 1].0@ == name);
            }
        }
        if exists|i: int| 0 <= i < s.len() && #[trigger] s[i].0@ == name {
            let i = choose|i: int| 0 <= i < s.len() && #[trigger] s[i].0@ == name;
            if i < s.len() - 1 {
                assert(s.drop_last()[i].0@ == name);
            }
        }
    }
}

/// With distinct names, the pair at `i` gives the map's value at its name.
proof fn lemma_map_of_entries_value<E>(s: Seq<(String, E)>, i: int)
    requires
        0 <= i < s.len(),
        forall|j: int, k: int| 0 <= j < k < s.len() ==> s[j].0@ != s[k].0@,
    ensures
        map_of_entries(s).contains_key(s[i].0@),
        map_of_entries(s)[s[i].0@] == s[i].1,
    decreases s.len(),
{
    if i == s.len() - 1 {
    } else {
        assert(s[i].0@ != s[s.len() - 1].0@);
        lemma_map_of_entries_value(s.drop_last(), i);
        assert(s.drop_last()[i] == s[i]);
    }
}

/// Removing the pair at `i` removes its name from the map, names distinct.
proof fn lemma_map_of_entries_remove<E>(s: Seq<(String, E)>, i: int)
    requires
        0 <= i < s.len(),
        forall|j: int, k: int| 0 <= j < k < s.len() ==> s[j].0@ != s[k].0@,
    ensures
        map_of_entries(s.remove(i)) == map_of_entries(s).remove(s[i].0@),
    decreases s.len(),
{
    let name = s[i].0@;
    if i == s.len() - 1 {
        assert(s.remove(i) =~= s.drop_last());
        lemma_map_of_entries_contains(s.drop_last(), name);
        assert(forall|j: int|
            0 <= j < s.drop_last().len() ==> #[trigger] s.drop_last()[j].0@ != name);
        assert(!map_of_entries(s.drop_last()).contains_key(name));
        assert(map_of_entries(s.drop_last()).insert(name, s[i].1).remove(name)
            =~= map_of_entries(s.drop_last()));
    } else {
        let st = s.remove(i);
        assert(st.drop_last() =~= s.drop_last().remove(i));
        assert(st.last() == s.last());
        lemma_map_of_entries_remove(s.drop_last(), i);
        assert(map_of_entries(st) == map_of_entries(s.drop_last()).remove(name).insert(
            s.last().0@,
            s.last().1,
        ));
        assert(s[i].0@ != s[s.len() - 1].0@);
        assert(map_of_entries(s.drop_last()).remove(name).insert(s.last().0@, s.last().1)
            =~= map_of_entries(s.drop_last()).insert(s.last().0@, s.last().1).remove(name));
    }
}

impl<E> JitExecutionEngine<E> {
    /// The names held, in insertion order.
    pub open spec fn names(&self) -> Seq<Seq<char>> {
        Seq::new(self.entries@.len(), |i: int| self.entries@[i].0@)
    }

    /// Names are pairwise distinct.
    pub open spec fn wf(&self) -> bool {
        forall|j: int, k: int|
            0 <= j < k < self.entries@.len() ==> self.entries@[j].0@ != self.entries@[k].0@
    }

    /// The map from function name to entry this registry denotes.
    pub open spec fn as_map(&self) -> Map<Seq<char>, E> {
        map_of_entries(self.entries@)
    }

    /// A fresh registry holds nothing.
    pub fn new() -> (r: Self)
        ensures
            r.wf(),
            r.as_map() == Map::<Seq<char>, E>::empty(),
    {
        JitExecutionEngine { entries: Vec::new() }
    }

    /// The position of `name` in the entry list, if it is held.
    fn find_index(&self, name: &str) -> (r: Option<usize>)
        ensures
            match r {
                Some(i) => i < self.entries@.len() && self.entries@[i as int].0@ == name@,
                None => forall|i: int|
                    0 <= i < self.entries@.len() ==> #[trigger] self.entries@[i].0@ != name@,
            },
    {
        let n = self.entries.len();
        for i in 0..n
            invariant
                n == self.entries@.len(),
                forall|j: int| 0 <= j < i ==> #[trigger] self.entries@[j].0@ != name@,
        {
            if str_eq(name, self.entries[i].0.as_str()) {
                return Some(i);
            }
        }
        None
    }

    /// Whether a function of this name is held.
    pub fn contains_function(&self, name: &str) -> (r: bool)
        requires
            self.wf(),
        ensures
            r == self.as_map().contains_key(name@),
    {
        let found = self.find_index(name);
        proof {
            lemma_map_of_entries_contains(self.entries@, name@);
        }
        found.is_some()
    }

    /// Store `entry` under `name`; an entry already under that name is
    /// replaced, as a map insertion.
    pub fn add_function(&mut self, name: String, entry: E)
        requires
            old(self).wf(),
        ensures
            final(self).wf(),
            final(self).as_map() == old(self).as_map().insert(name@, entry),
    {
        let found = self.find_index(name.as_str());
        let ghost s0 = self.entries@;
        if let Some(i) = found {
            proof {
                lemma_map_of_entries_remove(s0, i as int);
            }
            let _ = self.entries.remove(i);
            proof {
                lemma_map_of_entries_contains(s0.remove(i as int), name@);
                assert(forall|j: int, k: int|
                    0 <= j < k < s0.remove(i as int).len() ==> s0.remove(i as int)[j].0@ != s0
                        .remove(i as int)[k].0@);
            }
        }
        let ghost s1 = self.entries@;
        proof {
            lemma_map_of_entries_contains(s1, name@);
            assert(!map_of_entries(s1).contains_key(name@));
        }
        self.entries.push((name, entry));
        proof {
            assert(self.entries@.drop_last() =~= s1);
            assert(map_of_entries(self.entries@) =~= old(self).as_map().insert(
                self.entries@.last().0@,
                entry,
            ));
        }
    }

    /// Borrow the entry held under `name`.  The caller must not use a
    /// materialised address after the matching removal.
    pub fn get_function_ptr(&self, name: &str) -> (r: &E)
        requires
            self.wf(),
            self.as_map().contains_key(name@),
        ensures
            *r == self.as_map()[name@],
    {
        proof {
            lemma_map_of_entries_contains(self.entries@, name@);
        }
        let found = self.find_index(name);
        match found {
            Some(i) => {
                proof {
                    lemma_map_of_entries_value(self.entries@, i as int);
                }
                &self.entries[i].1
            },
            None => {
                proof {
                    assert(false);
                }
                unreached()
            },
        }
    }

    /// Drop the entry held under `name` and hand it back, so the caller can
    /// tear its resources down in order: remove the tracker's resources,
    /// release the tracker, then dispose the context.
    pub fn remove_group_fn(&mut self, name: &str) -> (entry: E)
        requires
            old(self).wf(),
            old(self).as_map().contains_key(name@),
        ensures
            final(self).wf(),
            final(self).as_map() == old(self).as_map().remove(name@),
            entry == old(self).as_map()[name@],
    {
        proof {
            lemma_map_of_entries_contains(self.entries@, name@);
        }
        let found = self.find_index(name);
        match found {
            Some(i) => {
                proof {
                    lemma_map_of_entries_value(self.entries@, i as int);
                    lemma_map_of_entries_remove(self.entries@, i as int);
                }
                let pair = self.entries.remove(i);
                pair.1
            },
            None => {
                proof {
                    assert(false);
                }
                unreached()
            },
        }
    }
}

/// Lifecycle law: removing a function and re-adding one of the same name
/// restores the registry's map; with the same entry, it is unchanged.
pub proof fn lemma_remove_then_add<E>(m: Map<Seq<char>, E>, name: Seq<char>, entry: E)
    requires
        m.contains_key(name),
    ensures
        m.remove(name).insert(name, entry) == m.insert(name, entry),
        m[name] == entry ==> m.remove(name).insert(name, entry) == m,
{
    assert(m.remove(name).insert(name, entry) =~= m.insert(name, entry));
    if m[name] == entry {
        assert(m.insert(name, entry) =~= m);
    }
}

} // verus!
