//! The registry of active session names.

use vstd::prelude::*;

verus! {

/// The characters of each name of a list, in order.
pub open spec fn names_of(names: Seq<String>) -> Seq<Seq<char>> {
    names.map_values(|s: String| s@)
}

/// The set of names of the sessions that are active. No name is held twice.
///
/// The store itself is not synchronised: whoever shares it between
/// connections puts it behind one lock, and takes a snapshot with
/// [`NamespaceStore::get_all`] under that lock.
pub struct NamespaceStore {
    names: Vec<String>,
}

impl View for NamespaceStore {
    type V = Set<Seq<char>>;

    closed spec fn view(&self) -> Set<Seq<char>> {
        names_of(self.names@).to_set()
    }
}

/// Position of `name` in `names`, if it is there.
pub(crate) fn position(names: &Vec<String>, name: &String) -> (at: Option<usize>)
    ensures
        match at {
            Some(i) => i < names.len() && names_of(names@)[i as int] == name@,
            None => !names_of(names@).contains(name@),
        },
{
    let mut i: usize = 0;
    while i < names.len()
        invariant
            i <= names.len(),
            forall|k: int| 0 <= k < i ==> names[k]@ != name@,
        decreases names.len() - i,
    {
        if names[i] == *name {
            return Some(i);
        }
        i += 1;
    }
    None
}

/// A copy of a name.
fn copy_name(name: &String) -> (copy: String)
    ensures
        copy@ == name@,
{
    name.clone()
}

impl NamespaceStore {
    /// The invariant of the store: no name is held twice.
    pub closed spec fn wf(&self) -> bool {
        names_of(self.names@).no_duplicates()
    }

    /// A store without names.
    pub fn new() -> (store: NamespaceStore)
        ensures
            store.wf(),
            store@ == Set::<Seq<char>>::empty(),
    {
        let store = NamespaceStore { names: Vec::new() };
        store
    }

    /// Number of active sessions.
    pub fn len(&self) -> (n: usize)
        requires
            self.wf(),
        ensures
            self@.finite(),
            n == self@.len(),
    {
        proof {
            vstd::seq_lib::seq_to_set_is_finite(names_of(self.names@));
            names_of(self.names@).unique_seq_to_set();
        }
        self.names.len()
    }

    /// Whether `ns` names an active session.
    pub fn contains(&self, ns: &String) -> (b: bool)
        ensures
            b == self@.contains(ns@),
    {
        position(&self.names, ns).is_some()
    }

    /// Records `ns` as active. A name that is already there stays once.
    pub fn insert(&mut self, ns: String)
        requires
            old(self).wf(),
        ensures
            final(self).wf(),
            final(self)@ == old(self)@.insert(ns@),
    {
        let ghost before = names_of(self.names@);
        match position(&self.names, &ns) {
            Some(_) => {},
            None => {
                self.names.push(ns);
                assert(names_of(self.names@) =~= before.push(ns@));
                assert(before.push(ns@).to_set() =~= before.to_set().insert(ns@)) by {
                    assert forall|x: Seq<char>| before.to_set().insert(ns@).contains(x) implies before.push(ns@).to_set().contains(x) by {
                        if x == ns@ {
                            assert(before.push(ns@)[before.len() as int] == x);
                        } else {
                            let k = choose|k: int| 0 <= k < before.len() && before[k] == x;
                            assert(before.push(ns@)[k] == x);
                        }
                    }
                }
            },
        }
    }

    /// Takes `ns` out of the active names. A name that is not there is no
    /// error.
    pub fn remove(&mut self, ns: String)
        requires
            old(self).wf(),
        ensures
            final(self).wf(),
            final(self)@ == old(self)@.remove(ns@),
    {
        let ghost before = names_of(self.names@);
        match position(&self.names, &ns) {
            Some(i) => {
                self.names.remove(i);
                let ghost after = names_of(self.names@);
                assert(after =~= before.remove(i as int));
                assert(after.to_set() =~= before.to_set().remove(ns@)) by {
                    assert forall|x: Seq<char>| before.to_set().remove(ns@).contains(x) implies after.to_set().contains(x) by {
                        let k = choose|k: int| 0 <= k < before.len() && before[k] == x;
                        if k < i {
                            assert(after[k] == x);
                        } else {
                            assert(after[k - 1] == x);
                        }
                    }
                }
            },
            None => {},
        }
    }

    /// A copy of the active names as they are now. Later changes to the
    /// store do not show in it.
    pub fn get_all(&self) -> (snapshot: Vec<String>)
        ensures
            names_of(snapshot@).to_set() == self@,
            self.wf() ==> names_of(snapshot@).no_duplicates(),
    {
        let mut snapshot: Vec<String> = Vec::new();
        let mut i: usize = 0;
        while i < self.names.len()
            invariant
                i <= self.names.len(),
                names_of(snapshot@) == names_of(self.names@).take(i as int),
            decreases self.names.len() - i,
        {
            let name = copy_name(&self.names[i]);
            snapshot.push(name);
            assert(names_of(self.names@).take(i + 1) =~= names_of(self.names@).take(i as int).push(
                self.names[i as int]@,
            ));
            i += 1;
        }
        assert(names_of(self.names@).take(self.names.len() as int) =~= names_of(self.names@));
        snapshot
    }
}

impl Default for NamespaceStore {
    fn default() -> (store: NamespaceStore)
        ensures
            store.wf(),
            store@ == Set::<Seq<char>>::empty(),
    {
        NamespaceStore::new()
    }
}

} // verus!
