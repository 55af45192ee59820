//! The index of the reference tree: for each base file name, the set of
//! paths in the reference tree that bear it.

use vstd::prelude::*;
use crate::bytes::bytes_eq;

verus! {

/// What an index stands for: base file names mapped to sets of full paths.
pub type IndexModel = Map<Seq<u8>, Set<Seq<u8>>>;

/// The paths recorded under one name.
struct Slot {
    name: Vec<u8>,
    paths: Vec<Vec<u8>>,
}

/// Maps base file names to the paths that bear them. Names are compared
/// byte for byte, with no normalisation.
pub struct FilenamePathIndex {
    slots: Vec<Slot>,
    model: Ghost<IndexModel>,
}

/// The paths of a list, as a set.
pub open spec fn path_set(paths: Seq<Vec<u8>>) -> Set<Seq<u8>> {
    Set::new(|p: Seq<u8>| exists|j: int| 0 <= j < paths.len() && (#[trigger] paths[j])@ == p)
}

/// No path occurs twice in the list.
pub open spec fn distinct_paths(paths: Seq<Vec<u8>>) -> bool {
    forall|i: int, j: int|
        0 <= i < j < paths.len() ==> (#[trigger] paths[i])@ != (#[trigger] paths[j])@
}

/// The paths recorded under `name`; none if the name is unknown.
pub open spec fn candidates(m: IndexModel, name: Seq<u8>) -> Set<Seq<u8>> {
    if m.contains_key(name) {
        m[name]
    } else {
        Set::empty()
    }
}

/// The index after `path` has been recorded under `name`.
pub open spec fn recorded(m: IndexModel, name: Seq<u8>, path: Seq<u8>) -> IndexModel {
    m.insert(name, candidates(m, name).insert(path))
}

proof fn lemma_path_set_push(paths: Seq<Vec<u8>>, path: Vec<u8>)
    ensures
        path_set(paths.push(path)) == path_set(paths).insert(path@),
{
    let longer = paths.push(path);
    assert forall|p: Seq<u8>| path_set(longer).contains(p) implies path_set(paths).insert(
        path@,
    ).contains(p) by {
        let j = choose|j: int| 0 <= j < longer.len() && (#[trigger] longer[j])@ == p;
        if j < paths.len() {
            assert(paths[j]@ == p);
        }
    }
    assert forall|p: Seq<u8>| path_set(paths).insert(path@).contains(p) implies path_set(
        longer,
    ).contains(p) by {
        if p == path@ {
            assert(longer[paths.len() as int]@ == p);
        } else {
            let j = choose|j: int| 0 <= j < paths.len() && (#[trigger] paths[j])@ == p;
            assert(longer[j]@ == p);
        }
    }
    assert(path_set(longer) =~= path_set(paths).insert(path@));
}

/// Whether `path` occurs in `paths`.
fn holds_path(paths: &Vec<Vec<u8>>, path: &[u8]) -> (held: bool)
    ensures
        held == path_set(paths@).contains(path@),
{
    let mut i: usize = 0;
    while i < paths.len()
        invariant
            i <= paths@.len(),
            forall|k: int| 0 <= k < i ==> (#[trigger] paths@[k])@ != path@,
        decreases paths@.len() - i,
    {
        if bytes_eq(paths[i].as_slice(), path) {
            return true;
        }
        i = i + 1;
    }
    false
}

impl View for FilenamePathIndex {
    type V = IndexModel;

    closed spec fn view(&self) -> IndexModel {
        self.model@
    }
}

impl FilenamePathIndex {
    /// The index is consistent: every name occurs once, with the paths
    /// recorded under it, of which there is at least one and none twice.
    pub closed spec fn wf(&self) -> bool {
        &&& forall|i: int|
            0 <= i < self.slots@.len() ==> {
                &&& self.model@.contains_key((#[trigger] self.slots@[i]).name@)
                &&& self.model@[self.slots@[i].name@] == path_set(self.slots@[i].paths@)
                &&& self.slots@[i].paths@.len() > 0
                &&& distinct_paths(self.slots@[i].paths@)
            }
        &&& forall|n: Seq<u8>| #[trigger]
            self.model@.contains_key(n) ==> exists|i: int|
                0 <= i < self.slots@.len() && (#[trigger] self.slots@[i]).name@ == n
        &&& forall|i: int, j: int|
            0 <= i < j < self.slots@.len() ==> (#[trigger] self.slots@[i]).name@ != (
            #[trigger] self.slots@[j]).name@
    }

    /// An index that knows no name.
    pub fn new() -> (index: FilenamePathIndex)
        ensures
            index.wf(),
            index@ == Map::<Seq<u8>, Set<Seq<u8>>>::empty(),
    {
        FilenamePathIndex { slots: Vec::new(), model: Ghost(Map::empty()) }
    }

    /// Where `name` is recorded, if it is.
    fn position(&self, name: &[u8]) -> (found: Option<usize>)
        requires
            self.wf(),
        ensures
            match found {
                Some(i) => i < self.slots@.len() && self.slots@[i as int].name@ == name@,
                None => !self@.contains_key(name@),
            },
    {
        let mut i: usize = 0;
        while i < self.slots.len()
            invariant
                i <= self.slots@.len(),
                forall|k: int| 0 <= k < i ==> (#[trigger] self.slots@[k]).name@ != name@,
            decreases self.slots@.len() - i,
        {
            if bytes_eq(self.slots[i].name.as_slice(), name) {
                return Some(i);
            }
            i = i + 1;
        }
        None
    }

    /// Records `path` under `name`. A name seen for the first time gets a
    /// set of its own; a path already recorded under the name changes nothing.
    pub fn insert(&mut self, name: Vec<u8>, path: Vec<u8>)
        requires
            old(self).wf(),
        ensures
            final(self).wf(),
            final(self)@ == recorded(old(self)@, name@, path@),
    {
        let ghost before = self.model@;
        let ghost after = recorded(before, name@, path@);
        match self.position(name.as_slice()) {
            Some(i) => {
                let ghost old_paths = self.slots@[i as int].paths@;
                if !holds_path(&self.slots[i].paths, path.as_slice()) {
                    proof {
                        lemma_path_set_push(old_paths, path);
                    }
                    let slot = &mut self.slots[i];
                    slot.paths.push(path);
                } else {
                    assert(path_set(old_paths).insert(path@) =~= path_set(old_paths));
                }
                self.model = Ghost(after);
                assert forall|n: Seq<u8>| #[trigger] after.contains_key(n) implies exists|k: int|
                    0 <= k < self.slots@.len() && (#[trigger] self.slots@[k]).name@ == n by {
                    if n == name@ {
                        assert(self.slots@[i as int].name@ == n);
                    } else {
                        assert(before.contains_key(n));
                        let k = choose|k: int|
                            0 <= k < old(self).slots@.len() && (#[trigger] old(
                                self,
                            ).slots@[k]).name@ == n;
                        assert(self.slots@[k].name@ == n);
                    }
                }
            },
            None => {
                let ghost fresh = Seq::<Vec<u8>>::empty().push(path);
                proof {
                    lemma_path_set_push(Seq::<Vec<u8>>::empty(), path);
                    assert(path_set(Seq::<Vec<u8>>::empty()) =~= Set::<Seq<u8>>::empty());
                }
                let mut paths: Vec<Vec<u8>> = Vec::new();
                paths.push(path);
                assert(paths@ =~= fresh);
                self.slots.push(Slot { name, paths });
                self.model = Ghost(after);
                assert forall|n: Seq<u8>| #[trigger] after.contains_key(n) implies exists|k: int|
                    0 <= k < self.slots@.len() && (#[trigger] self.slots@[k]).name@ == n by {
                    if n == name@ {
                        assert(self.slots@[self.slots@.len() - 1].name@ == n);
                    } else {
                        assert(before.contains_key(n));
                        let k = choose|k: int|
                            0 <= k < old(self).slots@.len() && (#[trigger] old(
                                self,
                            ).slots@[k]).name@ == n;
                        assert(self.slots@[k].name@ == n);
                    }
                }
            },
        }
    }

    /// The paths recorded under `name`, each once and in no particular
    /// order; `None` when the name is unknown.
    pub fn get(&self, name: &[u8]) -> (found: Option<&Vec<Vec<u8>>>)
        requires
            self.wf(),
        ensures
            match found {
                Some(paths) => {
                    &&& self@.contains_key(name@)
                    &&& path_set(paths@) == self@[name@]
                    &&& distinct_paths(paths@)
                    &&& paths@.len() > 0
                },
                None => !self@.contains_key(name@),
            },
    {
        match self.position(name) {
            Some(i) => Some(&self.slots[i].paths),
            None => None,
        }
    }

    /// The names of the first `k` slots.
    spec fn names_upto(&self, k: int) -> Set<Seq<u8>> {
        Set::new(
            |n: Seq<u8>| exists|i: int| 0 <= i < k && (#[trigger] self.slots@[i]).name@ == n,
        )
    }

    proof fn lemma_names_upto(&self, k: int)
        requires
            self.wf(),
            0 <= k <= self.slots@.len(),
        ensures
            self.names_upto(k).finite(),
            self.names_upto(k).len() == k,
        decreases k,
    {
        if k == 0 {
            assert(self.names_upto(0) =~= Set::<Seq<u8>>::empty());
        } else {
            self.lemma_names_upto(k - 1);
            let last = self.slots@[k - 1].name@;
            assert(!self.names_upto(k - 1).contains(last));
            assert(self.names_upto(k) =~= self.names_upto(k - 1).insert(last));
        }
    }

    proof fn lemma_names_counted(&self)
        requires
            self.wf(),
        ensures
            self@.dom().finite(),
            self@.dom().len() == self.slots@.len(),
    {
        self.lemma_names_upto(self.slots@.len() as int);
        assert(self@.dom() =~= self.names_upto(self.slots@.len() as int));
    }

    /// How many names are known.
    pub fn len(&self) -> (count: usize)
        requires
            self.wf(),
        ensures
            count == self@.dom().len(),
            self@.dom().finite(),
    {
        proof {
            self.lemma_names_counted();
        }
        self.slots.len()
    }
}

} // verus!
