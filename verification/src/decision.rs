//! The decisions of the reconciliation walk, one entry at a time.
//!
//! Every decision depends on the entry itself and on the index alone, never
//! on its siblings and never on whether the run is a dry one. A directory's
//! outcome is the conjunction of what its entries contribute.

use vstd::prelude::*;
use crate::index::{path_set, distinct_paths, FilenamePathIndex, IndexModel};
use crate::junk::{is_junk, is_junk_filename};

verus! {

/// Where a file of the source tree stands before any content is compared.
pub enum FileClass<'a> {
    /// The name is junk: the file goes, whatever the index holds.
    Junk,
    /// The name is not junk and the reference tree has files of that name:
    /// these are their paths, to be compared with the file.
    Named(&'a Vec<Vec<u8>>),
    /// The name is not junk and the reference tree has no file of that name.
    Original,
}

/// What is decided about one entry of the source tree.
#[derive(Clone, Copy, Debug, PartialEq, Eq)]
pub enum Decision {
    /// A junk file: delete it.
    DeleteJunk,
    /// A file equal to a reference file of the same name: delete it.
    DeleteDuplicate,
    /// A file whose name the reference tree knows, but with other content: keep it.
    KeepDifferent,
    /// A file whose name the reference tree does not know: keep it.
    KeepOriginal,
    /// A directory of which nothing is left: delete it.
    DeleteEmptyDir,
    /// A directory in which something was kept: keep it.
    KeepDir,
    /// An entry or a listing that could not be read: nothing is touched.
    KeepUnreadable,
}

/// Whether the decision is to delete the entry.
pub open spec fn deletes(decision: Decision) -> bool {
    decision == Decision::DeleteJunk || decision == Decision::DeleteDuplicate || decision
        == Decision::DeleteEmptyDir
}

/// The decision about a file, given whether any reference file of its name
/// equals it.
pub open spec fn file_decision(index: IndexModel, name: Seq<u8>, any_same: bool) -> Decision {
    if is_junk(name) {
        Decision::DeleteJunk
    } else if !index.contains_key(name) {
        Decision::KeepOriginal
    } else if any_same {
        Decision::DeleteDuplicate
    } else {
        Decision::KeepDifferent
    }
}

/// The decision about a directory, given the outcome of the walk inside it.
pub open spec fn dir_decision(children_all_deleted: bool) -> Decision {
    if children_all_deleted {
        Decision::DeleteEmptyDir
    } else {
        Decision::KeepDir
    }
}

/// What an entry contributes to the outcome of its directory: true exactly
/// when it is to be deleted and, unless the run is dry, was in fact removed.
pub open spec fn contributes(decision: Decision, dry_run: bool, removed: bool) -> bool {
    deletes(decision) && (dry_run || removed)
}

impl<'a> FileClass<'a> {
    /// Whether the class is the one that `name` has with respect to `index`.
    pub open spec fn classifies(self, index: IndexModel, name: Seq<u8>) -> bool {
        match self {
            FileClass::Junk => is_junk(name),
            FileClass::Named(paths) => {
                &&& !is_junk(name)
                &&& index.contains_key(name)
                &&& path_set(paths@) == index[name]
                &&& distinct_paths(paths@)
                &&& paths@.len() > 0
            },
            FileClass::Original => !is_junk(name) && !index.contains_key(name),
        }
    }

    /// The decision for a file of this class. `any_same` says whether one of
    /// the named reference files equals the file; it counts for nothing in
    /// the other two classes.
    pub fn decide(&self, any_same: bool) -> (decision: Decision)
        ensures
            forall|index: IndexModel, name: Seq<u8>|
                self.classifies(index, name) ==> decision == file_decision(index, name, any_same),
    {
        match self {
            FileClass::Junk => Decision::DeleteJunk,
            FileClass::Original => Decision::KeepOriginal,
            FileClass::Named(_) => if any_same {
                Decision::DeleteDuplicate
            } else {
                Decision::KeepDifferent
            },
        }
    }
}

/// Classifies a file of the source tree by its base name. Junk comes first:
/// a junk name is never looked up.
pub fn classify_file<'a>(name: &[u8], index: &'a FilenamePathIndex) -> (class: FileClass<'a>)
    requires
        index.wf(),
    ensures
        class.classifies(index@, name@),
{
    if is_junk_filename(name) {
        FileClass::Junk
    } else {
        match index.get(name) {
            Some(paths) => FileClass::Named(paths),
            None => FileClass::Original,
        }
    }
}

/// Whether the comparison `same` has judged a candidate with this path, with
/// this verdict.
pub open spec fn judged<F: Fn(&Vec<u8>) -> bool>(same: F, path: Seq<u8>, verdict: bool) -> bool {
    exists|c: Vec<u8>| c@ == path && call_ensures(same, (&c,), verdict)
}

/// Whether `same` holds of any of the candidates, asked in order. Stops at
/// the first of which it holds.
pub fn any_candidate<F: Fn(&Vec<u8>) -> bool>(candidates: &Vec<Vec<u8>>, same: F) -> (found: bool)
    requires
        forall|c: &Vec<u8>| call_requires(same, (c,)),
    ensures
        found ==> exists|p: Seq<u8>| path_set(candidates@).contains(p) && judged(same, p, true),
        !found ==> forall|p: Seq<u8>|
            path_set(candidates@).contains(p) ==> judged(same, p, false),
{
    let mut i: usize = 0;
    while i < candidates.len()
        invariant
            i <= candidates@.len(),
            forall|c: &Vec<u8>| call_requires(same, (c,)),
            forall|k: int|
                0 <= k < i ==> call_ensures(same, (&#[trigger] candidates@[k],), false),
        decreases candidates@.len() - i,
    {
        if same(&candidates[i]) {
            assert(path_set(candidates@).contains(candidates@[i as int]@));
            assert(judged(same, candidates@[i as int]@, true));
            return true;
        }
        i = i + 1;
    }
    assert forall|p: Seq<u8>| path_set(candidates@).contains(p) implies judged(
        same,
        p,
        false,
    ) by {
        let j = choose|j: int| 0 <= j < candidates@.len() && (#[trigger] candidates@[j])@ == p;
        assert(call_ensures(same, (&candidates@[j],), false));
    }
    false
}

/// Decides about a file of the source tree, by its base name. The file is
/// compared, by `same`, with the reference files of its name, and only if
/// the name is not junk and the reference tree has such files.
///
/// The class of the name fixes the decision up to the comparison: a
/// duplicate has a candidate that `same` judged equal, and a file with
/// different content has none that `same` did not judge unequal.
pub fn decide_file<F: Fn(&Vec<u8>) -> bool>(
    name: &[u8],
    index: &FilenamePathIndex,
    same: F,
) -> (decision: Decision)
    requires
        index.wf(),
        forall|c: &Vec<u8>| call_requires(same, (c,)),
    ensures
        decision == file_decision(index@, name@, decision == Decision::DeleteDuplicate),
        decision == Decision::DeleteDuplicate ==> exists|p: Seq<u8>|
            index@[name@].contains(p) && judged(same, p, true),
        decision == Decision::KeepDifferent ==> forall|p: Seq<u8>|
            index@[name@].contains(p) ==> judged(same, p, false),
{
    let class = classify_file(name, index);
    let any_same = match class {
        FileClass::Named(candidates) => any_candidate(candidates, same),
        _ => false,
    };
    class.decide(any_same)
}

/// Decides about a directory once the walk inside it has returned.
pub fn decide_dir(children_all_deleted: bool) -> (decision: Decision)
    ensures
        decision == dir_decision(children_all_deleted),
{
    if children_all_deleted {
        Decision::DeleteEmptyDir
    } else {
        Decision::KeepDir
    }
}

impl Decision {
    /// Whether the entry is to be deleted.
    pub fn is_delete(&self) -> (yes: bool)
        ensures
            yes == deletes(*self),
    {
        match self {
            Decision::DeleteJunk => true,
            Decision::DeleteDuplicate => true,
            Decision::DeleteEmptyDir => true,
            _ => false,
        }
    }

    /// Whether the entry is to be removed from the file system now: it is to
    /// be deleted and the run is not dry.
    pub fn removes_now(&self, dry_run: bool) -> (yes: bool)
        ensures
            yes == (deletes(*self) && !dry_run),
    {
        self.is_delete() && !dry_run
    }

    /// What the entry contributes to the outcome of its directory.
    /// `removed` says whether the removal succeeded; in a dry run, and for an
    /// entry that is kept, it counts for nothing.
    pub fn contribution(&self, dry_run: bool, removed: bool) -> (all_deleted: bool)
        ensures
            all_deleted == contributes(*self, dry_run, removed),
    {
        self.is_delete() && (dry_run || removed)
    }
}

/// The running outcome of one directory: whether every entry seen so far
/// has contributed "deleted".
pub struct Tally {
    all_deleted: bool,
}

impl View for Tally {
    type V = bool;

    closed spec fn view(&self) -> bool {
        self.all_deleted
    }
}

impl Tally {
    /// The outcome of a directory of which no entry has been seen: true, so
    /// that an empty directory counts as fully reconciled.
    pub fn new() -> (tally: Tally)
        ensures
            tally@,
    {
        Tally { all_deleted: true }
    }

    /// Takes in what one entry contributes.
    pub fn record(&mut self, contribution: bool)
        ensures
            final(self)@ == (old(self)@ && contribution),
    {
        self.all_deleted = self.all_deleted && contribution;
    }

    /// The outcome so far.
    pub fn all_deleted(&self) -> (outcome: bool)
        ensures
            outcome == self@,
    {
        self.all_deleted
    }
}

} // verus!
