//! The reference indexer: one walk over the reference tree that fills the
//! index. Junk entries are left out, junk directories with all they hold;
//! directories are entered but never recorded; any unreadable entry ends the
//! walk with an error, so that no decision is ever taken on a partial index.

use vstd::prelude::*;
use vstd::slice::slice_to_vec;
use crate::index::{candidates, recorded, FilenamePathIndex, IndexModel};
use crate::junk::{is_junk, is_junk_filename};
use crate::tree::Entry;

verus! {

broadcast use {
    vstd::std_specs::vec::axiom_vec_index_decreases,
    vstd::std_specs::vec::axiom_vec_decreases_to_view,
    vstd::seq::axiom_seq_index_decreases,
};

/// What the indexer did with one entry of the walk, and so what the walk
/// does next.
#[derive(Clone, Copy, Debug, PartialEq, Eq)]
pub enum Visit {
    /// The entry is junk: it is left out, and if it is a directory the walk
    /// must not descend into it.
    Pruned,
    /// The entry is a directory that is not junk: the walk descends into it.
    Entered,
    /// The entry is a file that is not junk: its path is now in the index.
    Recorded,
}

/// Why an index could not be built.
#[derive(Clone, Copy, Debug, PartialEq, Eq)]
pub enum IndexError {
    /// A directory listing failed to produce one of its entries.
    UnreadableEntry,
    /// A directory could not be listed.
    UnreadableDirectory,
}

/// What becomes of an entry with this name.
pub open spec fn visit_of(name: Seq<u8>, is_dir: bool) -> Visit {
    if is_junk(name) {
        Visit::Pruned
    } else if is_dir {
        Visit::Entered
    } else {
        Visit::Recorded
    }
}

/// The index after one entry of the walk has been visited.
pub open spec fn visited(m: IndexModel, name: Seq<u8>, path: Seq<u8>, is_dir: bool) -> IndexModel {
    if visit_of(name, is_dir) == Visit::Recorded {
        recorded(m, name, path)
    } else {
        m
    }
}

/// The index after the walk has gone through `e` and all below it, starting
/// from `m`; or the error that ended the walk.
pub open spec fn indexed_entry(e: Entry, m: IndexModel) -> Result<IndexModel, IndexError>
    decreases e,
{
    match e {
        Entry::Unreadable => Err(IndexError::UnreadableEntry),
        Entry::File(f) => Ok(visited(m, f.name@, f.path@, false)),
        Entry::Dir(d) => if is_junk(d.name@) {
            Ok(m)
        } else {
            match d.listing {
                None => Err(IndexError::UnreadableDirectory),
                Some(l) => indexed_entries(l@, l@.len() as int, m),
            }
        },
    }
}

/// The index after the walk has gone through the first `n` entries of a
/// listing, in order, starting from `m`; or the first error on the way.
pub open spec fn indexed_entries(l: Seq<Entry>, n: int, m: IndexModel) -> Result<
    IndexModel,
    IndexError,
>
    decreases l, n,
{
    if n <= 0 || n > l.len() {
        Ok(m)
    } else {
        match indexed_entries(l, n - 1, m) {
            Err(e) => Err(e),
            Ok(sofar) => indexed_entry(l[n - 1], sofar),
        }
    }
}

/// An error that ends the walk within a listing is the error of the whole
/// listing.
proof fn lemma_error_stays(l: Seq<Entry>, k: int, n: int, m: IndexModel)
    requires
        0 <= k <= n <= l.len(),
        indexed_entries(l, k, m) is Err,
    ensures
        indexed_entries(l, n, m) == indexed_entries(l, k, m),
    decreases n - k,
{
    if k < n {
        lemma_error_stays(l, k, n - 1, m);
    }
}

impl FilenamePathIndex {
    /// Takes one entry of the walk over the reference tree: leaves junk
    /// out, lets the walk enter any other directory, and records the path
    /// of any other file under its name.
    pub fn visit(&mut self, name: &[u8], path: &[u8], is_dir: bool) -> (visit: Visit)
        requires
            old(self).wf(),
        ensures
            final(self).wf(),
            visit == visit_of(name@, is_dir),
            final(self)@ == visited(old(self)@, name@, path@, is_dir),
    {
        if is_junk_filename(name) {
            Visit::Pruned
        } else if is_dir {
            Visit::Entered
        } else {
            self.insert(slice_to_vec(name), slice_to_vec(path));
            Visit::Recorded
        }
    }
}

/// Walks one entry and all below it.
fn index_entry(index: &mut FilenamePathIndex, e: &Entry) -> (done: Result<(), IndexError>)
    requires
        old(index).wf(),
    ensures
        final(index).wf(),
        match done {
            Ok(_) => indexed_entry(*e, old(index)@) == Ok::<IndexModel, IndexError>(
                final(index)@,
            ),
            Err(error) => indexed_entry(*e, old(index)@) == Err::<IndexModel, IndexError>(error),
        },
    decreases e,
{
    match e {
        Entry::Unreadable => Err(IndexError::UnreadableEntry),
        Entry::File(f) => {
            index.visit(f.name.as_slice(), f.path.as_slice(), false);
            Ok(())
        },
        Entry::Dir(d) => {
            match index.visit(d.name.as_slice(), d.path.as_slice(), true) {
                Visit::Entered => match &d.listing {
                    None => Err(IndexError::UnreadableDirectory),
                    Some(l) => index_entries(index, l),
                },
                _ => Ok(()),
            }
        },
    }
}

/// Walks a listing entry by entry and stops at the first error.
fn index_entries(index: &mut FilenamePathIndex, l: &Vec<Entry>) -> (done: Result<
    (),
    IndexError,
>)
    requires
        old(index).wf(),
    ensures
        final(index).wf(),
        match done {
            Ok(_) => indexed_entries(l@, l@.len() as int, old(index)@) == Ok::<
                IndexModel,
                IndexError,
            >(final(index)@),
            Err(error) => indexed_entries(l@, l@.len() as int, old(index)@) == Err::<
                IndexModel,
                IndexError,
            >(error),
        },
    decreases l,
{
    let ghost start = index@;
    let mut i: usize = 0;
    while i < l.len()
        invariant
            i <= l@.len(),
            index.wf(),
            start == old(index)@,
            indexed_entries(l@, i as int, start) == Ok::<IndexModel, IndexError>(index@),
        decreases l@.len() - i,
    {
        match index_entry(index, &l[i]) {
            Ok(_) => {},
            Err(error) => {
                proof {
                    assert(indexed_entries(l@, i + 1, start) == Err::<IndexModel, IndexError>(
                        error,
                    ));
                    lemma_error_stays(l@, i + 1, l@.len() as int, start);
                }
                return Err(error);
            },
        }
        i = i + 1;
    }
    Ok(())
}

/// Builds the index of a reference tree.
///
/// The result is the index that `indexed_entry` describes, or the first
/// error that the walk meets; an error leaves no index behind.
pub fn get_filename_path_map(root: &Entry) -> (built: Result<FilenamePathIndex, IndexError>)
    ensures
        match built {
            Ok(index) => index.wf() && indexed_entry(*root, Map::empty()) == Ok::<
                IndexModel,
                IndexError,
            >(index@),
            Err(error) => indexed_entry(*root, Map::empty()) == Err::<IndexModel, IndexError>(
                error,
            ),
        },
{
    let mut index = FilenamePathIndex::new();
    match index_entry(&mut index, root) {
        Ok(_) => Ok(index),
        Err(error) => Err(error),
    }
}

/// Whether the walk records a file with this name and path at or below `e`:
/// the file is there, its name is not junk, and no directory on the way to
/// it, from `e` on, has a junk name.
pub open spec fn indexed_file(e: Entry, name: Seq<u8>, path: Seq<u8>) -> bool
    decreases e,
{
    match e {
        Entry::Unreadable => false,
        Entry::File(f) => f.name@ == name && f.path@ == path && !is_junk(name),
        Entry::Dir(d) => !is_junk(d.name@) && (d.listing matches Some(l) && exists|i: int|
            0 <= i < l@.len() && indexed_file(#[trigger] l@[i], name, path)),
    }
}

/// Whether the walk meets something unreadable at or below `e`: an entry
/// that its listing failed to produce, or a directory that cannot be listed,
/// outside any junk directory.
pub open spec fn meets_unreadable(e: Entry) -> bool
    decreases e,
{
    match e {
        Entry::Unreadable => true,
        Entry::File(_) => false,
        Entry::Dir(d) => !is_junk(d.name@) && match d.listing {
            None => true,
            Some(l) => exists|i: int| 0 <= i < l@.len() && meets_unreadable(#[trigger] l@[i]),
        },
    }
}

proof fn lemma_listing_content(
    l: Seq<Entry>,
    n: int,
    m: IndexModel,
    name: Seq<u8>,
    path: Seq<u8>,
)
    requires
        0 <= n <= l.len(),
        indexed_entries(l, n, m) is Ok,
    ensures
        candidates(indexed_entries(l, n, m)->Ok_0, name).contains(path) <==> candidates(
            m,
            name,
        ).contains(path) || exists|i: int|
            0 <= i < n && indexed_file(#[trigger] l[i], name, path),
    decreases l, n,
{
    if n > 0 {
        let sofar = indexed_entries(l, n - 1, m)->Ok_0;
        lemma_listing_content(l, n - 1, m, name, path);
        lemma_index_content(l[n - 1], sofar, name, path);
        if indexed_file(l[n - 1], name, path) {
            assert(exists|i: int| 0 <= i < n && indexed_file(#[trigger] l[i], name, path));
        }
    }
}

/// What an index holds once the walk over `e` has succeeded: what it held
/// before, and the files that the walk records. So the index of a whole tree
/// holds, under each name, exactly the paths of the files of that name that
/// are not junk and not inside a junk directory; no directory is ever a
/// value.
pub proof fn lemma_index_content(e: Entry, m: IndexModel, name: Seq<u8>, path: Seq<u8>)
    requires
        indexed_entry(e, m) is Ok,
    ensures
        candidates(indexed_entry(e, m)->Ok_0, name).contains(path) <==> candidates(
            m,
            name,
        ).contains(path) || indexed_file(e, name, path),
    decreases e,
{
    match e {
        Entry::Dir(d) => {
            if !is_junk(d.name@) {
                let l = d.listing->0;
                lemma_listing_content(l@, l@.len() as int, m, name, path);
            }
        },
        _ => {},
    }
}

proof fn lemma_listing_names(l: Seq<Entry>, n: int, m: IndexModel, name: Seq<u8>)
    requires
        0 <= n <= l.len(),
        indexed_entries(l, n, m) is Ok,
        is_junk(name),
    ensures
        indexed_entries(l, n, m)->Ok_0.contains_key(name) ==> m.contains_key(name),
    decreases l, n,
{
    if n > 0 {
        let sofar = indexed_entries(l, n - 1, m)->Ok_0;
        lemma_listing_names(l, n - 1, m, name);
        lemma_junk_is_never_indexed(l[n - 1], sofar, name);
    }
}

/// The walk never records anything under a junk name.
pub proof fn lemma_junk_is_never_indexed(e: Entry, m: IndexModel, name: Seq<u8>)
    requires
        indexed_entry(e, m) is Ok,
        is_junk(name),
    ensures
        indexed_entry(e, m)->Ok_0.contains_key(name) ==> m.contains_key(name),
    decreases e,
{
    match e {
        Entry::Dir(d) => {
            if !is_junk(d.name@) {
                let l = d.listing->0;
                lemma_listing_names(l@, l@.len() as int, m, name);
            }
        },
        _ => {},
    }
}

proof fn lemma_listing_fails(l: Seq<Entry>, n: int, m: IndexModel)
    requires
        0 <= n <= l.len(),
    ensures
        indexed_entries(l, n, m) is Err <==> exists|i: int|
            0 <= i < n && meets_unreadable(#[trigger] l[i]),
    decreases l, n,
{
    if n > 0 {
        lemma_listing_fails(l, n - 1, m);
        match indexed_entries(l, n - 1, m) {
            Ok(sofar) => {
                lemma_index_fails_iff_unreadable(l[n - 1], sofar);
                if meets_unreadable(l[n - 1]) {
                    assert(exists|i: int| 0 <= i < n && meets_unreadable(#[trigger] l[i]));
                }
            },
            Err(_) => {
                let i = choose|i: int| 0 <= i < n - 1 && meets_unreadable(#[trigger] l[i]);
                assert(0 <= i < n && meets_unreadable(l[i]));
            },
        }
    }
}

/// The walk fails exactly when it meets something unreadable, whatever the
/// index held before: one unreadable entry anywhere outside the junk
/// directories is enough, and nothing else makes it fail.
pub proof fn lemma_index_fails_iff_unreadable(e: Entry, m: IndexModel)
    ensures
        indexed_entry(e, m) is Err <==> meets_unreadable(e),
    decreases e,
{
    match e {
        Entry::Dir(d) => {
            if !is_junk(d.name@) {
                match d.listing {
                    Some(l) => {
                        lemma_listing_fails(l@, l@.len() as int, m);
                    },
                    None => {},
                }
            }
        },
        _ => {},
    }
}

} // verus!
