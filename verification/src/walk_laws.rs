//! What holds of every reconciliation walk.

use vstd::prelude::*;
use crate::index::IndexModel;
use crate::junk::is_junk;
use crate::tree::{DirNode, DiskFile, Entry};
use crate::walker::{walked_dir, walked_entry, walked_listing, EventKind, WalkModel};

verus! {

broadcast use {
    vstd::std_specs::vec::axiom_vec_index_decreases,
    vstd::std_specs::vec::axiom_vec_decreases_to_view,
    vstd::seq::axiom_seq_index_decreases,
};

/// An entry of which nothing is kept: a junk file, or a directory with no
/// entries.
pub open spec fn junk_or_empty(e: Entry) -> bool {
    match e {
        Entry::Unreadable => false,
        Entry::File(f) => is_junk(f.name@),
        Entry::Dir(d) => d.listing matches Some(l) && l@.len() == 0,
    }
}

/// Whether the file system lets the entry itself be removed.
pub open spec fn removable(e: Entry) -> bool {
    match e {
        Entry::Unreadable => true,
        Entry::File(f) => f.removable,
        Entry::Dir(d) => d.removable,
    }
}

/// Whether the file system lets the entry and everything below it be removed.
pub open spec fn removable_throughout(e: Entry) -> bool
    decreases e,
{
    match e {
        Entry::Unreadable => true,
        Entry::File(f) => f.removable,
        Entry::Dir(d) => d.removable && removable_inside(d),
    }
}

/// Whether the file system lets everything below the directory be removed.
pub open spec fn removable_inside(d: DirNode) -> bool
    decreases d,
{
    match d.listing {
        None => true,
        Some(l) => forall|i: int| 0 <= i < l@.len() ==> removable_throughout(#[trigger] l@[i]),
    }
}

proof fn lemma_junk_or_empty_listing(
    l: Seq<Entry>,
    n: int,
    index: IndexModel,
    disk: Seq<DiskFile>,
    dry_run: bool,
)
    requires
        0 <= n <= l.len(),
        forall|i: int|
            0 <= i < l.len() ==> junk_or_empty(#[trigger] l[i]) && (dry_run || removable(l[i])),
    ensures
        walked_listing(l, n, index, disk, dry_run).all_deleted,
    decreases n,
{
    if n > 0 {
        lemma_junk_or_empty_listing(l, n - 1, index, disk, dry_run);
        assert(junk_or_empty(l[n - 1]) && (dry_run || removable(l[n - 1])));
        if let Entry::Dir(d) = l[n - 1] {
            assert(walked_dir(d, index, disk, dry_run).all_deleted);
        }
        assert(walked_entry(l[n - 1], index, disk, dry_run).all_deleted);
    }
}

/// A directory that holds only junk files and empty subdirectories is fully
/// reconciled, in a dry run and in any real run in which these can be
/// removed. Where such a directory is itself an entry of the directory
/// walked, a real run removes it, last of all that it removes there.
pub proof fn lemma_junk_and_empty_dirs_reconcile(
    d: DirNode,
    index: IndexModel,
    disk: Seq<DiskFile>,
    dry_run: bool,
)
    requires
        d.listing matches Some(l) && forall|i: int|
            0 <= i < l@.len() ==> junk_or_empty(#[trigger] l@[i]) && (dry_run || removable(
                l@[i],
            )),
    ensures
        walked_dir(d, index, disk, dry_run).all_deleted,
        dry_run || d.removable ==> walked_entry(Entry::Dir(d), index, disk, dry_run).all_deleted,
        !dry_run && d.removable ==> walked_entry(
            Entry::Dir(d),
            index,
            disk,
            dry_run,
        ).removed.last() == d.path@,
{
    let l = d.listing->0;
    lemma_junk_or_empty_listing(l@, l@.len() as int, index, disk, dry_run);
}

proof fn lemma_listing_conjunction(
    l: Seq<Entry>,
    n: int,
    index: IndexModel,
    disk: Seq<DiskFile>,
    dry_run: bool,
)
    requires
        0 <= n <= l.len(),
    ensures
        walked_listing(l, n, index, disk, dry_run).all_deleted <==> forall|i: int|
            0 <= i < n ==> walked_entry(#[trigger] l[i], index, disk, dry_run).all_deleted,
    decreases n,
{
    if n > 0 {
        lemma_listing_conjunction(l, n - 1, index, disk, dry_run);
    }
}

/// The outcome of a directory that can be listed is the conjunction of what
/// its entries contribute, each taken by itself. So the order of the entries
/// does not matter to it, and a directory with no entries is reconciled.
pub proof fn lemma_outcome_is_conjunction(
    d: DirNode,
    index: IndexModel,
    disk: Seq<DiskFile>,
    dry_run: bool,
)
    requires
        d.listing is Some,
    ensures
        walked_dir(d, index, disk, dry_run).all_deleted <==> forall|i: int|
            0 <= i < d.listing->0@.len() ==> walked_entry(
                #[trigger] d.listing->0@[i],
                index,
                disk,
                dry_run,
            ).all_deleted,
{
    let l = d.listing->0;
    lemma_listing_conjunction(l@, l@.len() as int, index, disk, dry_run);
}

proof fn lemma_kept_entry_listing(
    l: Seq<Entry>,
    i: int,
    n: int,
    index: IndexModel,
    disk: Seq<DiskFile>,
    dry_run: bool,
)
    requires
        0 <= i < n <= l.len(),
        !walked_entry(l[i], index, disk, dry_run).all_deleted,
    ensures
        !walked_listing(l, n, index, disk, dry_run).all_deleted,
    decreases n,
{
    if n > i + 1 {
        lemma_kept_entry_listing(l, i, n - 1, index, disk, dry_run);
    }
}

/// A file whose name is not junk and is absent from the index is kept: the
/// walk reports it as an original and removes nothing, and the directory
/// that holds it is not reconciled. This holds in every mode, and whatever
/// the disk holds.
pub proof fn lemma_original_file_is_kept(
    d: DirNode,
    i: int,
    index: IndexModel,
    disk: Seq<DiskFile>,
    dry_run: bool,
)
    requires
        d.listing matches Some(l) && 0 <= i < l@.len() && (l@[i] matches Entry::File(f)
            && !is_junk(f.name@) && !index.contains_key(f.name@)),
    ensures
        !walked_dir(d, index, disk, dry_run).all_deleted,
        walked_entry(d.listing->0@[i], index, disk, dry_run) == (WalkModel {
            all_deleted: false,
            events: seq![(EventKind::OriginalFilename, d.listing->0@[i]->File_0.path@)],
            removed: seq![],
        }),
{
    let l = d.listing->0;
    let f = l@[i]->File_0;
    let w = walked_entry(l@[i], index, disk, dry_run);
    assert(w.events =~= seq![(EventKind::OriginalFilename, f.path@)]);
    lemma_kept_entry_listing(l@, i, l@.len() as int, index, disk, dry_run);
}

proof fn lemma_dry_entry(e: Entry, index: IndexModel, disk: Seq<DiskFile>)
    ensures
        walked_entry(e, index, disk, true).removed == Seq::<Seq<u8>>::empty(),
    decreases e,
{
    match e {
        Entry::Dir(d) => {
            lemma_dry_run_removes_nothing(d, index, disk);
            assert(walked_entry(e, index, disk, true).removed =~= Seq::<Seq<u8>>::empty());
        },
        _ => {},
    }
}

proof fn lemma_dry_listing(l: Seq<Entry>, n: int, index: IndexModel, disk: Seq<DiskFile>)
    requires
        0 <= n <= l.len(),
    ensures
        walked_listing(l, n, index, disk, true).removed == Seq::<Seq<u8>>::empty(),
    decreases l, n,
{
    if n > 0 {
        lemma_dry_listing(l, n - 1, index, disk);
        lemma_dry_entry(l[n - 1], index, disk);
        assert(walked_listing(l, n, index, disk, true).removed =~= Seq::<Seq<u8>>::empty());
    }
}

/// A dry run removes nothing, anywhere in the tree.
pub proof fn lemma_dry_run_removes_nothing(d: DirNode, index: IndexModel, disk: Seq<DiskFile>)
    ensures
        walked_dir(d, index, disk, true).removed == Seq::<Seq<u8>>::empty(),
    decreases d,
{
    match d.listing {
        None => {},
        Some(l) => {
            lemma_dry_listing(l@, l@.len() as int, index, disk);
        },
    }
}

/// The decision about a file is the same in a dry run and in a real run: the
/// first line that the walk logs for it does not depend on the mode.
pub proof fn lemma_file_decision_ignores_mode(
    e: Entry,
    index: IndexModel,
    disk: Seq<DiskFile>,
)
    requires
        e is File,
    ensures
        walked_entry(e, index, disk, true).events[0] == walked_entry(
            e,
            index,
            disk,
            false,
        ).events[0],
        walked_entry(e, index, disk, true).events.len() == 1,
{
}

proof fn lemma_same_entry(e: Entry, index: IndexModel, disk: Seq<DiskFile>)
    requires
        removable_throughout(e),
    ensures
        walked_entry(e, index, disk, true).all_deleted == walked_entry(
            e,
            index,
            disk,
            false,
        ).all_deleted,
        walked_entry(e, index, disk, true).events == walked_entry(e, index, disk, false).events,
    decreases e,
{
    match e {
        Entry::Dir(d) => {
            lemma_dry_run_matches_real_run(d, index, disk);
        },
        _ => {},
    }
}

proof fn lemma_same_listing(l: Seq<Entry>, n: int, index: IndexModel, disk: Seq<DiskFile>)
    requires
        0 <= n <= l.len(),
        forall|i: int| 0 <= i < l.len() ==> removable_throughout(#[trigger] l[i]),
    ensures
        walked_listing(l, n, index, disk, true).all_deleted == walked_listing(
            l,
            n,
            index,
            disk,
            false,
        ).all_deleted,
        walked_listing(l, n, index, disk, true).events == walked_listing(
            l,
            n,
            index,
            disk,
            false,
        ).events,
    decreases l, n,
{
    if n > 0 {
        lemma_same_listing(l, n - 1, index, disk);
        lemma_same_entry(l[n - 1], index, disk);
    }
}

/// What a dry run decides is what a real run on the same tree decides: where
/// nothing stands in the way of a removal, the two have the same outcome and
/// log the same lines in the same order.
pub proof fn lemma_dry_run_matches_real_run(d: DirNode, index: IndexModel, disk: Seq<DiskFile>)
    requires
        removable_inside(d),
    ensures
        walked_dir(d, index, disk, true).all_deleted == walked_dir(
            d,
            index,
            disk,
            false,
        ).all_deleted,
        walked_dir(d, index, disk, true).events == walked_dir(d, index, disk, false).events,
    decreases d,
{
    match d.listing {
        None => {},
        Some(l) => {
            lemma_same_listing(l@, l@.len() as int, index, disk);
        },
    }
}

} // verus!
