//! The reconciliation walk over a source tree.
//!
//! The walk goes through a directory entry by entry and depth first. A file
//! is deleted when its name is junk, or when the reference tree holds a file
//! of the same name and the same bytes. A subdirectory is walked first and
//! deleted afterwards if nothing in it was kept. In a dry run nothing is
//! removed, and the outcome is what it would be if every removal succeeded.

use vstd::prelude::*;
use vstd::slice::slice_to_vec;
use crate::compare::{is_same_file, same_file};
use crate::decision::{
    contributes,
    decide_dir,
    decide_file,
    deletes,
    dir_decision,
    file_decision,
    judged,
    Decision,
    Tally,
};
use crate::index::{candidates, FilenamePathIndex, IndexModel};
use crate::tree::{image_at, DirNode, Disk, DiskFile, Entry, FileNode};

verus! {

broadcast use {
    vstd::std_specs::vec::axiom_vec_index_decreases,
    vstd::std_specs::vec::axiom_vec_decreases_to_view,
    vstd::seq::axiom_seq_index_decreases,
};

/// The kinds of lines in the log of a walk.
#[derive(Clone, Copy, Debug, PartialEq, Eq)]
pub enum EventKind {
    /// A directory could not be listed; nothing in it was touched.
    ReadDirError,
    /// A listing failed to produce an entry.
    ReadDirEntryError,
    /// A directory of which nothing is left is to be deleted.
    DeleteEmptyDir,
    /// Removing such a directory failed.
    DeleteEmptyDirError,
    /// A junk file is to be deleted.
    DeleteJunkFile,
    /// Removing a junk file failed.
    DeleteJunkFileError,
    /// A file equal to a reference file of its name is to be deleted.
    DeleteDuplicatedFile,
    /// Removing such a file failed.
    DeleteDuplicatedFileError,
    /// A file is kept: the reference files of its name hold other bytes.
    DifferentContent,
    /// A file is kept: the reference tree has no file of its name.
    OriginalFilename,
}

/// One line of the log: what happened, and to which path.
#[derive(Debug, PartialEq, Eq)]
pub struct Event {
    /// What happened.
    pub kind: EventKind,
    /// The path concerned; empty where an entry could not even be read.
    pub path: Vec<u8>,
}

/// What a walk did.
#[derive(Debug, PartialEq, Eq)]
pub struct WalkReport {
    /// Whether the directory is fully reconciled: every entry in it was
    /// deleted, or would be in a real run.
    pub all_deleted: bool,
    /// The log, in the order of the walk.
    pub events: Vec<Event>,
    /// The paths removed from the file system, in the order of removal.
    pub removed: Vec<Vec<u8>>,
}

/// What a walk does, as a mathematical value.
pub struct WalkModel {
    /// Whether everything walked was deleted, or would be in a real run.
    pub all_deleted: bool,
    /// The log: kinds and paths, in the order of the walk.
    pub events: Seq<(EventKind, Seq<u8>)>,
    /// The paths removed, in the order of removal.
    pub removed: Seq<Seq<u8>>,
}

/// A log as a sequence of kinds and paths.
pub open spec fn events_view(events: Seq<Event>) -> Seq<(EventKind, Seq<u8>)> {
    events.map_values(|e: Event| (e.kind, e.path@))
}

/// A list of paths as a sequence of byte sequences.
pub open spec fn paths_view(paths: Seq<Vec<u8>>) -> Seq<Seq<u8>> {
    paths.map_values(|p: Vec<u8>| p@)
}

impl View for WalkReport {
    type V = WalkModel;

    open spec fn view(&self) -> WalkModel {
        WalkModel {
            all_deleted: self.all_deleted,
            events: events_view(self.events@),
            removed: paths_view(self.removed@),
        }
    }
}

/// Whether the files at two paths are the same. A path that the disk does
/// not know is the same as nothing.
pub open spec fn same_at(disk: Seq<DiskFile>, a: Seq<u8>, b: Seq<u8>) -> bool {
    match (image_at(disk, a), image_at(disk, b)) {
        (Some(x), Some(y)) => same_file(x, y),
        _ => false,
    }
}

/// Whether any of the candidate paths holds the same file as `path`.
pub open spec fn any_same(disk: Seq<DiskFile>, candidates: Set<Seq<u8>>, path: Seq<u8>) -> bool {
    exists|c: Seq<u8>| #[trigger] candidates.contains(c) && same_at(disk, c, path)
}

/// The log line that announces a decision. A directory that is kept has
/// none, and what could not be read is logged where the failure shows.
pub open spec fn announced(decision: Decision, path: Seq<u8>) -> Seq<(EventKind, Seq<u8>)> {
    match decision {
        Decision::DeleteJunk => seq![(EventKind::DeleteJunkFile, path)],
        Decision::DeleteDuplicate => seq![(EventKind::DeleteDuplicatedFile, path)],
        Decision::KeepDifferent => seq![(EventKind::DifferentContent, path)],
        Decision::KeepOriginal => seq![(EventKind::OriginalFilename, path)],
        Decision::DeleteEmptyDir => seq![(EventKind::DeleteEmptyDir, path)],
        Decision::KeepDir => seq![],
        Decision::KeepUnreadable => seq![],
    }
}

/// The log line for a removal that failed.
pub open spec fn failure_kind(decision: Decision) -> EventKind {
    match decision {
        Decision::DeleteJunk => EventKind::DeleteJunkFileError,
        Decision::DeleteDuplicate => EventKind::DeleteDuplicatedFileError,
        _ => EventKind::DeleteEmptyDirError,
    }
}

/// What carrying out one decision does: the announcement; then, in a real
/// run and for a deletion only, the removal or the report of its failure.
pub open spec fn settled(decision: Decision, path: Seq<u8>, removable: bool, dry_run: bool) -> WalkModel {
    let attempt = deletes(decision) && !dry_run;
    WalkModel {
        all_deleted: contributes(decision, dry_run, removable),
        events: if attempt && !removable {
            announced(decision, path).push((failure_kind(decision), path))
        } else {
            announced(decision, path)
        },
        removed: if attempt && removable {
            seq![path]
        } else {
            seq![]
        },
    }
}

/// What the walk does with one file.
pub open spec fn walked_file(
    f: FileNode,
    index: IndexModel,
    disk: Seq<DiskFile>,
    dry_run: bool,
) -> WalkModel {
    settled(
        file_decision(index, f.name@, any_same(disk, candidates(index, f.name@), f.path@)),
        f.path@,
        f.removable,
        dry_run,
    )
}

/// What the walk does with one entry of a listing. A subdirectory is walked
/// first; the decision about it follows what the walk inside it did.
pub open spec fn walked_entry(
    e: Entry,
    index: IndexModel,
    disk: Seq<DiskFile>,
    dry_run: bool,
) -> WalkModel
    decreases e,
{
    match e {
        Entry::Unreadable => WalkModel {
            all_deleted: false,
            events: seq![(EventKind::ReadDirEntryError, Seq::empty())],
            removed: seq![],
        },
        Entry::File(f) => walked_file(f, index, disk, dry_run),
        Entry::Dir(d) => {
            let inside = walked_dir(d, index, disk, dry_run);
            let own = settled(dir_decision(inside.all_deleted), d.path@, d.removable, dry_run);
            WalkModel {
                all_deleted: own.all_deleted,
                events: inside.events + own.events,
                removed: inside.removed + own.removed,
            }
        },
    }
}

/// What the walk does inside one directory. A directory that cannot be
/// listed is not reconciled; otherwise its entries are walked in order.
pub open spec fn walked_dir(
    d: DirNode,
    index: IndexModel,
    disk: Seq<DiskFile>,
    dry_run: bool,
) -> WalkModel
    decreases d,
{
    match d.listing {
        None => WalkModel {
            all_deleted: false,
            events: seq![(EventKind::ReadDirError, d.path@)],
            removed: seq![],
        },
        Some(l) => walked_listing(l@, l@.len() as int, index, disk, dry_run),
    }
}

/// What the walk does with the first `n` entries of a listing: the outcome
/// is the conjunction of what they contribute, and true for none.
pub open spec fn walked_listing(
    l: Seq<Entry>,
    n: int,
    index: IndexModel,
    disk: Seq<DiskFile>,
    dry_run: bool,
) -> WalkModel
    decreases l, n,
{
    if n <= 0 || n > l.len() {
        WalkModel { all_deleted: true, events: seq![], removed: seq![] }
    } else {
        let before = walked_listing(l, n - 1, index, disk, dry_run);
        let entry = walked_entry(l[n - 1], index, disk, dry_run);
        WalkModel {
            all_deleted: before.all_deleted && entry.all_deleted,
            events: before.events + entry.events,
            removed: before.removed + entry.removed,
        }
    }
}

/// Whether the files at two paths of the disk are the same.
fn same_on_disk(disk: &Disk, a: &[u8], b: &[u8]) -> (same: bool)
    ensures
        same == same_at(disk.files@, a@, b@),
{
    match disk.probe(a) {
        Some(x) => match disk.probe(b) {
            Some(y) => is_same_file(x, y),
            None => false,
        },
        None => false,
    }
}

/// Appends one line to the log.
fn log(events: &mut Vec<Event>, kind: EventKind, path: &[u8])
    ensures
        events_view(final(events)@) == events_view(old(events)@).push((kind, path@)),
{
    events.push(Event { kind, path: slice_to_vec(path) });
    assert(events_view(events@) =~= events_view(old(events)@).push((kind, path@)));
}

/// Carries out one decision: logs it and, in a real run and for a deletion,
/// removes the entry or logs that it could not be removed.
fn settle(
    decision: Decision,
    path: &[u8],
    removable: bool,
    dry_run: bool,
    events: &mut Vec<Event>,
    removed: &mut Vec<Vec<u8>>,
) -> (all_deleted: bool)
    ensures
        all_deleted == settled(decision, path@, removable, dry_run).all_deleted,
        events_view(final(events)@) == events_view(old(events)@) + settled(
            decision,
            path@,
            removable,
            dry_run,
        ).events,
        paths_view(final(removed)@) == paths_view(old(removed)@) + settled(
            decision,
            path@,
            removable,
            dry_run,
        ).removed,
{
    let ghost model = settled(decision, path@, removable, dry_run);
    match decision {
        Decision::DeleteJunk => log(events, EventKind::DeleteJunkFile, path),
        Decision::DeleteDuplicate => log(events, EventKind::DeleteDuplicatedFile, path),
        Decision::KeepDifferent => log(events, EventKind::DifferentContent, path),
        Decision::KeepOriginal => log(events, EventKind::OriginalFilename, path),
        Decision::DeleteEmptyDir => log(events, EventKind::DeleteEmptyDir, path),
        Decision::KeepDir => {},
        Decision::KeepUnreadable => {},
    }
    assert(events_view(events@) =~= events_view(old(events)@) + announced(decision, path@));
    if decision.removes_now(dry_run) {
        if removable {
            removed.push(slice_to_vec(path));
        } else {
            let kind = match decision {
                Decision::DeleteJunk => EventKind::DeleteJunkFileError,
                Decision::DeleteDuplicate => EventKind::DeleteDuplicatedFileError,
                _ => EventKind::DeleteEmptyDirError,
            };
            log(events, kind, path);
        }
    }
    assert(events_view(events@) =~= events_view(old(events)@) + model.events);
    assert(paths_view(removed@) =~= paths_view(old(removed)@) + model.removed);
    decision.contribution(dry_run, removable)
}

/// Walks one file.
fn walk_file(
    f: &FileNode,
    index: &FilenamePathIndex,
    disk: &Disk,
    dry_run: bool,
    events: &mut Vec<Event>,
    removed: &mut Vec<Vec<u8>>,
) -> (all_deleted: bool)
    requires
        index.wf(),
    ensures
        all_deleted == walked_file(*f, index@, disk.files@, dry_run).all_deleted,
        events_view(final(events)@) == events_view(old(events)@) + walked_file(
            *f,
            index@,
            disk.files@,
            dry_run,
        ).events,
        paths_view(final(removed)@) == paths_view(old(removed)@) + walked_file(
            *f,
            index@,
            disk.files@,
            dry_run,
        ).removed,
{
    let same = |candidate: &Vec<u8>| -> (same: bool)
        ensures
            same == same_at(disk.files@, candidate@, f.path@),
        { same_on_disk(disk, candidate.as_slice(), f.path.as_slice()) };
    let decision = decide_file(f.name.as_slice(), index, same);
    proof {
        let found = any_same(disk.files@, candidates(index@, f.name@), f.path@);
        if decision == Decision::DeleteDuplicate {
            let p = choose|p: Seq<u8>| index@[f.name@].contains(p) && judged(same, p, true);
            assert(candidates(index@, f.name@).contains(p) && same_at(disk.files@, p, f.path@));
        }
        if decision == Decision::KeepDifferent {
            assert forall|p: Seq<u8>| candidates(index@, f.name@).contains(p) implies !same_at(
                disk.files@,
                p,
                f.path@,
            ) by {
                assert(judged(same, p, false));
            }
        }
        assert(decision == file_decision(index@, f.name@, found));
    }
    settle(decision, f.path.as_slice(), f.removable, dry_run, events, removed)
}

/// Walks one entry of a listing.
fn walk_entry(
    e: &Entry,
    index: &FilenamePathIndex,
    disk: &Disk,
    dry_run: bool,
    events: &mut Vec<Event>,
    removed: &mut Vec<Vec<u8>>,
) -> (all_deleted: bool)
    requires
        index.wf(),
    ensures
        all_deleted == walked_entry(*e, index@, disk.files@, dry_run).all_deleted,
        events_view(final(events)@) == events_view(old(events)@) + walked_entry(
            *e,
            index@,
            disk.files@,
            dry_run,
        ).events,
        paths_view(final(removed)@) == paths_view(old(removed)@) + walked_entry(
            *e,
            index@,
            disk.files@,
            dry_run,
        ).removed,
    decreases e,
{
    match e {
        Entry::Unreadable => {
            let nowhere: Vec<u8> = Vec::new();
            log(events, EventKind::ReadDirEntryError, nowhere.as_slice());
            assert(nowhere@ =~= Seq::<u8>::empty());
            assert(events_view(events@) =~= events_view(old(events)@) + walked_entry(
                *e,
                index@,
                disk.files@,
                dry_run,
            ).events);
            assert(paths_view(removed@) =~= paths_view(old(removed)@) + walked_entry(
                *e,
                index@,
                disk.files@,
                dry_run,
            ).removed);
            Decision::KeepUnreadable.contribution(dry_run, false)
        },
        Entry::File(f) => walk_file(f, index, disk, dry_run, events, removed),
        Entry::Dir(d) => {
            let ghost inside = walked_dir(*d, index@, disk.files@, dry_run);
            let ghost own = settled(
                dir_decision(inside.all_deleted),
                d.path@,
                d.removable,
                dry_run,
            );
            let children_all_deleted = walk_dir(d, index, disk, dry_run, events, removed);
            let decision = decide_dir(children_all_deleted);
            let all_deleted = settle(
                decision,
                d.path.as_slice(),
                d.removable,
                dry_run,
                events,
                removed,
            );
            assert(events_view(events@) =~= events_view(old(events)@) + (inside.events
                + own.events));
            assert(paths_view(removed@) =~= paths_view(old(removed)@) + (inside.removed
                + own.removed));
            all_deleted
        },
    }
}

/// Walks inside one directory.
fn walk_dir(
    d: &DirNode,
    index: &FilenamePathIndex,
    disk: &Disk,
    dry_run: bool,
    events: &mut Vec<Event>,
    removed: &mut Vec<Vec<u8>>,
) -> (all_deleted: bool)
    requires
        index.wf(),
    ensures
        all_deleted == walked_dir(*d, index@, disk.files@, dry_run).all_deleted,
        events_view(final(events)@) == events_view(old(events)@) + walked_dir(
            *d,
            index@,
            disk.files@,
            dry_run,
        ).events,
        paths_view(final(removed)@) == paths_view(old(removed)@) + walked_dir(
            *d,
            index@,
            disk.files@,
            dry_run,
        ).removed,
    decreases d,
{
    match &d.listing {
        None => {
            log(events, EventKind::ReadDirError, d.path.as_slice());
            assert(events_view(events@) =~= events_view(old(events)@) + walked_dir(
                *d,
                index@,
                disk.files@,
                dry_run,
            ).events);
            assert(paths_view(removed@) =~= paths_view(old(removed)@) + walked_dir(
                *d,
                index@,
                disk.files@,
                dry_run,
            ).removed);
            Decision::KeepUnreadable.contribution(dry_run, false)
        },
        Some(l) => walk_listing(l, index, disk, dry_run, events, removed),
    }
}

/// Walks the entries of a listing in order.
fn walk_listing(
    l: &Vec<Entry>,
    index: &FilenamePathIndex,
    disk: &Disk,
    dry_run: bool,
    events: &mut Vec<Event>,
    removed: &mut Vec<Vec<u8>>,
) -> (all_deleted: bool)
    requires
        index.wf(),
    ensures
        all_deleted == walked_listing(
            l@,
            l@.len() as int,
            index@,
            disk.files@,
            dry_run,
        ).all_deleted,
        events_view(final(events)@) == events_view(old(events)@) + walked_listing(
            l@,
            l@.len() as int,
            index@,
            disk.files@,
            dry_run,
        ).events,
        paths_view(final(removed)@) == paths_view(old(removed)@) + walked_listing(
            l@,
            l@.len() as int,
            index@,
            disk.files@,
            dry_run,
        ).removed,
    decreases l,
{
    let mut tally = Tally::new();
    let mut i: usize = 0;
    assert(events_view(events@) =~= events_view(old(events)@) + Seq::empty());
    assert(paths_view(removed@) =~= paths_view(old(removed)@) + Seq::empty());
    while i < l.len()
        invariant
            i <= l@.len(),
            index.wf(),
            tally@ == walked_listing(l@, i as int, index@, disk.files@, dry_run).all_deleted,
            events_view(events@) == events_view(old(events)@) + walked_listing(
                l@,
                i as int,
                index@,
                disk.files@,
                dry_run,
            ).events,
            paths_view(removed@) == paths_view(old(removed)@) + walked_listing(
                l@,
                i as int,
                index@,
                disk.files@,
                dry_run,
            ).removed,
        decreases l@.len() - i,
    {
        let ghost before = walked_listing(l@, i as int, index@, disk.files@, dry_run);
        let ghost entry = walked_entry(l@[i as int], index@, disk.files@, dry_run);
        let contribution = walk_entry(&l[i], index, disk, dry_run, events, removed);
        tally.record(contribution);
        assert(events_view(events@) =~= events_view(old(events)@) + (before.events
            + entry.events));
        assert(paths_view(removed@) =~= paths_view(old(removed)@) + (before.removed
            + entry.removed));
        i = i + 1;
    }
    tally.all_deleted()
}

/// Reconciles the directory `dir` against the index of the reference tree:
/// deletes every file in and below it that is junk or that equals a
/// reference file of the same name, and every directory below it of which
/// nothing is left. `dir` itself stays; whether it is fully reconciled is
/// the outcome. With `dry_run` nothing is removed.
pub fn delete_duplicate_files(
    dir: &DirNode,
    index: &FilenamePathIndex,
    disk: &Disk,
    dry_run: bool,
) -> (report: WalkReport)
    requires
        index.wf(),
    ensures
        report@ == walked_dir(*dir, index@, disk.files@, dry_run),
{
    let mut events: Vec<Event> = Vec::new();
    let mut removed: Vec<Vec<u8>> = Vec::new();
    let all_deleted = walk_dir(dir, index, disk, dry_run, &mut events, &mut removed);
    let ghost model = walked_dir(*dir, index@, disk.files@, dry_run);
    assert(events_view(events@) =~= model.events);
    assert(paths_view(removed@) =~= model.removed);
    WalkReport { all_deleted, events, removed }
}

} // verus!
