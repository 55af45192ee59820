//! Directory trees and file contents as plain values: what a walk over a
//! directory finds, and what the file system answers about a path.

use vstd::prelude::*;
use crate::bytes::bytes_eq;
use crate::compare::FileImage;

verus! {

/// Anything in a directory that is not itself a directory.
#[derive(Debug, PartialEq, Eq)]
pub struct FileNode {
    /// The base name.
    pub name: Vec<u8>,
    /// The full path.
    pub path: Vec<u8>,
    /// Whether the file system lets the file be removed.
    pub removable: bool,
}

/// A directory.
#[derive(Debug, PartialEq, Eq)]
pub struct DirNode {
    /// The base name.
    pub name: Vec<u8>,
    /// The full path.
    pub path: Vec<u8>,
    /// The entries of the directory; `None` when it cannot be listed.
    pub listing: Option<Vec<Entry>>,
    /// Whether the file system lets the directory be removed once it is empty.
    pub removable: bool,
}

/// One entry of a directory listing.
#[derive(Debug, PartialEq, Eq)]
pub enum Entry {
    /// The listing failed to produce this entry.
    Unreadable,
    /// A file.
    File(FileNode),
    /// A subdirectory.
    Dir(DirNode),
}

/// The image of the file at one path.
#[derive(Debug, PartialEq, Eq)]
pub struct DiskFile {
    /// The full path.
    pub path: Vec<u8>,
    /// What the file system answers about it.
    pub image: FileImage,
}

/// The files that can be read by path. A path that occurs twice means its
/// first occurrence.
#[derive(Debug, PartialEq, Eq)]
pub struct Disk {
    /// The known files.
    pub files: Vec<DiskFile>,
}

/// The image stored for `path` among `files`, if there is one.
pub open spec fn image_at(files: Seq<DiskFile>, path: Seq<u8>) -> Option<FileImage>
    decreases files.len(),
{
    if files.len() == 0 {
        None
    } else if files[0].path@ == path {
        Some(files[0].image)
    } else {
        image_at(files.skip(1), path)
    }
}

impl Disk {
    /// A disk with no files.
    pub fn new() -> (disk: Disk)
        ensures
            disk.files@.len() == 0,
    {
        Disk { files: Vec::new() }
    }

    /// Looks a path up.
    pub fn probe(&self, path: &[u8]) -> (found: Option<&FileImage>)
        ensures
            match found {
                Some(image) => image_at(self.files@, path@) == Some(*image),
                None => image_at(self.files@, path@) is None,
            },
    {
        let mut i: usize = 0;
        assert(self.files@.skip(0) =~= self.files@);
        while i < self.files.len()
            invariant
                i <= self.files@.len(),
                image_at(self.files@, path@) == image_at(self.files@.skip(i as int), path@),
            decreases self.files@.len() - i,
        {
            if bytes_eq(self.files[i].path.as_slice(), path) {
                return Some(&self.files[i].image);
            }
            assert(self.files@.skip(i as int).skip(1) =~= self.files@.skip(i + 1));
            i = i + 1;
        }
        None
    }
}

} // verus!
