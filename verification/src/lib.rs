//! Reconciles a source directory tree against a reference tree.
//!
//! A file of the source tree is redundant when the reference tree holds a
//! file of the same base name and the same bytes; redundant files are
//! deleted, and so are the directories that this leaves empty. Junk files,
//! such as the metadata that operating systems scatter, are deleted wherever
//! they are met in the source tree and are ignored in the reference tree. A
//! dry run decides everything and removes nothing.
//!
//! The library decides; it never touches a file system. Each decision is a
//! function of plain values, so that a program can read directories and
//! files, ask the library entry by entry, and carry out the answers:
//!
//! * `junk` classifies base names;
//! * `compare` judges the sizes and the chunks of two files read in lockstep;
//! * `index` and `indexer` build the index of the reference tree, one
//!   visited entry at a time;
//! * `decision` decides about a file of the source tree, given its name
//!   and a way to compare it with a reference file, decides about
//!   directories, and tallies the outcome of a directory.
//!
//! The same decisions are also run as a whole over trees and files held in
//! memory (`tree`): `indexer::get_filename_path_map` walks a reference tree,
//! `compare::is_same_file` compares two file images, and
//! `walker::delete_duplicate_files` walks a source tree and reports what it
//! logged and removed. These are proved against mathematical descriptions of
//! the walks, and `walk_laws` states what follows for every tree.

pub mod bytes;
pub mod compare;
pub mod decision;
pub mod index;
pub mod indexer;
pub mod junk;
pub mod tree;
pub mod walk_laws;
pub mod walker;
