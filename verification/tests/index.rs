use dirdedup::index::FilenamePathIndex;
use dirdedup::indexer::{get_filename_path_map, IndexError, Visit};
use dirdedup::tree::{DirNode, Entry, FileNode};

fn ref_file(name: &str, path: &str) -> Entry {
    Entry::File(FileNode {
        name: name.as_bytes().to_vec(),
        path: path.as_bytes().to_vec(),
        removable: true,
    })
}

fn ref_dir(name: &str, path: &str, entries: Vec<Entry>) -> Entry {
    Entry::Dir(DirNode {
        name: name.as_bytes().to_vec(),
        path: path.as_bytes().to_vec(),
        listing: Some(entries),
        removable: true,
    })
}

fn ref_locked_dir(name: &str, path: &str) -> Entry {
    Entry::Dir(DirNode {
        name: name.as_bytes().to_vec(),
        path: path.as_bytes().to_vec(),
        listing: None,
        removable: true,
    })
}

fn sorted_paths(index: &FilenamePathIndex, name: &str) -> Option<Vec<String>> {
    index.get(name.as_bytes()).map(|paths| {
        let mut texts: Vec<String> =
            paths.iter().map(|p| String::from_utf8(p.clone()).unwrap()).collect();
        texts.sort();
        texts
    })
}

fn paths_of(texts: &[&str]) -> Option<Vec<String>> {
    Some(texts.iter().map(|t| t.to_string()).collect())
}

#[test]
fn a_new_index_knows_no_name() {
    let index = FilenamePathIndex::new();
    assert_eq!(index.len(), 0);
    assert!(index.get(b"x.txt").is_none());
    assert!(index.get(b"").is_none());
}

#[test]
fn insert_records_a_path_under_its_name() {
    let mut index = FilenamePathIndex::new();
    index.insert(b"x.txt".to_vec(), b"ref/a/x.txt".to_vec());
    assert_eq!(index.len(), 1);
    assert_eq!(sorted_paths(&index, "x.txt"), paths_of(&["ref/a/x.txt"]));
    assert!(index.get(b"y.txt").is_none());
}

#[test]
fn paths_of_one_name_are_collected() {
    let mut index = FilenamePathIndex::new();
    index.insert(b"x.txt".to_vec(), b"ref/a/x.txt".to_vec());
    index.insert(b"y.txt".to_vec(), b"ref/a/y.txt".to_vec());
    index.insert(b"x.txt".to_vec(), b"ref/b/x.txt".to_vec());
    assert_eq!(index.len(), 2);
    assert_eq!(sorted_paths(&index, "x.txt"), paths_of(&["ref/a/x.txt", "ref/b/x.txt"]));
    assert_eq!(sorted_paths(&index, "y.txt"), paths_of(&["ref/a/y.txt"]));
}

#[test]
fn a_path_recorded_twice_is_held_once() {
    let mut index = FilenamePathIndex::new();
    index.insert(b"x.txt".to_vec(), b"ref/x.txt".to_vec());
    index.insert(b"x.txt".to_vec(), b"ref/x.txt".to_vec());
    assert_eq!(index.len(), 1);
    assert_eq!(index.get(b"x.txt").unwrap().len(), 1);
}

#[test]
fn names_are_compared_byte_for_byte() {
    let mut index = FilenamePathIndex::new();
    index.insert(b"Readme".to_vec(), b"ref/Readme".to_vec());
    assert!(index.get(b"readme").is_none());
    assert!(index.get(b"Readme ").is_none());
    assert!(index.get(b"Readm").is_none());
    assert!(index.get(b"Readme").is_some());
    index.insert(vec![0xff, 0x00], b"ref/odd".to_vec());
    assert!(index.get(&[0xff, 0x00]).is_some());
    assert!(index.get(&[0xff]).is_none());
}

#[test]
fn visit_records_a_plain_file() {
    let mut index = FilenamePathIndex::new();
    assert_eq!(index.visit(b"x.txt", b"ref/x.txt", false), Visit::Recorded);
    assert_eq!(sorted_paths(&index, "x.txt"), paths_of(&["ref/x.txt"]));
}

#[test]
fn visit_enters_a_directory_without_recording_it() {
    let mut index = FilenamePathIndex::new();
    assert_eq!(index.visit(b"photos", b"ref/photos", true), Visit::Entered);
    assert_eq!(index.len(), 0);
    assert!(index.get(b"photos").is_none());
}

#[test]
fn visit_prunes_junk() {
    let mut index = FilenamePathIndex::new();
    assert_eq!(index.visit(b".DS_Store", b"ref/.DS_Store", false), Visit::Pruned);
    assert_eq!(index.visit(b"__MACOSX", b"ref/__MACOSX", true), Visit::Pruned);
    assert_eq!(index.len(), 0);
}

#[test]
fn a_tree_is_indexed_by_file_name() {
    let tree = ref_dir(
        "ref",
        "ref",
        vec![
            ref_dir("a", "ref/a", vec![ref_file("x.txt", "ref/a/x.txt")]),
            ref_dir(
                "b",
                "ref/b",
                vec![ref_file("x.txt", "ref/b/x.txt"), ref_file("y.txt", "ref/b/y.txt")],
            ),
            ref_file("z.txt", "ref/z.txt"),
        ],
    );
    let index = get_filename_path_map(&tree).unwrap();
    assert_eq!(index.len(), 3);
    assert_eq!(sorted_paths(&index, "x.txt"), paths_of(&["ref/a/x.txt", "ref/b/x.txt"]));
    assert_eq!(sorted_paths(&index, "y.txt"), paths_of(&["ref/b/y.txt"]));
    assert_eq!(sorted_paths(&index, "z.txt"), paths_of(&["ref/z.txt"]));
}

#[test]
fn directories_are_never_indexed() {
    let tree = ref_dir("ref", "ref", vec![ref_dir("a", "ref/a", vec![])]);
    let index = get_filename_path_map(&tree).unwrap();
    assert_eq!(index.len(), 0);
    assert!(index.get(b"a").is_none());
    assert!(index.get(b"ref").is_none());
}

#[test]
fn junk_files_are_left_out_of_the_index() {
    let tree = ref_dir(
        "ref",
        "ref",
        vec![ref_file(".DS_Store", "ref/.DS_Store"), ref_file("x.txt", "ref/x.txt")],
    );
    let index = get_filename_path_map(&tree).unwrap();
    assert_eq!(index.len(), 1);
    assert!(index.get(b".DS_Store").is_none());
    assert!(index.get(b"x.txt").is_some());
}

#[test]
fn a_junk_directory_is_skipped_with_all_it_holds() {
    let tree = ref_dir(
        "ref",
        "ref",
        vec![
            ref_dir(
                "__MACOSX",
                "ref/__MACOSX",
                vec![
                    ref_file("x.txt", "ref/__MACOSX/x.txt"),
                    ref_dir("deep", "ref/__MACOSX/deep", vec![ref_file("y.txt", "ref/__MACOSX/deep/y.txt")]),
                ],
            ),
            ref_file("z.txt", "ref/z.txt"),
        ],
    );
    let index = get_filename_path_map(&tree).unwrap();
    assert_eq!(index.len(), 1);
    assert!(index.get(b"x.txt").is_none());
    assert!(index.get(b"y.txt").is_none());
    assert_eq!(sorted_paths(&index, "z.txt"), paths_of(&["ref/z.txt"]));
}

#[test]
fn a_junk_root_gives_an_empty_index() {
    let tree = ref_dir("__MACOSX", "__MACOSX", vec![ref_file("x.txt", "__MACOSX/x.txt")]);
    let index = get_filename_path_map(&tree).unwrap();
    assert_eq!(index.len(), 0);
}

#[test]
fn a_root_that_is_a_file_is_indexed() {
    let index = get_filename_path_map(&ref_file("x.txt", "x.txt")).unwrap();
    assert_eq!(sorted_paths(&index, "x.txt"), paths_of(&["x.txt"]));
}

#[test]
fn an_unreadable_entry_fails_the_index() {
    let tree = ref_dir(
        "ref",
        "ref",
        vec![ref_file("x.txt", "ref/x.txt"), Entry::Unreadable, ref_file("y.txt", "ref/y.txt")],
    );
    assert_eq!(get_filename_path_map(&tree).err(), Some(IndexError::UnreadableEntry));
    assert_eq!(get_filename_path_map(&Entry::Unreadable).err(), Some(IndexError::UnreadableEntry));
}

#[test]
fn an_unlistable_directory_fails_the_index() {
    let tree = ref_dir(
        "ref",
        "ref",
        vec![ref_dir("a", "ref/a", vec![ref_locked_dir("b", "ref/a/b")])],
    );
    assert_eq!(get_filename_path_map(&tree).err(), Some(IndexError::UnreadableDirectory));
    assert_eq!(
        get_filename_path_map(&ref_locked_dir("ref", "ref")).err(),
        Some(IndexError::UnreadableDirectory)
    );
}

#[test]
fn the_first_failure_is_reported() {
    let tree = ref_dir(
        "ref",
        "ref",
        vec![ref_locked_dir("a", "ref/a"), Entry::Unreadable],
    );
    assert_eq!(get_filename_path_map(&tree).err(), Some(IndexError::UnreadableDirectory));
    let tree = ref_dir(
        "ref",
        "ref",
        vec![Entry::Unreadable, ref_locked_dir("a", "ref/a")],
    );
    assert_eq!(get_filename_path_map(&tree).err(), Some(IndexError::UnreadableEntry));
}

#[test]
fn what_is_unreadable_inside_a_junk_directory_does_not_matter() {
    let tree = ref_dir(
        "ref",
        "ref",
        vec![
            ref_dir("__MACOSX", "ref/__MACOSX", vec![Entry::Unreadable]),
            ref_locked_dir(".Trashes", "ref/.Trashes"),
            ref_file("x.txt", "ref/x.txt"),
        ],
    );
    let index = get_filename_path_map(&tree).unwrap();
    assert_eq!(index.len(), 1);
    assert!(index.get(b"x.txt").is_some());
}
