use dirdedup::bytes::bytes_eq;
use dirdedup::compare::{
    compare_chunks, is_same_file, sizes_agree, FileImage, Progress, CHUNK_SIZE,
};

fn patterned(len: usize) -> Vec<u8> {
    let mut bytes = Vec::new();
    let mut i: usize = 0;
    while i < len {
        bytes.push((i % 251) as u8);
        i += 1;
    }
    bytes
}

fn same(a: Vec<u8>, b: Vec<u8>) -> bool {
    is_same_file(&FileImage::of_content(a), &FileImage::of_content(b))
}

#[test]
fn chunk_size_is_one_kibibyte() {
    assert_eq!(CHUNK_SIZE, 1024);
}

#[test]
fn bytes_eq_compares_length_and_content() {
    assert!(bytes_eq(b"", b""));
    assert!(bytes_eq(b"abc", b"abc"));
    assert!(!bytes_eq(b"abc", b"abd"));
    assert!(!bytes_eq(b"abc", b"ab"));
    assert!(!bytes_eq(b"", b"a"));
}

#[test]
fn image_of_content_reports_its_length() {
    let image = FileImage::of_content(b"hello".to_vec());
    assert_eq!(image.size, Some(5));
    assert_eq!(image.content, Some(b"hello".to_vec()));
    let nothing = FileImage::unreadable();
    assert_eq!(nothing.size, None);
    assert_eq!(nothing.content, None);
}

#[test]
fn sizes_agree_only_when_both_known_and_equal() {
    assert!(sizes_agree(Some(0), Some(0)));
    assert!(sizes_agree(Some(5), Some(5)));
    assert!(!sizes_agree(Some(5), Some(6)));
    assert!(!sizes_agree(None, Some(5)));
    assert!(!sizes_agree(Some(5), None));
    assert!(!sizes_agree(None, None));
}

#[test]
fn equal_nonempty_chunks_ask_for_more() {
    assert_eq!(compare_chunks(Some(b"abc"), Some(b"abc")), Progress::ReadOn);
}

#[test]
fn two_empty_chunks_end_with_same() {
    assert_eq!(compare_chunks(Some(b""), Some(b"")), Progress::Same);
}

#[test]
fn unequal_chunks_end_with_differ() {
    assert_eq!(compare_chunks(Some(b"abc"), Some(b"abd")), Progress::Differ);
    assert_eq!(compare_chunks(Some(b"abc"), Some(b"ab")), Progress::Differ);
    assert_eq!(compare_chunks(Some(b"abc"), Some(b"")), Progress::Differ);
    assert_eq!(compare_chunks(Some(b""), Some(b"a")), Progress::Differ);
}

#[test]
fn a_failed_read_ends_with_differ() {
    assert_eq!(compare_chunks(None, Some(b"abc")), Progress::Differ);
    assert_eq!(compare_chunks(Some(b"abc"), None), Progress::Differ);
    assert_eq!(compare_chunks(None, None), Progress::Differ);
    assert_eq!(compare_chunks(None, Some(b"")), Progress::Differ);
}

#[test]
fn files_of_different_sizes_differ() {
    assert!(!same(b"hello".to_vec(), b"hello!".to_vec()));
    assert!(!same(Vec::new(), b"a".to_vec()));
    assert!(!same(patterned(2048), patterned(2049)));
}

#[test]
fn different_sizes_differ_whatever_the_content() {
    // The contents agree, but the reported sizes do not: the first stage decides.
    let a = FileImage { size: Some(5), content: Some(b"hello".to_vec()) };
    let b = FileImage { size: Some(6), content: Some(b"hello".to_vec()) };
    assert!(!is_same_file(&a, &b));
    // Not even readable content is needed for that verdict.
    let c = FileImage { size: Some(5), content: None };
    let d = FileImage { size: Some(6), content: None };
    assert!(!is_same_file(&c, &d));
}

#[test]
fn identical_files_are_same() {
    assert!(same(b"hello".to_vec(), b"hello".to_vec()));
    assert!(same(patterned(1), patterned(1)));
    assert!(same(patterned(1023), patterned(1023)));
    assert!(same(patterned(1024), patterned(1024)));
    assert!(same(patterned(1025), patterned(1025)));
    assert!(same(patterned(2048), patterned(2048)));
    assert!(same(patterned(5000), patterned(5000)));
}

#[test]
fn empty_files_are_same() {
    assert!(same(Vec::new(), Vec::new()));
}

#[test]
fn one_differing_byte_makes_files_differ() {
    let offsets: [usize; 8] = [0, 1, 1022, 1023, 1024, 1025, 2047, 2999];
    for offset in offsets {
        let a = patterned(3000);
        let mut b = patterned(3000);
        b[offset] = b[offset].wrapping_add(1);
        assert!(!same(a, b), "offset {}", offset);
    }
}

#[test]
fn one_differing_byte_in_a_short_file() {
    assert!(!same(b"hello".to_vec(), b"hellp".to_vec()));
    assert!(!same(b"hello".to_vec(), b"jello".to_vec()));
    assert!(!same(b"a".to_vec(), b"b".to_vec()));
}

#[test]
fn unknown_size_means_different() {
    let known = FileImage::of_content(b"hello".to_vec());
    let unknown = FileImage { size: None, content: Some(b"hello".to_vec()) };
    assert!(!is_same_file(&known, &unknown));
    assert!(!is_same_file(&unknown, &known));
    assert!(!is_same_file(&unknown, &unknown));
}

#[test]
fn unreadable_content_means_different() {
    let readable = FileImage::of_content(b"hello".to_vec());
    let closed = FileImage { size: Some(5), content: None };
    assert!(!is_same_file(&readable, &closed));
    assert!(!is_same_file(&closed, &readable));
    assert!(!is_same_file(&closed, &closed));
    assert!(!is_same_file(&FileImage::unreadable(), &FileImage::unreadable()));
}

#[test]
fn equal_sizes_with_contents_of_unequal_length_differ() {
    // The metadata of both says 5, but one file has grown since.
    let a = FileImage { size: Some(5), content: Some(b"hello".to_vec()) };
    let b = FileImage { size: Some(5), content: Some(b"hello world".to_vec()) };
    assert!(!is_same_file(&a, &b));
    assert!(!is_same_file(&b, &a));
    let long = FileImage { size: Some(5), content: Some(patterned(2048)) };
    let longer = FileImage { size: Some(5), content: Some(patterned(2049)) };
    assert!(!is_same_file(&long, &longer));
}

#[test]
fn a_file_is_the_same_as_itself() {
    let a = FileImage::of_content(patterned(1500));
    assert!(is_same_file(&a, &a));
}
