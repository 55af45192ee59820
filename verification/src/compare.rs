//! File equality: whether two files hold the same bytes.
//!
//! A comparison runs in two stages. The sizes that the file system reports
//! are compared first; only if both are known and equal is any content read.
//! The contents are then read from both files in lockstep, one chunk from
//! each at a time, and every pair of chunks is judged by `compare_chunks`.
//! Whatever cannot be shown equal counts as different.

use vstd::prelude::*;
use crate::bytes::bytes_eq;

verus! {

/// How many bytes are asked of each file per read.
pub const CHUNK_SIZE: usize = 1024;

/// What the file system answers about one path.
#[derive(Debug, PartialEq, Eq)]
pub struct FileImage {
    /// The size in the file's metadata; `None` when the metadata cannot be read.
    pub size: Option<u64>,
    /// The bytes that reading the file to its end yields; `None` when the
    /// file cannot be opened or a read fails.
    pub content: Option<Vec<u8>>,
}

/// What a pair of chunks says about the two files.
#[derive(Clone, Copy, Debug, PartialEq, Eq)]
pub enum Progress {
    /// The files differ, or a read failed: the comparison ends with "different".
    Differ,
    /// Both files ended together with nothing left to compare: they are equal.
    Same,
    /// The chunks agree and more may follow: read the next pair.
    ReadOn,
}

/// The file is an ordinary readable one: its metadata and its content are
/// both available and the size is the number of bytes.
pub open spec fn intact(f: FileImage) -> bool {
    f.size matches Some(n) && f.content matches Some(bytes) && n == bytes@.len()
}

/// Two files are the same when both sizes are known and equal and both
/// contents can be read and are equal byte for byte.
pub open spec fn same_file(a: FileImage, b: FileImage) -> bool {
    &&& a.size matches Some(m) && b.size matches Some(n) && m == n
    &&& a.content matches Some(x) && b.content matches Some(y) && x@ == y@
}

/// The first stage on its own: content is read only if this holds.
pub open spec fn sizes_match(a: Option<u64>, b: Option<u64>) -> bool {
    a matches Some(m) && b matches Some(n) && m == n
}

/// What one read handed back: the bytes, or `None` for a failed read.
pub open spec fn read_view(chunk: Option<&[u8]>) -> Option<Seq<u8>> {
    match chunk {
        Some(bytes) => Some(bytes@),
        None => None,
    }
}

/// The judgement on one pair of reads.
pub open spec fn chunk_progress(a: Option<Seq<u8>>, b: Option<Seq<u8>>) -> Progress {
    match (a, b) {
        (Some(x), Some(y)) => if x != y {
            Progress::Differ
        } else if x.len() == 0 {
            Progress::Same
        } else {
            Progress::ReadOn
        },
        _ => Progress::Differ,
    }
}

/// The chunk that a read at `offset` yields from a file holding `data`: up
/// to `CHUNK_SIZE` bytes, fewer only at the end of the file.
pub open spec fn chunk_at(data: Seq<u8>, offset: int) -> Seq<u8> {
    if data.len() - offset > CHUNK_SIZE {
        data.subrange(offset, offset + CHUNK_SIZE)
    } else {
        data.subrange(offset, data.len() as int)
    }
}

impl FileImage {
    /// The image of an ordinary readable file with the given content.
    pub fn of_content(content: Vec<u8>) -> (image: FileImage)
        ensures
            image.size == Some(content@.len() as u64),
            image.content == Some(content),
            intact(image),
    {
        FileImage { size: Some(content.len() as u64), content: Some(content) }
    }

    /// The image of a path about which the file system answers nothing.
    pub fn unreadable() -> (image: FileImage)
        ensures
            image.size is None,
            image.content is None,
    {
        FileImage { size: None, content: None }
    }
}

/// First stage of a comparison: whether the reported sizes allow the files
/// to be equal. A size that could not be obtained never does.
pub fn sizes_agree(a: Option<u64>, b: Option<u64>) -> (agree: bool)
    ensures
        agree == sizes_match(a, b),
{
    match (a, b) {
        (Some(m), Some(n)) => m == n,
        _ => false,
    }
}

/// Second stage, one step: judges the pair of chunks that one read from each
/// file produced. A failed read, chunks of unequal length and chunks with
/// unequal bytes all end the comparison with "different"; two empty chunks
/// end it with "same".
pub fn compare_chunks(a: Option<&[u8]>, b: Option<&[u8]>) -> (progress: Progress)
    ensures
        progress == chunk_progress(read_view(a), read_view(b)),
{
    match (a, b) {
        (Some(x), Some(y)) => {
            if !bytes_eq(x, y) {
                Progress::Differ
            } else if x.len() == 0 {
                Progress::Same
            } else {
                Progress::ReadOn
            }
        },
        _ => Progress::Differ,
    }
}

/// The chunk of `data` that starts at `offset`.
fn next_chunk(data: &[u8], offset: usize) -> (chunk: &[u8])
    requires
        offset <= data@.len(),
    ensures
        chunk@ == chunk_at(data@, offset as int),
{
    let end: usize = if data.len() - offset > CHUNK_SIZE {
        offset + CHUNK_SIZE
    } else {
        data.len()
    };
    &data[offset..end]
}

/// Decides whether two files are the same, reading both in lockstep chunks.
pub fn is_same_file(a: &FileImage, b: &FileImage) -> (same: bool)
    ensures
        same == same_file(*a, *b),
{
    if !sizes_agree(a.size, b.size) {
        return false;
    }
    let x: &Vec<u8> = match &a.content {
        Some(x) => x,
        None => {
            return false;
        },
    };
    let y: &Vec<u8> = match &b.content {
        Some(y) => y,
        None => {
            return false;
        },
    };
    let mut offset: usize = 0;
    loop
        invariant
            sizes_match(a.size, b.size),
            a.content == Some(*x),
            b.content == Some(*y),
            offset <= x@.len(),
            offset <= y@.len(),
            x@.take(offset as int) == y@.take(offset as int),
        decreases x@.len() - offset,
    {
        let chunk_a = next_chunk(x.as_slice(), offset);
        let chunk_b = next_chunk(y.as_slice(), offset);
        match compare_chunks(Some(chunk_a), Some(chunk_b)) {
            Progress::Differ => {
                assert(x@ == y@ ==> chunk_a@ == chunk_b@);
                return false;
            },
            Progress::Same => {
                assert(x@ =~= x@.take(offset as int));
                assert(y@ =~= y@.take(offset as int));
                return true;
            },
            Progress::ReadOn => {
                assert(offset + chunk_a@.len() <= x.len());
                let ghost next = offset + chunk_a@.len();
                assert(x@.take(next) =~= x@.take(offset as int) + chunk_a@);
                assert(y@.take(next) =~= y@.take(offset as int) + chunk_b@);
                offset = offset + chunk_a.len();
            },
        }
    }
}

/// The verdict of the second stage on a run of paired reads, judged pair by
/// pair in order: that of the first pair that does not ask for more, and
/// none while every pair asks for more.
pub open spec fn lockstep_verdict(reads: Seq<(Option<Seq<u8>>, Option<Seq<u8>>)>) -> Option<bool>
    decreases reads.len(),
{
    if reads.len() == 0 {
        None
    } else {
        match chunk_progress(reads[0].0, reads[0].1) {
            Progress::Differ => Some(false),
            Progress::Same => Some(true),
            Progress::ReadOn => lockstep_verdict(reads.skip(1)),
        }
    }
}

/// Reads that are judged "same" have earned it: up to the pair that decided,
/// no read failed and every chunk of one file equalled the chunk of the
/// other, and at that pair both files had come to their end. This holds
/// however the reads cut the files into chunks.
pub proof fn lemma_same_verdict_is_earned(reads: Seq<(Option<Seq<u8>>, Option<Seq<u8>>)>)
    requires
        lockstep_verdict(reads) == Some(true),
    ensures
        exists|k: int|
            {
                &&& 0 <= k < reads.len()
                &&& #[trigger] reads[k] == (Some(Seq::<u8>::empty()), Some(Seq::<u8>::empty()))
                &&& forall|j: int|
                    0 <= j < k ==> (#[trigger] reads[j]).0 is Some && reads[j].0 == reads[j].1
            },
    decreases reads.len(),
{
    match chunk_progress(reads[0].0, reads[0].1) {
        Progress::Same => {
            assert(reads[0].0->0 =~= Seq::<u8>::empty());
            assert(reads[0].1->0 =~= Seq::<u8>::empty());
            assert(reads[0] == (Some(Seq::<u8>::empty()), Some(Seq::<u8>::empty())));
        },
        _ => {
            let rest = reads.skip(1);
            lemma_same_verdict_is_earned(rest);
            let k = choose|k: int|
                {
                    &&& 0 <= k < rest.len()
                    &&& #[trigger] rest[k] == (Some(Seq::<u8>::empty()), Some(Seq::<u8>::empty()))
                    &&& forall|j: int|
                        0 <= j < k ==> (#[trigger] rest[j]).0 is Some && rest[j].0 == rest[j].1
                };
            assert(reads[k + 1] == rest[k]);
            assert forall|j: int| 0 <= j < k + 1 implies (#[trigger] reads[j]).0 is Some
                && reads[j].0 == reads[j].1 by {
                if j > 0 {
                    assert(reads[j] == rest[j - 1]);
                }
            }
        },
    }
}

/// Files whose sizes differ are different, whatever they hold: the verdict
/// falls at the first stage, before any content is read.
pub proof fn lemma_sizes_differ(a: FileImage, b: FileImage)
    requires
        a.size != b.size,
    ensures
        !sizes_match(a.size, b.size),
        !same_file(a, b),
{
}

/// Two intact files with identical bytes are the same. Empty files are
/// included.
pub proof fn lemma_identical_bytes(a: FileImage, b: FileImage)
    requires
        intact(a),
        intact(b),
        a.content->0@ == b.content->0@,
    ensures
        same_file(a, b),
{
}

/// Two files that differ at one byte offset are different, even when their
/// sizes agree.
pub proof fn lemma_one_byte_differs(a: FileImage, b: FileImage, offset: int)
    requires
        a.content matches Some(x) && b.content matches Some(y) && 0 <= offset < x@.len()
            && offset < y@.len() && x@[offset] != y@[offset],
    ensures
        !same_file(a, b),
{
}

} // verus!
