//! The junk classifier: which file names denote files that an operating
//! system or an application leaves behind.

use vstd::prelude::*;
use vstd::utf8::*;

verus! {

/// What the `junk` crate answers for a name taken as text: whether its junk
/// pattern matches the name.
pub uninterp spec fn junk_match(name: Seq<char>) -> bool;

/// Whether a base file name, given as bytes, is junk: it is text, and the
/// junk pattern set matches it. A name that is not UTF-8 is never junk.
pub open spec fn is_junk(name: Seq<u8>) -> bool {
    valid_utf8(name) && junk_match(decode_utf8(name))
}

/// Calls `junk::is`. The result is a function of the name alone: the crate
/// matches it against one fixed regular expression. It is known here only
/// under the name `junk_match`.
#[verifier::external_body]
fn matches_junk(name: &str) -> (junk: bool)
    ensures
        junk == junk_match(name@),
{
    junk::is(name)
}

/// Calls `core::str::from_utf8`. It yields the text exactly when the bytes
/// are well-formed UTF-8, and the text is then what those bytes decode to.
#[verifier::external_body]
fn utf8_text(bytes: &[u8]) -> (text: Option<&str>)
    ensures
        text is Some <==> valid_utf8(bytes@),
        text matches Some(t) ==> t@ == decode_utf8(bytes@),
{
    match core::str::from_utf8(bytes) {
        Ok(t) => Some(t),
        Err(_) => None,
    }
}

/// Classifies a base file name. Never fails: a name that is not text is
/// reported as not junk.
pub fn is_junk_filename(name: &[u8]) -> (junk: bool)
    ensures
        junk == is_junk(name@),
{
    match utf8_text(name) {
        Some(text) => matches_junk(text),
        None => false,
    }
}

} // verus!
