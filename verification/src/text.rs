//! Text on its way to and from an interpreter that ends every string at its
//! first zero byte.

use vstd::prelude::*;
use vstd::slice::slice_subrange;
use vstd::utf8::{decode_utf8, encode_utf8, valid_utf8};

verus! {

/// A text cannot be written: it holds a zero byte, which would end it early.
#[derive(Clone, Copy, Debug, PartialEq, Eq, Structural)]
pub struct EncodingError {
    /// The index, in the bytes of the text, of the first zero byte.
    pub position: usize,
}

/// No byte of `bytes` is zero.
pub open spec fn nul_free(bytes: Seq<u8>) -> bool {
    forall|i: int| 0 <= i < bytes.len() ==> bytes[i] != 0
}

/// `at` is the index of the first zero byte of `bytes`.
pub open spec fn first_nul_at(bytes: Seq<u8>, at: int) -> bool {
    &&& 0 <= at < bytes.len()
    &&& bytes[at] == 0
    &&& forall|j: int| 0 <= j < at ==> bytes[j] != 0
}

/// The index of the first zero byte of `bytes`, if it has one.
pub open spec fn nul_position(bytes: Seq<u8>) -> Option<usize> {
    if nul_free(bytes) {
        None
    } else {
        Some((choose|at: int| first_nul_at(bytes, at)) as usize)
    }
}

/// What comes of writing `text`: nothing to object to, or the place of the
/// byte that forbids it.
pub open spec fn text_check(text: Seq<char>) -> Result<(), EncodingError> {
    match nul_position(encode_utf8(text)) {
        None => Ok(()),
        Some(position) => Err(EncodingError { position }),
    }
}

/// The bytes of `bytes` before its first zero byte; all of them if none is zero.
pub open spec fn until_nul(bytes: Seq<u8>) -> Seq<u8> {
    match nul_position(bytes) {
        None => bytes,
        Some(position) => bytes.subrange(0, position as int),
    }
}

/// The first zero byte is unique: an index that qualifies is the position.
pub proof fn lemma_first_nul_is_position(bytes: Seq<u8>, at: int)
    requires
        first_nul_at(bytes, at),
        bytes.len() <= usize::MAX,
    ensures
        nul_position(bytes) == Some(at as usize),
{
    let chosen = choose|c: int| first_nul_at(bytes, c);
    assert(first_nul_at(bytes, chosen));
    if chosen < at {
        assert(bytes[chosen] != 0);
    } else if at < chosen {
        assert(bytes[at] != 0);
    }
}

/// Finds the first zero byte of `bytes`.
pub fn find_nul(bytes: &[u8]) -> (found: Option<usize>)
    ensures
        found == nul_position(bytes@),
        found matches Some(at) ==> first_nul_at(bytes@, at as int),
{
    let mut i: usize = 0;
    while i < bytes.len()
        invariant
            i <= bytes@.len(),
            forall|j: int| 0 <= j < i ==> bytes@[j] != 0,
        decreases bytes@.len() - i,
    {
        if bytes[i] == 0 {
            proof {
                lemma_first_nul_is_position(bytes@, i as int);
            }
            return Some(i);
        }
        i = i + 1;
    }
    assert(nul_free(bytes@));
    None
}

/// Says whether `text` can be written, and where it fails if it cannot.
pub fn check_text(text: &str) -> (checked: Result<(), EncodingError>)
    ensures
        checked == text_check(text@),
{
    match find_nul(text.as_bytes()) {
        None => Ok(()),
        Some(position) => Err(EncodingError { position }),
    }
}

/// The text that `String::from_utf8_lossy` makes of `bytes`.
pub uninterp spec fn lossy_text(bytes: Seq<u8>) -> Seq<char>;

/// `String::from_utf8_lossy`, with its result made an owned string. The
/// result is a function of the bytes alone; on well-formed UTF-8 it is the
/// text those bytes encode, as the documentation of the function has it.
#[verifier::external_body]
fn from_utf8_lossy(bytes: &[u8]) -> (text: String)
    ensures
        text@ == lossy_text(bytes@),
        valid_utf8(bytes@) ==> text@ == decode_utf8(bytes@),
{
    String::from_utf8_lossy(bytes).into_owned()
}

/// The text that reading `bytes` back gives: what stands before the first
/// zero byte, with every ill-formed sequence replaced.
pub open spec fn text_read(bytes: Seq<u8>) -> Seq<char> {
    lossy_text(until_nul(bytes))
}

/// Reads a byte string of the interpreter as text. Never fails.
pub fn read_text(bytes: &[u8]) -> (text: String)
    ensures
        text@ == text_read(bytes@),
        valid_utf8(until_nul(bytes@)) ==> text@ == decode_utf8(until_nul(bytes@)),
{
    match find_nul(bytes) {
        None => from_utf8_lossy(bytes),
        Some(position) => {
            let head = slice_subrange(bytes, 0, position);
            from_utf8_lossy(head)
        },
    }
}

/// A text that can be written reads back as itself.
pub proof fn lemma_text_round_trip(text: Seq<char>)
    requires
        text_check(text) is Ok,
    ensures
        until_nul(encode_utf8(text)) == encode_utf8(text),
        valid_utf8(until_nul(encode_utf8(text))),
        decode_utf8(until_nul(encode_utf8(text))) == text,
{
    vstd::utf8::encode_utf8_valid_utf8(text);
    vstd::utf8::encode_utf8_decode_utf8(text);
}

} // verus!
