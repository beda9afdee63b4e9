//! Owned strings handed across the boundary, path decoding, and suffix
//! trimming.

use vstd::prelude::*;
use vstd::utf8::{decode_utf8, encode_utf8, valid_utf8};
use crate::error::IoFailure;

verus! {

/// The number of bytes in the UTF-8 encoding of `s`.
pub open spec fn byte_len(s: Seq<char>) -> nat {
    encode_utf8(s).len()
}

/// The 32-bit length field for a string of `n` bytes: the byte count
/// reduced modulo 2^32, as a C `unsigned int` conversion does.
pub open spec fn len_field(n: nat) -> u32 {
    (n % 0x1_0000_0000) as u32
}

/// A string handed to the caller with its length in bytes.
pub struct Str {
    pub str: String,
    pub len: u32,
}

impl Str {
    /// Wraps `s` with its byte length.
    pub fn new(s: String) -> (r: Str)
        ensures
            r.str@ == s@,
            r.len == len_field(byte_len(s@)),
    {
        let n = s.as_str().as_bytes().len();
        let len = ((n as u64) % 0x1_0000_0000u64) as u32;
        Str { str: s, len }
    }
}

/// Relies on std::str::from_utf8: it accepts exactly the byte strings that
/// are valid UTF-8, and their text is their decoding.
#[verifier::external_body]
pub(crate) fn utf8_text(b: &[u8]) -> (r: Option<String>)
    ensures
        r is Some <==> valid_utf8(b@),
        r is Some ==> r->0@ == decode_utf8(b@),
{
    std::str::from_utf8(b).ok().map(String::from)
}

/// Relies on String::pop: it removes and returns the last character, and
/// returns None on an empty string.
#[verifier::external_body]
fn pop_char(s: &mut String) -> (r: Option<char>)
    ensures
        old(s)@.len() == 0 ==> r is None && final(s)@ == old(s)@,
        old(s)@.len() > 0 ==> r == Some(old(s)@.last()) && final(s)@ == old(s)@.drop_last(),
{
    s.pop()
}

/// Decodes a path handed over by the caller. An absent path, or one that
/// is not UTF-8 text, is invalid input.
pub fn checked_path(path: Option<&[u8]>) -> (r: Result<String, IoFailure>)
    ensures
        match path {
            None => r == Err::<String, IoFailure>(IoFailure::spec_invalid_input()),
            Some(b) => if valid_utf8(b@) {
                r is Ok && r->Ok_0@ == decode_utf8(b@)
            } else {
                r == Err::<String, IoFailure>(IoFailure::spec_invalid_input())
            },
        },
{
    match path {
        None => Err(IoFailure::invalid_input()),
        Some(b) => match utf8_text(b) {
            Some(s) => Ok(s),
            None => Err(IoFailure::invalid_input()),
        },
    }
}

/// `s` without its last `n` characters; all of them go when `n` is larger
/// than `s`.
pub open spec fn without_suffix(s: Seq<char>, n: int) -> Seq<char> {
    if n < s.len() {
        s.subrange(0, s.len() - n)
    } else {
        Seq::empty()
    }
}

/// Whether `b` holds a zero byte.
fn holds_nul(b: &[u8]) -> (r: bool)
    ensures
        r == b@.contains(0u8),
{
    let mut i: usize = 0;
    while i < b.len()
        invariant
            i <= b@.len(),
            forall|j: int| 0 <= j < i ==> b@[j] != 0u8,
        decreases b@.len() - i,
    {
        if b[i] == 0u8 {
            assert(b@[i as int] == 0u8);
            return true;
        }
        i = i + 1;
    }
    false
}

/// Removes the last `size` characters of the path text in `path` (all of
/// them when `size` exceeds its length) and returns what is left. Returns
/// None when `path` is not UTF-8, or when what is left holds a zero byte
/// and so cannot be handed over as a C string.
pub fn cut_file_name(path: &[u8], size: usize) -> (r: Option<Str>)
    ensures
        !valid_utf8(path@) ==> r is None,
        valid_utf8(path@) ==> ({
            let kept = without_suffix(decode_utf8(path@), size as int);
            if encode_utf8(kept).contains(0u8) {
                r is None
            } else {
                r is Some && r->0.str@ == kept && r->0.len == len_field(byte_len(kept))
            }
        }),
{
    let mut text = match utf8_text(path) {
        Some(t) => t,
        None => return None,
    };
    let ghost full = text@;
    let len = text.as_str().unicode_len();
    let size = if size < len { size } else { len };
    let mut i: usize = 0;
    while i < size
        invariant
            size <= full.len(),
            i <= size,
            text@ == full.subrange(0, full.len() - i),
        decreases size - i,
    {
        pop_char(&mut text);
        i = i + 1;
    }
    assert(text@ =~= without_suffix(full, size as int));
    if holds_nul(text.as_str().as_bytes()) {
        None
    } else {
        Some(Str::new(text))
    }
}

} // verus!
