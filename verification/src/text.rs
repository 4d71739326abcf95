//! Small helpers on text and bytes that the other modules share.

use vstd::prelude::*;
use vstd::string::*;

verus! {

/// `String::push` of std: the character is appended at the end and nothing
/// else changes.
#[verifier::external_body]
pub(crate) fn push_char(s: &mut String, c: char)
    ensures
        final(s)@ == old(s)@.push(c),
{
    s.push(c);
}

/// Whether two texts hold the same characters.
pub fn text_equals(a: &str, b: &str) -> (same: bool)
    ensures
        same == (a@ == b@),
{
    let n: usize = a.unicode_len();
    if b.unicode_len() != n {
        return false;
    }
    let mut i: usize = 0;
    while i < n
        invariant
            n == a@.len(),
            n == b@.len(),
            i <= n,
            forall|j: int| 0 <= j < i ==> a@[j] == b@[j],
        decreases n - i,
    {
        if a.get_char(i) != b.get_char(i) {
            return false;
        }
        i = i + 1;
    }
    assert(a@ =~= b@);
    true
}

/// A byte that is no ASCII code, and where it stood.
#[derive(Debug, Clone, Copy, PartialEq, Eq, Structural)]
pub struct InvalidAscii {
    pub byte: u8,
    pub index: usize,
}

/// Whether every byte is an ASCII code.
pub open spec fn all_ascii(bytes: Seq<u8>) -> bool {
    forall|i: int| 0 <= i < bytes.len() ==> bytes[i] < 128
}

/// The text whose characters have the given ASCII codes.
pub open spec fn ascii_text(bytes: Seq<u8>) -> Seq<char> {
    Seq::new(bytes.len(), |i: int| bytes[i] as char)
}

/// Reads bytes as ASCII text. The result holds one character per byte, in
/// order; the first byte above 127 is reported instead, with its position.
pub fn u8_to_ascii(c: &[u8]) -> (text: Result<String, InvalidAscii>)
    ensures
        text is Ok <==> all_ascii(c@),
        match text {
            Ok(s) => s@ == ascii_text(c@),
            Err(e) => {
                &&& e.index < c@.len()
                &&& c@[e.index as int] == e.byte
                &&& e.byte >= 128
                &&& all_ascii(c@.take(e.index as int))
            },
        },
{
    let mut s = String::new();
    let n: usize = c.len();
    let mut i: usize = 0;
    while i < n
        invariant
            n == c@.len(),
            i <= n,
            all_ascii(c@.take(i as int)),
            s@ == ascii_text(c@.take(i as int)),
        decreases n - i,
    {
        let byte: u8 = c[i];
        if byte < 128 {
            push_char(&mut s, byte as char);
            proof {
                assert(c@.take(i as int + 1) =~= c@.take(i as int).push(byte));
                assert(ascii_text(c@.take(i as int + 1)) =~= ascii_text(c@.take(i as int)).push(
                    byte as char,
                ));
            }
        } else {
            assert(!all_ascii(c@)) by {
                assert(c@[i as int] >= 128);
            }
            return Err(InvalidAscii { byte, index: i });
        }
        i = i + 1;
    }
    assert(c@.take(n as int) =~= c@);
    Ok(s)
}

} // verus!
