//! Access to the characters of ASCII text as bytes.

use vstd::prelude::*;
use vstd::string::is_ascii_spec_bytes;
use vstd::utf8::is_ascii_chars;

verus! {

/// Whether `bytes` holds the characters of `chars`, one byte for each.
pub open spec fn bytes_of_chars(bytes: Seq<u8>, chars: Seq<char>) -> bool {
    &&& bytes.len() == chars.len()
    &&& forall|i: int| 0 <= i < chars.len() ==> #[trigger] chars[i] == bytes[i] as char
}

/// The bytes of `text` where all of it is ASCII, and `None` where it holds
/// any other character.
pub(crate) fn ascii_bytes(text: &str) -> (r: Option<&[u8]>)
    ensures
        match r {
            Some(bytes) => is_ascii_chars(text@) && bytes_of_chars(bytes@, text@),
            None => !is_ascii_chars(text@),
        },
{
    if text.is_ascii() {
        let bytes = text.as_bytes();
        proof {
            is_ascii_spec_bytes(text);
            assert forall|i: int| 0 <= i < text@.len() implies #[trigger] text@[i] == bytes@[i]
                as char by {
                let c = text@[i];
                assert(bytes@[i] == c as u8);
            }
        }
        Some(bytes)
    } else {
        None
    }
}

} // verus!
