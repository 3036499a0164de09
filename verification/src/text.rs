//! Conversion of raw payload bytes to UTF-8 text.

use vstd::prelude::*;
use vstd::utf8::decode_utf8;
use vstd::utf8::valid_utf8;

verus! {

/// Relies on std::str::from_utf8, which succeeds exactly when the bytes are
/// valid UTF-8 and then yields the characters they encode.
#[verifier::external_body]
pub(crate) fn utf8_to_text(bytes: &[u8]) -> (r: Option<String>)
    ensures
        r is Some <==> valid_utf8(bytes@),
        r is Some ==> r->0@ == decode_utf8(bytes@),
{
    match std::str::from_utf8(bytes) {
        Ok(s) => Some(s.to_owned()),
        Err(_) => None,
    }
}

/// A sequence of ASCII bytes is valid UTF-8 and decodes to one character
/// per byte.
pub proof fn lemma_ascii_bytes_decode(bytes: Seq<u8>)
    requires
        forall|i: int| 0 <= i < bytes.len() ==> bytes[i] < 128,
    ensures
        valid_utf8(bytes),
        decode_utf8(bytes) == Seq::new(bytes.len(), |i: int| (bytes[i] as u32) as char),
    decreases bytes.len(),
{
    if bytes.len() == 0 {
        assert(decode_utf8(bytes) =~= Seq::new(bytes.len(), |i: int| (bytes[i] as u32) as char));
    } else {
        let b = bytes[0];
        assert(b & 0x7f == b) by (bit_vector)
            requires
                b < 128,
        ;
        let rest = vstd::utf8::pop_first_scalar(bytes);
        assert(rest =~= bytes.subrange(1, bytes.len() as int));
        lemma_ascii_bytes_decode(rest);
        assert(decode_utf8(bytes) =~= Seq::new(bytes.len(), |i: int| (bytes[i] as u32) as char));
    }
}

} // verus!
