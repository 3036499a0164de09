//! The 4-byte ASCII type code of a chunk and its property bits.

use vstd::prelude::*;
use vstd::utf8::encode_utf8;

use crate::error::PngError;
use crate::text::lemma_ascii_bytes_decode;
use crate::text::utf8_to_text;

verus! {

/// True of an ASCII letter, upper or lower case.
pub open spec fn spec_is_alphabetic(b: u8) -> bool {
    65 <= b <= 90 || 97 <= b <= 122
}

/// True of an uppercase ASCII letter.
pub open spec fn spec_is_uppercase(b: u8) -> bool {
    65 <= b <= 90
}

/// True of a lowercase ASCII letter.
pub open spec fn spec_is_lowercase(b: u8) -> bool {
    97 <= b <= 122
}

/// True when a type code consists of exactly four ASCII alphabetic bytes.
/// This is all that constructing a type code demands.
pub open spec fn spec_type_alphabetic(t: Seq<u8>) -> bool {
    t.len() == 4 && (forall|i: int| 0 <= i < 4 ==> spec_is_alphabetic(#[trigger] t[i]))
}

/// Full validity: alphabetic bytes and an uppercase third byte, whose case
/// is the reserved property bit.  Parsing untrusted input demands this;
/// construction does not.
pub open spec fn spec_type_valid(t: Seq<u8>) -> bool {
    spec_type_alphabetic(t) && spec_is_uppercase(t[2])
}

/// A 4-byte ASCII type code.  The case of each byte carries one boolean
/// property: critical, public, reserved-bit-valid, safe-to-copy.
#[derive(Debug, Clone, Copy)]
pub struct ChunkType {
    bytes: [u8; 4],
}

impl PartialEq for ChunkType {
    fn eq(&self, other: &ChunkType) -> (r: bool) {
        let r = self.bytes[0] == other.bytes[0] && self.bytes[1] == other.bytes[1]
            && self.bytes[2] == other.bytes[2] && self.bytes[3] == other.bytes[3];
        proof {
            if r {
                assert(self@ =~= other@);
            }
        }
        r
    }
}

impl Eq for ChunkType {

}

impl vstd::std_specs::cmp::PartialEqSpecImpl for ChunkType {
    open spec fn obeys_eq_spec() -> bool {
        true
    }

    open spec fn eq_spec(&self, other: &ChunkType) -> bool {
        self@ == other@
    }
}

impl View for ChunkType {
    type V = Seq<u8>;

    closed spec fn view(&self) -> Seq<u8> {
        self.bytes@
    }
}

impl ChunkType {
    /// Every constructor establishes this: four ASCII alphabetic bytes.
    pub open spec fn wf(self) -> bool {
        spec_type_alphabetic(self@)
    }

    /// Builds a type code from four raw bytes; each must be ASCII
    /// alphabetic.
    pub fn from_bytes(bytes: [u8; 4]) -> (r: Result<ChunkType, PngError>)
        ensures
            r is Ok <==> spec_type_alphabetic(bytes@),
            r is Ok ==> r->Ok_0@ == bytes@ && r->Ok_0.wf(),
            r is Err ==> r->Err_0 == PngError::InvalidChunkType,
    {
        let mut i: usize = 0;
        while i < 4
            invariant
                i <= 4,
                forall|j: int| 0 <= j < i ==> spec_is_alphabetic(#[trigger] bytes@[j]),
            decreases 4 - i,
        {
            let b = bytes[i];
            if !(65 <= b && b <= 90 || 97 <= b && b <= 122) {
                return Err(PngError::InvalidChunkType);
            }
            i += 1;
        }
        Ok(ChunkType { bytes })
    }

    /// Builds a type code from its 4-character text form; the text must be
    /// exactly four ASCII alphabetic characters.
    pub fn from_text(s: &str) -> (r: Result<ChunkType, PngError>)
        ensures
            r is Ok <==> spec_type_alphabetic(encode_utf8(s@)),
            r is Ok ==> r->Ok_0@ == encode_utf8(s@) && r->Ok_0.wf(),
            r is Err ==> r->Err_0 == PngError::InvalidChunkType,
    {
        let bytes = s.as_bytes();
        if bytes.len() != 4 {
            return Err(PngError::InvalidChunkType);
        }
        let raw = [
            *vstd::slice::slice_index_get(bytes, 0),
            *vstd::slice::slice_index_get(bytes, 1),
            *vstd::slice::slice_index_get(bytes, 2),
            *vstd::slice::slice_index_get(bytes, 3),
        ];
        proof {
            assert(raw@ =~= encode_utf8(s@));
        }
        Self::from_bytes(raw)
    }

    /// The four raw bytes of the type code.
    pub fn bytes(&self) -> (r: [u8; 4])
        ensures
            r@ == self@,
    {
        self.bytes
    }

    /// The 4-character text form of the type code.
    pub fn to_text(&self) -> (r: String)
        requires
            self.wf(),
        ensures
            r@ == Seq::new(4, |i: int| (self@[i] as u32) as char),
    {
        let mut v: Vec<u8> = Vec::new();
        v.push(self.bytes[0]);
        v.push(self.bytes[1]);
        v.push(self.bytes[2]);
        v.push(self.bytes[3]);
        proof {
            assert(v@ =~= self@);
            lemma_ascii_bytes_decode(v@);
        }
        if let Some(t) = utf8_to_text(v.as_slice()) {
            proof {
                assert(t@ =~= Seq::new(4, |i: int| (self@[i] as u32) as char));
            }
            t
        } else {
            proof {
                assert(false);
            }
            String::new()
        }
    }

    /// Whether the whole code is valid: alphabetic with the reserved bit
    /// uppercase.
    pub fn is_valid(&self) -> (r: bool)
        ensures
            r == spec_type_valid(self@),
    {
        let mut i: usize = 0;
        while i < 4
            invariant
                i <= 4,
                forall|j: int| 0 <= j < i ==> spec_is_alphabetic(#[trigger] self@[j]),
            decreases 4 - i,
        {
            let b = self.bytes[i];
            if !(65 <= b && b <= 90 || 97 <= b && b <= 122) {
                return false;
            }
            i += 1;
        }
        self.is_reserved_bit_valid()
    }

    /// Whether the chunk is critical for display: first byte uppercase.
    pub fn is_critical(&self) -> (r: bool)
        ensures
            r == spec_is_uppercase(self@[0]),
    {
        let b = self.bytes[0];
        65 <= b && b <= 90
    }

    /// Whether the type is a registered public one: second byte uppercase.
    pub fn is_public(&self) -> (r: bool)
        ensures
            r == spec_is_uppercase(self@[1]),
    {
        let b = self.bytes[1];
        65 <= b && b <= 90
    }

    /// Whether the reserved property bit is valid: third byte uppercase.
    pub fn is_reserved_bit_valid(&self) -> (r: bool)
        ensures
            r == spec_is_uppercase(self@[2]),
    {
        let b = self.bytes[2];
        65 <= b && b <= 90
    }

    /// Whether the chunk may be copied by an editor that does not know the
    /// type: fourth byte lowercase.
    pub fn is_safe_to_copy(&self) -> (r: bool)
        ensures
            r == spec_is_lowercase(self@[3]),
    {
        let b = self.bytes[3];
        97 <= b && b <= 122
    }
}

} // verus!
