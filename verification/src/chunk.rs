//! A single chunk record and its binary codec: length, type code, payload,
//! CRC-32 checksum.

use vstd::prelude::*;
use vstd::utf8::decode_utf8;
use vstd::utf8::valid_utf8;

use crate::big_endian::lemma_u32_be_bytes_round_trip;
use crate::big_endian::push_u32_be;
use crate::big_endian::read_u32_be;
use crate::big_endian::u32_from_be_bytes;
use crate::big_endian::u32_to_be_bytes;
use crate::chunk_type::spec_type_alphabetic;
use crate::chunk_type::spec_type_valid;
use crate::chunk_type::ChunkType;
use crate::crc32::crc32_checksum;
use crate::crc32::crc32_of;
use crate::error::PngError;
use crate::text::utf8_to_text;

verus! {

/// The mathematical content of a chunk: its type code bytes and its
/// payload bytes.  Length and checksum are derived, never stored.
pub struct ChunkModel {
    pub ty: Seq<u8>,
    pub data: Seq<u8>,
}

impl ChunkModel {
    /// An encodable chunk: an alphabetic type code and a payload whose
    /// length fits the 32-bit length field.
    pub open spec fn wf(self) -> bool {
        spec_type_alphabetic(self.ty) && self.data.len() <= u32::MAX
    }
}

/// The serialized form of a chunk carrying an arbitrary stored checksum:
/// big-endian payload length, 4 type bytes, payload, big-endian checksum.
pub open spec fn spec_chunk_bytes_with_crc(m: ChunkModel, crc: u32) -> Seq<u8> {
    u32_to_be_bytes(m.data.len() as u32) + m.ty + m.data + u32_to_be_bytes(crc)
}

/// The serialized form of a chunk, with the checksum recomputed over type
/// and payload, as encoding produces it.
pub open spec fn spec_chunk_bytes(m: ChunkModel) -> Seq<u8> {
    spec_chunk_bytes_with_crc(m, crc32_of(m.ty + m.data))
}

/// What decoding a byte stream at offset zero yields: the model of the
/// record that starts there, or the error the stream deserves.  Checks run
/// in this order: header present, type fully valid, payload and checksum
/// present, stored checksum equal to the recomputed one.
pub open spec fn spec_decode(s: Seq<u8>) -> Result<ChunkModel, PngError> {
    if s.len() < 8 {
        Err(PngError::TruncatedHeader)
    } else {
        let len = u32_from_be_bytes(s.subrange(0, 4)) as int;
        let ty = s.subrange(4, 8);
        if !spec_type_valid(ty) {
            Err(PngError::InvalidChunkType)
        } else if s.len() < 12 + len {
            Err(PngError::TruncatedChunk)
        } else {
            let data = s.subrange(8, 8 + len);
            let expected = crc32_of(ty + data);
            let actual = u32_from_be_bytes(s.subrange(8 + len, 12 + len));
            if expected == actual {
                Ok(ChunkModel { ty, data })
            } else {
                Err(PngError::CrcMismatch { expected, actual })
            }
        }
    }
}

/// One container record: a type code and an opaque payload.
#[derive(Debug)]
pub struct Chunk {
    chunk_type: ChunkType,
    data: Vec<u8>,
}

impl View for Chunk {
    type V = ChunkModel;

    closed spec fn view(&self) -> ChunkModel {
        ChunkModel { ty: self.chunk_type@, data: self.data@ }
    }
}

impl Chunk {
    /// Constructors establish this: an alphabetic type code and a payload
    /// whose length fits the 32-bit length field.
    pub open spec fn wf(self) -> bool {
        self@.wf()
    }

    /// Builds a chunk from a type code and a payload.
    pub fn new(chunk_type: ChunkType, data: Vec<u8>) -> (r: Chunk)
        requires
            chunk_type.wf(),
            data@.len() <= u32::MAX,
        ensures
            r@ == (ChunkModel { ty: chunk_type@, data: data@ }),
            r.wf(),
    {
        Chunk { chunk_type, data }
    }

    /// The payload length, as the length field stores it.
    pub fn length(&self) -> (r: u32)
        requires
            self.wf(),
        ensures
            r == self@.data.len(),
    {
        self.data.len() as u32
    }

    /// The chunk's type code.
    pub fn chunk_type(&self) -> (r: &ChunkType)
        ensures
            r@ == self@.ty,
    {
        &self.chunk_type
    }

    /// The payload bytes.
    pub fn data(&self) -> (r: &[u8])
        ensures
            r@ == self@.data,
    {
        self.data.as_slice()
    }

    /// The type bytes followed by the payload bytes: exactly what the
    /// checksum covers.
    fn type_and_data(&self) -> (r: Vec<u8>)
        ensures
            r@ == self@.ty + self@.data,
    {
        let mut buf: Vec<u8> = Vec::new();
        let tb = self.chunk_type.bytes();
        buf.push(tb[0]);
        buf.push(tb[1]);
        buf.push(tb[2]);
        buf.push(tb[3]);
        let mut i: usize = 0;
        while i < self.data.len()
            invariant
                i <= self@.data.len(),
                buf@ == self@.ty + self@.data.take(i as int),
            decreases self@.data.len() - i,
        {
            buf.push(self.data[i]);
            proof {
                assert(buf@ =~= self@.ty + self@.data.take(i + 1));
            }
            i += 1;
        }
        proof {
            assert(buf@ =~= self@.ty + self@.data);
        }
        buf
    }

    /// The CRC-32/ISO-HDLC checksum over the type code then the payload.
    pub fn crc(&self) -> (r: u32)
        ensures
            r == crc32_of(self@.ty + self@.data),
    {
        let buf = self.type_and_data();
        crc32_checksum(buf.as_slice())
    }

    /// The payload interpreted as UTF-8 text; fails exactly when the
    /// payload is not valid UTF-8.
    pub fn data_as_string(&self) -> (r: Result<String, PngError>)
        ensures
            r is Ok <==> valid_utf8(self@.data),
            r is Ok ==> r->Ok_0@ == decode_utf8(self@.data),
            r is Err ==> r->Err_0 == PngError::NotText,
    {
        match utf8_to_text(self.data.as_slice()) {
            Some(t) => Ok(t),
            None => Err(PngError::NotText),
        }
    }

    /// Serializes the chunk: big-endian length, type bytes, payload,
    /// big-endian checksum over type and payload.
    pub fn as_bytes(&self) -> (r: Vec<u8>)
        requires
            self.wf(),
        ensures
            r@ == spec_chunk_bytes(self@),
    {
        let mut out: Vec<u8> = Vec::new();
        push_u32_be(&mut out, self.length());
        let mut body = self.type_and_data();
        let crc = crc32_checksum(body.as_slice());
        out.append(&mut body);
        push_u32_be(&mut out, crc);
        proof {
            assert(out@ =~= spec_chunk_bytes(self@));
        }
        out
    }

    /// Parses one record laid out at offset zero of the given bytes,
    /// exactly as [`spec_decode`] describes, and never panics: every
    /// malformed, truncated or corrupted input is a reported error.
    pub fn decode(bytes: &[u8]) -> (r: Result<Chunk, PngError>)
        ensures
            r is Ok <==> spec_decode(bytes@) is Ok,
            r is Ok ==> r->Ok_0@ == spec_decode(bytes@)->Ok_0 && r->Ok_0.wf(),
            r is Err ==> r->Err_0 == spec_decode(bytes@)->Err_0,
    {
        let n = bytes.len();
        if n < 8 {
            return Err(PngError::TruncatedHeader);
        }
        let length = read_u32_be(bytes, 0);
        let ty_arr = [
            *vstd::slice::slice_index_get(bytes, 4),
            *vstd::slice::slice_index_get(bytes, 5),
            *vstd::slice::slice_index_get(bytes, 6),
            *vstd::slice::slice_index_get(bytes, 7),
        ];
        proof {
            assert(ty_arr@ =~= bytes@.subrange(4, 8));
        }
        let chunk_type = match ChunkType::from_bytes(ty_arr) {
            Ok(t) => t,
            Err(_) => {
                return Err(PngError::InvalidChunkType);
            },
        };
        if !chunk_type.is_valid() {
            return Err(PngError::InvalidChunkType);
        }
        let len = length as usize;
        if n < 12 || n - 12 < len {
            return Err(PngError::TruncatedChunk);
        }
        let data_slice = vstd::slice::slice_subrange(bytes, 8, 8 + len);
        let data: Vec<u8> = vstd::slice::slice_to_vec(data_slice);
        let stored = read_u32_be(bytes, 8 + len);
        let chunk = Chunk::new(chunk_type, data);
        let expected = chunk.crc();
        if expected != stored {
            return Err(PngError::CrcMismatch { expected, actual: stored });
        }
        Ok(chunk)
    }
}

/// Truncation safety: decoding any input that is shorter than a full
/// header, or shorter than the whole record its length field declares,
/// fails; it never yields a chunk (and the decoder never panics).
pub proof fn lemma_decode_truncated(s: Seq<u8>)
    requires
        s.len() < 12 + u32_from_be_bytes(s.subrange(0, 4)),
    ensures
        spec_decode(s) is Err,
{
}

/// Decoding a stream that starts with a serialized record reads exactly
/// that record, whatever follows it, and accepts it exactly when the
/// stored checksum equals the one recomputed over type and payload;
/// decoding then leaves the rest of the stream untouched.
pub proof fn lemma_decode_prefix(m: ChunkModel, crc: u32, tail: Seq<u8>)
    requires
        spec_type_valid(m.ty),
        m.data.len() <= u32::MAX,
    ensures
        spec_decode(spec_chunk_bytes_with_crc(m, crc) + tail) == (if crc == crc32_of(
            m.ty + m.data,
        ) {
            Ok::<ChunkModel, PngError>(m)
        } else {
            Err::<ChunkModel, PngError>(
                PngError::CrcMismatch { expected: crc32_of(m.ty + m.data), actual: crc },
            )
        }),
        (spec_chunk_bytes_with_crc(m, crc) + tail).skip(12 + m.data.len() as int) == tail,
{
    let s = spec_chunk_bytes_with_crc(m, crc) + tail;
    lemma_u32_be_bytes_round_trip(m.data.len() as u32);
    lemma_u32_be_bytes_round_trip(crc);
    assert(s.subrange(0, 4) =~= u32_to_be_bytes(m.data.len() as u32));
    assert(s.subrange(4, 8) =~= m.ty);
    assert(s.subrange(8, 8 + m.data.len() as int) =~= m.data);
    assert(s.subrange(8 + m.data.len() as int, 12 + m.data.len() as int) =~= u32_to_be_bytes(crc));
    assert(s.skip(12 + m.data.len() as int) =~= tail);
}

/// Whatever checksum a record stores, decoding accepts it exactly when it
/// equals the checksum recomputed over type and payload; any record whose
/// stored checksum was altered is rejected with a mismatch that names both
/// values.
pub proof fn lemma_decode_stored_crc(m: ChunkModel, crc: u32)
    requires
        spec_type_valid(m.ty),
        m.data.len() <= u32::MAX,
    ensures
        spec_decode(spec_chunk_bytes_with_crc(m, crc)) == (if crc == crc32_of(m.ty + m.data) {
            Ok::<ChunkModel, PngError>(m)
        } else {
            Err::<ChunkModel, PngError>(
                PngError::CrcMismatch { expected: crc32_of(m.ty + m.data), actual: crc },
            )
        }),
{
    lemma_decode_prefix(m, crc, Seq::empty());
    assert(spec_chunk_bytes_with_crc(m, crc) + Seq::empty() =~= spec_chunk_bytes_with_crc(m, crc));
}

/// Round-trip: decoding the encoding of any chunk with a fully valid type
/// yields the chunk unchanged.
pub proof fn lemma_decode_encode_round_trip(m: ChunkModel)
    requires
        spec_type_valid(m.ty),
        m.data.len() <= u32::MAX,
    ensures
        spec_decode(spec_chunk_bytes(m)) == Ok::<ChunkModel, PngError>(m),
{
    lemma_decode_stored_crc(m, crc32_of(m.ty + m.data));
}

} // verus!
