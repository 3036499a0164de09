//! The container: a fixed 8-byte signature followed by an ordered sequence
//! of chunks, parsed from and serialized to a byte stream.

use vstd::prelude::*;
use vstd::utf8::encode_utf8;

use crate::chunk::spec_chunk_bytes;
use crate::chunk::spec_decode;
use crate::chunk::Chunk;
use crate::chunk::ChunkModel;
use crate::chunk_type::spec_type_valid;
use crate::error::PngError;

verus! {

/// The fixed signature that every serialized container starts with.
pub open spec fn spec_signature() -> Seq<u8> {
    seq![137u8, 80u8, 78u8, 71u8, 13u8, 10u8, 26u8, 10u8]
}

/// The models of a sequence of chunks, in order.
pub open spec fn spec_models(chunks: Seq<Chunk>) -> Seq<ChunkModel> {
    Seq::new(chunks.len(), |i: int| chunks[i]@)
}

/// What parsing a stream of back-to-back chunk records yields: their
/// models in order, or the error of the first record that fails.
pub open spec fn spec_parse_chunks(s: Seq<u8>) -> Result<Seq<ChunkModel>, PngError>
    decreases s.len(),
{
    if s.len() == 0 {
        Ok(Seq::empty())
    } else {
        match spec_decode(s) {
            Err(e) => Err(e),
            Ok(m) => {
                match spec_parse_chunks(s.skip(12 + m.data.len() as int)) {
                    Err(e) => Err(e),
                    Ok(rest) => Ok(seq![m] + rest),
                }
            },
        }
    }
}

/// What parsing a full container stream yields: a signature check, then
/// the chunk records until the stream is exhausted.
pub open spec fn spec_parse(s: Seq<u8>) -> Result<Seq<ChunkModel>, PngError> {
    if s.len() < 8 || s.subrange(0, 8) != spec_signature() {
        Err(PngError::BadSignature)
    } else {
        spec_parse_chunks(s.skip(8))
    }
}

/// The concatenated serialized forms of the given chunks, in order.
pub open spec fn spec_serialize_chunks(ms: Seq<ChunkModel>) -> Seq<u8>
    decreases ms.len(),
{
    if ms.len() == 0 {
        Seq::empty()
    } else {
        spec_chunk_bytes(ms[0]) + spec_serialize_chunks(ms.drop_first())
    }
}

/// The full serialized container: the signature, then every chunk.
pub open spec fn spec_serialize(ms: Seq<ChunkModel>) -> Seq<u8> {
    spec_signature() + spec_serialize_chunks(ms)
}

/// The position of the first chunk whose type code equals the query, if
/// any chunk's does.
pub open spec fn spec_first_match(ms: Seq<ChunkModel>, q: Seq<u8>) -> Option<int>
    decreases ms.len(),
{
    if ms.len() == 0 {
        None
    } else if ms[0].ty == q {
        Some(0)
    } else {
        match spec_first_match(ms.drop_first(), q) {
            Some(i) => Some(1 + i),
            None => None,
        }
    }
}

proof fn lemma_first_match_at(ms: Seq<ChunkModel>, q: Seq<u8>, i: int)
    requires
        0 <= i < ms.len(),
        ms[i].ty == q,
        forall|j: int| 0 <= j < i ==> ms[j].ty != q,
    ensures
        spec_first_match(ms, q) == Some(i),
    decreases ms.len(),
{
    if i > 0 {
        lemma_first_match_at(ms.drop_first(), q, i - 1);
    }
}

proof fn lemma_first_match_none(ms: Seq<ChunkModel>, q: Seq<u8>)
    requires
        forall|j: int| 0 <= j < ms.len() ==> ms[j].ty != q,
    ensures
        spec_first_match(ms, q) is None,
    decreases ms.len(),
{
    if ms.len() > 0 {
        lemma_first_match_none(ms.drop_first(), q);
    }
}

/// True of every chunk's type code comparing equal to the query bytes.
fn type_matches(c: &Chunk, q: &[u8]) -> (b: bool)
    requires
        c.wf(),
    ensures
        b == (c@.ty == q@),
{
    if q.len() != 4 {
        return false;
    }
    let tb = c.chunk_type().bytes();
    let b = tb[0] == *vstd::slice::slice_index_get(q, 0) && tb[1] == *vstd::slice::slice_index_get(
        q,
        1,
    ) && tb[2] == *vstd::slice::slice_index_get(q, 2) && tb[3] == *vstd::slice::slice_index_get(
        q,
        3,
    );
    proof {
        if b {
            assert(c@.ty =~= q@);
        }
    }
    b
}

/// The container: an ordered sequence of chunks behind the signature.
#[derive(Debug)]
pub struct Png {
    chunks: Vec<Chunk>,
}

impl View for Png {
    type V = Seq<ChunkModel>;

    closed spec fn view(&self) -> Seq<ChunkModel> {
        spec_models(self.chunks@)
    }
}

impl Png {
    /// Every chunk held is well formed.
    pub open spec fn wf(self) -> bool {
        forall|i: int| 0 <= i < self@.len() ==> (#[trigger] self@[i]).wf()
    }

    /// A container with the signature and no chunks yet.
    pub fn new() -> (r: Png)
        ensures
            r@ == Seq::<ChunkModel>::empty(),
            r.wf(),
    {
        let r = Png { chunks: Vec::new() };
        proof {
            assert(r@ =~= Seq::<ChunkModel>::empty());
        }
        r
    }

    /// Parses a full byte stream: the signature, then chunk records until
    /// the input is exhausted.  Fails exactly as [`spec_parse`] says, and
    /// never panics, whatever the input.
    pub fn parse(bytes: &[u8]) -> (r: Result<Png, PngError>)
        ensures
            r is Ok <==> spec_parse(bytes@) is Ok,
            r is Ok ==> r->Ok_0@ == spec_parse(bytes@)->Ok_0 && r->Ok_0.wf(),
            r is Err ==> r->Err_0 == spec_parse(bytes@)->Err_0,
    {
        let n = bytes.len();
        let signature = [137u8, 80u8, 78u8, 71u8, 13u8, 10u8, 26u8, 10u8];
        if n < 8 {
            return Err(PngError::BadSignature);
        }
        let mut i: usize = 0;
        while i < 8
            invariant
                i <= 8,
                n == bytes@.len(),
                8 <= n,
                signature@ == spec_signature(),
                forall|j: int| 0 <= j < i ==> bytes@[j] == spec_signature()[j],
            decreases 8 - i,
        {
            if *vstd::slice::slice_index_get(bytes, i) != signature[i] {
                proof {
                    assert(bytes@.subrange(0, 8)[i as int] != spec_signature()[i as int]);
                }
                return Err(PngError::BadSignature);
            }
            i += 1;
        }
        proof {
            assert(bytes@.subrange(0, 8) =~= spec_signature());
        }
        let mut chunks: Vec<Chunk> = Vec::new();
        let mut offset: usize = 8;
        while offset < n
            invariant
                8 <= offset <= n == bytes@.len(),
                bytes@.subrange(0, 8) == spec_signature(),
                forall|k: int| 0 <= k < chunks@.len() ==> (#[trigger] chunks@[k]).wf(),
                match spec_parse_chunks(bytes@.skip(offset as int)) {
                    Ok(rest) => spec_parse_chunks(bytes@.skip(8)) == Ok::<_, PngError>(
                        spec_models(chunks@) + rest,
                    ),
                    Err(e) => spec_parse_chunks(bytes@.skip(8)) == Err::<Seq<ChunkModel>, _>(e),
                },
            decreases n - offset,
        {
            let rest = vstd::slice::slice_subrange(bytes, offset, n);
            proof {
                assert(rest@ =~= bytes@.skip(offset as int));
            }
            match Chunk::decode(rest) {
                Err(e) => {
                    proof {
                        assert(spec_decode(bytes@.skip(offset as int)) == Err::<
                            ChunkModel,
                            PngError,
                        >(e));
                        assert(spec_parse_chunks(bytes@.skip(offset as int)) == Err::<
                            Seq<ChunkModel>,
                            PngError,
                        >(e));
                        assert(spec_parse(bytes@) == Err::<Seq<ChunkModel>, PngError>(e));
                    }
                    return Err(e);
                },
                Ok(chunk) => {
                    let step = 12 + (chunk.length() as usize);
                    proof {
                        let s = bytes@.skip(offset as int);
                        assert(s.skip(12 + chunk@.data.len() as int) =~= bytes@.skip(
                            offset + step,
                        ));
                        assert(spec_models(chunks@.push(chunk)) =~= spec_models(chunks@) + seq![
                            chunk@,
                        ]);
                        match spec_parse_chunks(bytes@.skip(offset + step)) {
                            Ok(rest2) => {
                                assert(spec_models(chunks@) + (seq![chunk@] + rest2) =~= spec_models(
                                    chunks@.push(chunk),
                                ) + rest2);
                            },
                            Err(_) => {},
                        }
                    }
                    chunks.push(chunk);
                    offset += step;
                },
            }
        }
        proof {
            assert(bytes@.skip(offset as int) =~= Seq::<u8>::empty());
            assert(spec_models(chunks@) + Seq::<ChunkModel>::empty() =~= spec_models(chunks@));
        }
        Ok(Png { chunks })
    }

    /// The chunks held, in order.
    pub fn chunks(&self) -> (r: &Vec<Chunk>)
        ensures
            r@.len() == self@.len(),
            forall|i: int| 0 <= i < r@.len() ==> (#[trigger] r@[i])@ == self@[i],
    {
        &self.chunks
    }

    /// Appends a chunk at the end of the sequence.
    pub fn append_chunk(&mut self, chunk: Chunk)
        requires
            old(self).wf(),
            chunk.wf(),
        ensures
            final(self)@ == old(self)@.push(chunk@),
            final(self).wf(),
    {
        self.chunks.push(chunk);
        proof {
            assert(self@ =~= old(self)@.push(chunk@));
        }
    }

    /// Removes and returns the first chunk whose type code's text form
    /// equals the query; fails without mutating when no chunk matches.
    pub fn remove_chunk(&mut self, ty: &str) -> (r: Result<Chunk, PngError>)
        requires
            old(self).wf(),
        ensures
            final(self).wf(),
            ({
                let q = encode_utf8(ty@);
                match spec_first_match(old(self)@, q) {
                    Some(i) => r is Ok && r->Ok_0@ == old(self)@[i] && final(self)@ == old(
                        self,
                    )@.remove(i),
                    None => r == Err::<Chunk, PngError>(PngError::ChunkNotFound) && final(self)@
                        == old(self)@,
                }
            }),
    {
        let q = ty.as_bytes();
        let mut i: usize = 0;
        while i < self.chunks.len()
            invariant
                *self == *old(self),
                self.wf(),
                i <= self@.len(),
                q@ == encode_utf8(ty@),
                forall|j: int| 0 <= j < i ==> (#[trigger] self@[j]).ty != q@,
            decreases self@.len() - i,
        {
            proof {
                assert(self@[i as int].wf());
            }
            if type_matches(&self.chunks[i], q) {
                proof {
                    lemma_first_match_at(self@, q@, i as int);
                }
                let c = self.chunks.remove(i);
                proof {
                    assert(self@ =~= old(self)@.remove(i as int));
                }
                return Ok(c);
            }
            i += 1;
        }
        proof {
            lemma_first_match_none(self@, q@);
        }
        Err(PngError::ChunkNotFound)
    }

    /// A reference to the first chunk whose type code's text form equals
    /// the query, if any matches.
    pub fn chunk_by_type(&self, ty: &str) -> (r: Option<&Chunk>)
        requires
            self.wf(),
        ensures
            ({
                let q = encode_utf8(ty@);
                match spec_first_match(self@, q) {
                    Some(i) => r is Some && r->0@ == self@[i],
                    None => r is None,
                }
            }),
    {
        let q = ty.as_bytes();
        let mut i: usize = 0;
        while i < self.chunks.len()
            invariant
                self.wf(),
                i <= self@.len(),
                q@ == encode_utf8(ty@),
                forall|j: int| 0 <= j < i ==> (#[trigger] self@[j]).ty != q@,
            decreases self@.len() - i,
        {
            proof {
                assert(self@[i as int].wf());
            }
            if type_matches(&self.chunks[i], q) {
                proof {
                    lemma_first_match_at(self@, q@, i as int);
                }
                return Some(&self.chunks[i]);
            }
            i += 1;
        }
        proof {
            lemma_first_match_none(self@, q@);
        }
        None
    }

    /// Serializes the container: the signature, then every chunk's
    /// serialized form, in sequence order.
    pub fn as_bytes(&self) -> (r: Vec<u8>)
        requires
            self.wf(),
        ensures
            r@ == spec_serialize(self@),
    {
        let mut out: Vec<u8> = Vec::new();
        out.push(137);
        out.push(80);
        out.push(78);
        out.push(71);
        out.push(13);
        out.push(10);
        out.push(26);
        out.push(10);
        proof {
            assert(out@ =~= spec_signature());
            assert(self@.take(0) =~= Seq::<ChunkModel>::empty());
        }
        let mut i: usize = 0;
        while i < self.chunks.len()
            invariant
                self.wf(),
                i <= self@.len(),
                out@ == spec_signature() + spec_serialize_chunks(self@.take(i as int)),
            decreases self@.len() - i,
        {
            proof {
                assert(self@[i as int].wf());
            }
            let mut cb = self.chunks[i].as_bytes();
            out.append(&mut cb);
            proof {
                lemma_serialize_chunks_snoc(self@.take(i as int), self@[i as int]);
                assert(self@.take(i + 1) =~= self@.take(i as int).push(self@[i as int]));
                assert(out@ =~= spec_signature() + spec_serialize_chunks(self@.take(i + 1)));
            }
            i += 1;
        }
        proof {
            assert(self@.take(self@.len() as int) =~= self@);
        }
        out
    }
}

proof fn lemma_serialize_chunks_snoc(ms: Seq<ChunkModel>, m: ChunkModel)
    ensures
        spec_serialize_chunks(ms.push(m)) == spec_serialize_chunks(ms) + spec_chunk_bytes(m),
    decreases ms.len(),
{
    if ms.len() == 0 {
        assert(ms.push(m)[0] == m);
        assert(ms.push(m).drop_first() =~= Seq::<ChunkModel>::empty());
        assert(spec_serialize_chunks(Seq::<ChunkModel>::empty()) == Seq::<u8>::empty());
        assert(spec_serialize_chunks(ms.push(m)) == spec_chunk_bytes(m) + Seq::<u8>::empty());
        assert(spec_chunk_bytes(m) + Seq::<u8>::empty() =~= spec_chunk_bytes(m));
        assert(Seq::<u8>::empty() + spec_chunk_bytes(m) =~= spec_chunk_bytes(m));
    } else {
        let h = spec_chunk_bytes(ms[0]);
        let t = spec_serialize_chunks(ms.drop_first());
        assert(ms.push(m)[0] == ms[0]);
        assert(ms.push(m).drop_first() =~= ms.drop_first().push(m));
        lemma_serialize_chunks_snoc(ms.drop_first(), m);
        assert(spec_serialize_chunks(ms.push(m)) == h + (t + spec_chunk_bytes(m)));
        assert(h + (t + spec_chunk_bytes(m)) =~= (h + t) + spec_chunk_bytes(m));
    }
}

/// True of every chunk model that both encoding and strict re-parsing
/// accept: a fully valid type code and a payload whose length fits the
/// length field.
pub open spec fn spec_models_encodable(ms: Seq<ChunkModel>) -> bool {
    forall|i: int| 0 <= i < ms.len() ==> spec_type_valid((#[trigger] ms[i]).ty) && ms[i].wf()
}

proof fn lemma_parse_chunks_round_trip(ms: Seq<ChunkModel>)
    requires
        spec_models_encodable(ms),
    ensures
        spec_parse_chunks(spec_serialize_chunks(ms)) == Ok::<Seq<ChunkModel>, PngError>(ms),
    decreases ms.len(),
{
    if ms.len() == 0 {
        assert(spec_parse_chunks(spec_serialize_chunks(ms)) == Ok::<Seq<ChunkModel>, PngError>(
            Seq::empty(),
        ));
        assert(ms =~= Seq::<ChunkModel>::empty());
    } else {
        let m = ms[0];
        let tail = spec_serialize_chunks(ms.drop_first());
        let s = spec_serialize_chunks(ms);
        assert(s == spec_chunk_bytes(m) + tail);
        crate::chunk::lemma_decode_prefix(m, crate::crc32::crc32_of(m.ty + m.data), tail);
        assert(s.len() > 0);
        lemma_parse_chunks_round_trip(ms.drop_first());
        assert(seq![m] + ms.drop_first() =~= ms);
    }
}

/// Signature gate: parsing fails on any input whose first 8 bytes differ
/// from the fixed signature, whatever the remainder holds.
pub proof fn lemma_parse_signature_gate(s: Seq<u8>)
    requires
        s.len() < 8 || s.subrange(0, 8) != spec_signature(),
    ensures
        spec_parse(s) == Err::<Seq<ChunkModel>, PngError>(PngError::BadSignature),
{
}

/// Round-trip at the container level: parsing the serialized form of any
/// sequence of encodable chunks yields exactly that sequence.  Appending
/// chunks and then serializing and re-parsing therefore reproduces the
/// container unchanged.
pub proof fn lemma_parse_serialize_round_trip(ms: Seq<ChunkModel>)
    requires
        spec_models_encodable(ms),
    ensures
        spec_parse(spec_serialize(ms)) == Ok::<Seq<ChunkModel>, PngError>(ms),
{
    let s = spec_serialize(ms);
    assert(s.subrange(0, 8) =~= spec_signature());
    assert(s.skip(8) =~= spec_serialize_chunks(ms));
    lemma_parse_chunks_round_trip(ms);
}

} // verus!
