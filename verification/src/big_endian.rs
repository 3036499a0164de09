//! Big-endian encoding of 32-bit unsigned integers, as the wire format
//! stores chunk lengths and checksums.

use vstd::prelude::*;

verus! {

/// The value of a 4-byte big-endian unsigned integer.
pub open spec fn u32_from_be_bytes(s: Seq<u8>) -> u32
    recommends
        s.len() == 4,
{
    ((s[0] as u32) << 24) | ((s[1] as u32) << 16) | ((s[2] as u32) << 8) | (s[3] as u32)
}

/// The 4-byte big-endian encoding of a 32-bit unsigned integer.
pub open spec fn u32_to_be_bytes(x: u32) -> Seq<u8> {
    seq![
        ((x >> 24) & 0xff) as u8,
        ((x >> 16) & 0xff) as u8,
        ((x >> 8) & 0xff) as u8,
        (x & 0xff) as u8,
    ]
}

/// Reading back the 4-byte big-endian encoding of a value yields the value.
pub proof fn lemma_u32_be_bytes_round_trip(x: u32)
    ensures
        u32_to_be_bytes(x).len() == 4,
        u32_from_be_bytes(u32_to_be_bytes(x)) == x,
{
    assert((((((x >> 24) & 0xff) as u8) as u32) << 24) | (((((x >> 16) & 0xff) as u8) as u32)
        << 16) | (((((x >> 8) & 0xff) as u8) as u32) << 8) | (((x & 0xff) as u8) as u32) == x)
        by (bit_vector);
}

/// Reads the big-endian 32-bit integer stored at the given offset.
pub fn read_u32_be(s: &[u8], offset: usize) -> (x: u32)
    requires
        offset + 4 <= s@.len(),
    ensures
        x == u32_from_be_bytes(s@.subrange(offset as int, offset as int + 4)),
{
    let _n: usize = s.len();
    let b0 = *vstd::slice::slice_index_get(s, offset);
    let b1 = *vstd::slice::slice_index_get(s, offset + 1);
    let b2 = *vstd::slice::slice_index_get(s, offset + 2);
    let b3 = *vstd::slice::slice_index_get(s, offset + 3);
    ((b0 as u32) << 24) | ((b1 as u32) << 16) | ((b2 as u32) << 8) | (b3 as u32)
}

/// Appends the 4-byte big-endian encoding of a value.
pub fn push_u32_be(v: &mut Vec<u8>, x: u32)
    ensures
        final(v)@ == old(v)@ + u32_to_be_bytes(x),
{
    proof {
        assert((x >> 24) & 0xff < 256 && (x >> 16) & 0xff < 256 && (x >> 8) & 0xff < 256 && x
            & 0xff < 256) by (bit_vector);
    }
    v.push(((x >> 24) & 0xff) as u8);
    v.push(((x >> 16) & 0xff) as u8);
    v.push(((x >> 8) & 0xff) as u8);
    v.push((x & 0xff) as u8);
    proof {
        assert(v@ =~= old(v)@ + u32_to_be_bytes(x));
    }
}

} // verus!
