//! Little-endian 32-bit primitives shared by the wire payloads.
//!
//! Positions and velocities cross the wire as IEEE-754 single-precision
//! values; this crate carries them as their 32-bit patterns and lays the
//! four bytes of each out least-significant first, which is exactly the
//! byte image of the value on the wire.

use vstd::prelude::*;

verus! {

/// The four little-endian bytes of a 32-bit value.
pub open spec fn le_bytes_of_u32(v: u32) -> Seq<u8> {
    seq![
        (v % 256) as u8,
        ((v / 256) % 256) as u8,
        ((v / 65536) % 256) as u8,
        ((v / 16777216) % 256) as u8,
    ]
}

/// The 32-bit value read from four little-endian bytes.
pub open spec fn u32_of_le_bytes(b0: u8, b1: u8, b2: u8, b3: u8) -> u32 {
    (b0 + 256 * (b1 as int) + 65536 * (b2 as int) + 16777216 * (b3 as int)) as u32
}

/// Reading back the four bytes of a value gives the value: the two spec
/// functions above are mutually inverse.
pub proof fn lemma_u32_le_round_trip(v: u32)
    ensures
        u32_of_le_bytes(
            le_bytes_of_u32(v)[0],
            le_bytes_of_u32(v)[1],
            le_bytes_of_u32(v)[2],
            le_bytes_of_u32(v)[3],
        ) == v,
{
    assert(v % 256 + 256 * ((v / 256) % 256) + 65536 * ((v / 65536) % 256) + 16777216 * ((v
        / 16777216) % 256) == v) by (bit_vector);
}

/// Two values with the same four little-endian bytes are the same value.
pub proof fn lemma_le_bytes_injective(v1: u32, v2: u32)
    requires
        le_bytes_of_u32(v1) == le_bytes_of_u32(v2),
    ensures
        v1 == v2,
{
    lemma_u32_le_round_trip(v1);
    lemma_u32_le_round_trip(v2);
}

/// Appends the four little-endian bytes of `v` to `out`.
pub fn push_u32_le(out: &mut Vec<u8>, v: u32)
    ensures
        final(out)@ == old(out)@ + le_bytes_of_u32(v),
{
    out.push((v % 256) as u8);
    out.push(((v / 256) % 256) as u8);
    out.push(((v / 65536) % 256) as u8);
    out.push(((v / 16777216) % 256) as u8);
    proof {
        assert(out@ =~= old(out)@ + le_bytes_of_u32(v));
    }
}

/// Reads the 32-bit value whose four little-endian bytes start at `i`.
pub fn read_u32_le(data: &[u8], i: usize) -> (v: u32)
    requires
        i + 4 <= data@.len(),
    ensures
        v == u32_of_le_bytes(data@[i as int], data@[i + 1], data@[i + 2], data@[i + 3]),
        le_bytes_of_u32(v) == data@.subrange(i as int, i + 4),
{
    let b0 = data[i];
    let b1 = data[i + 1];
    let b2 = data[i + 2];
    let b3 = data[i + 3];
    let v: u32 = b0 as u32 + 256 * (b1 as u32) + 65536 * (b2 as u32) + 16777216 * (b3 as u32);
    proof {
        let w = (b0 + 256 * (b1 as int) + 65536 * (b2 as int) + 16777216 * (b3 as int)) as u32;
        assert(((b0 + 256 * (b1 as int) + 65536 * (b2 as int) + 16777216 * (b3 as int)) as u32)
            % 256 == b0 && (((b0 + 256 * (b1 as int) + 65536 * (b2 as int) + 16777216 * (
        b3 as int)) as u32) / 256) % 256 == b1 && (((b0 + 256 * (b1 as int) + 65536 * (
        b2 as int) + 16777216 * (b3 as int)) as u32) / 65536) % 256 == b2 && (((b0 + 256 * (
        b1 as int) + 65536 * (b2 as int) + 16777216 * (b3 as int)) as u32) / 16777216) % 256
            == b3) by (bit_vector);
        assert(le_bytes_of_u32(w) =~= seq![b0, b1, b2, b3]);
        assert(data@.subrange(i as int, i + 4) =~= seq![b0, b1, b2, b3]);
    }
    v
}

} // verus!
