//! Little-endian integer encodings: the primitive layer of the wire format.
//!
//! Every multi-byte integer on the wire is little-endian with a fixed width,
//! as the compact binary form of the packet codec demands: `u32` for the
//! variant tag of a tagged union, `u64` for a length prefix.

use vstd::prelude::*;

verus! {

/// The four little-endian bytes of a `u32`.
pub open spec fn enc_u32(n: u32) -> Seq<u8> {
    seq![
        (n & 0xff) as u8,
        ((n >> 8) & 0xff) as u8,
        ((n >> 16) & 0xff) as u8,
        ((n >> 24) & 0xff) as u8,
    ]
}

/// The `u32` denoted by four little-endian bytes.
pub open spec fn dec_u32(b: Seq<u8>) -> u32
    recommends
        b.len() == 4,
{
    (b[0] as u32) | ((b[1] as u32) << 8) | ((b[2] as u32) << 16) | ((b[3] as u32) << 24)
}

/// The eight little-endian bytes of a `u64`.
pub open spec fn enc_u64(n: u64) -> Seq<u8> {
    seq![
        (n & 0xff) as u8,
        ((n >> 8) & 0xff) as u8,
        ((n >> 16) & 0xff) as u8,
        ((n >> 24) & 0xff) as u8,
        ((n >> 32) & 0xff) as u8,
        ((n >> 40) & 0xff) as u8,
        ((n >> 48) & 0xff) as u8,
        ((n >> 56) & 0xff) as u8,
    ]
}

/// The `u64` denoted by eight little-endian bytes.
pub open spec fn dec_u64(b: Seq<u8>) -> u64
    recommends
        b.len() == 8,
{
    (b[0] as u64) | ((b[1] as u64) << 8) | ((b[2] as u64) << 16) | ((b[3] as u64) << 24)
        | ((b[4] as u64) << 32) | ((b[5] as u64) << 40) | ((b[6] as u64) << 48)
        | ((b[7] as u64) << 56)
}

/// Decoding inverts encoding: reading back the four bytes of `n` yields `n`.
pub proof fn lemma_u32_round_trip(n: u32)
    ensures
        dec_u32(enc_u32(n)) == n,
{
    let b0 = (n & 0xff) as u8;
    let b1 = ((n >> 8) & 0xff) as u8;
    let b2 = ((n >> 16) & 0xff) as u8;
    let b3 = ((n >> 24) & 0xff) as u8;
    assert((b0 as u32) | ((b1 as u32) << 8) | ((b2 as u32) << 16) | ((b3 as u32) << 24) == n)
        by (bit_vector)
        requires
            b0 == (n & 0xff) as u8,
            b1 == ((n >> 8) & 0xff) as u8,
            b2 == ((n >> 16) & 0xff) as u8,
            b3 == ((n >> 24) & 0xff) as u8,
    ;
}

/// Decoding inverts encoding for `u64` as well.
pub proof fn lemma_u64_round_trip(n: u64)
    ensures
        dec_u64(enc_u64(n)) == n,
{
    let b0 = (n & 0xff) as u8;
    let b1 = ((n >> 8) & 0xff) as u8;
    let b2 = ((n >> 16) & 0xff) as u8;
    let b3 = ((n >> 24) & 0xff) as u8;
    let b4 = ((n >> 32) & 0xff) as u8;
    let b5 = ((n >> 40) & 0xff) as u8;
    let b6 = ((n >> 48) & 0xff) as u8;
    let b7 = ((n >> 56) & 0xff) as u8;
    assert((b0 as u64) | ((b1 as u64) << 8) | ((b2 as u64) << 16) | ((b3 as u64) << 24)
        | ((b4 as u64) << 32) | ((b5 as u64) << 40) | ((b6 as u64) << 48) | ((b7 as u64) << 56)
        == n)
        by (bit_vector)
        requires
            b0 == (n & 0xff) as u8,
            b1 == ((n >> 8) & 0xff) as u8,
            b2 == ((n >> 16) & 0xff) as u8,
            b3 == ((n >> 24) & 0xff) as u8,
            b4 == ((n >> 32) & 0xff) as u8,
            b5 == ((n >> 40) & 0xff) as u8,
            b6 == ((n >> 48) & 0xff) as u8,
            b7 == ((n >> 56) & 0xff) as u8,
    ;
}

/// Append the little-endian bytes of `n` to `out`.
pub fn push_u32(out: &mut Vec<u8>, n: u32)
    ensures
        final(out)@ == old(out)@ + enc_u32(n),
{
    out.push((n & 0xff) as u8);
    out.push(((n >> 8) & 0xff) as u8);
    out.push(((n >> 16) & 0xff) as u8);
    out.push(((n >> 24) & 0xff) as u8);
    assert(out@ =~= old(out)@ + enc_u32(n));
}

/// Append the little-endian bytes of `n` to `out`.
pub fn push_u64(out: &mut Vec<u8>, n: u64)
    ensures
        final(out)@ == old(out)@ + enc_u64(n),
{
    out.push((n & 0xff) as u8);
    out.push(((n >> 8) & 0xff) as u8);
    out.push(((n >> 16) & 0xff) as u8);
    out.push(((n >> 24) & 0xff) as u8);
    out.push(((n >> 32) & 0xff) as u8);
    out.push(((n >> 40) & 0xff) as u8);
    out.push(((n >> 48) & 0xff) as u8);
    out.push(((n >> 56) & 0xff) as u8);
    assert(out@ =~= old(out)@ + enc_u64(n));
}

/// Read the `u32` whose little-endian bytes sit at `b[i..i + 4]`.
pub fn read_u32(b: &[u8], i: usize) -> (r: u32)
    requires
        i + 4 <= b@.len(),
    ensures
        r == dec_u32(b@.subrange(i as int, i as int + 4)),
{
    let x0 = b[i] as u32;
    let x1 = b[i + 1] as u32;
    let x2 = b[i + 2] as u32;
    let x3 = b[i + 3] as u32;
    let s = Ghost(b@.subrange(i as int, i as int + 4));
    assert(s@[0] == b@[i as int] && s@[1] == b@[i as int + 1] && s@[2] == b@[i as int + 2]
        && s@[3] == b@[i as int + 3]);
    x0 | (x1 << 8) | (x2 << 16) | (x3 << 24)
}

/// Read the `u64` whose little-endian bytes sit at `b[i..i + 8]`.
pub fn read_u64(b: &[u8], i: usize) -> (r: u64)
    requires
        i + 8 <= b@.len(),
    ensures
        r == dec_u64(b@.subrange(i as int, i as int + 8)),
{
    let x0 = b[i] as u64;
    let x1 = b[i + 1] as u64;
    let x2 = b[i + 2] as u64;
    let x3 = b[i + 3] as u64;
    let x4 = b[i + 4] as u64;
    let x5 = b[i + 5] as u64;
    let x6 = b[i + 6] as u64;
    let x7 = b[i + 7] as u64;
    let s = Ghost(b@.subrange(i as int, i as int + 8));
    assert(s@[0] == b@[i as int] && s@[1] == b@[i as int + 1] && s@[2] == b@[i as int + 2]
        && s@[3] == b@[i as int + 3] && s@[4] == b@[i as int + 4] && s@[5] == b@[i as int + 5]
        && s@[6] == b@[i as int + 6] && s@[7] == b@[i as int + 7]);
    x0 | (x1 << 8) | (x2 << 16) | (x3 << 24) | (x4 << 32) | (x5 << 40) | (x6 << 48) | (x7 << 56)
}

} // verus!
