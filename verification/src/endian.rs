//! Sixty-four-bit integers as eight little-endian bytes.
use vstd::prelude::*;

verus! {

/// The integer that eight bytes hold, least significant byte first:
/// `b[0] + 256 * b[1] + 256^2 * b[2] + ... + 256^7 * b[7]`.
pub open spec fn le_u64(b: Seq<u8>) -> u64
    recommends
        b.len() == 8,
{
    (b[0] + 0x100 * b[1] + 0x1_0000 * b[2] + 0x100_0000 * b[3] + 0x1_0000_0000 * b[4]
        + 0x100_0000_0000 * b[5] + 0x1_0000_0000_0000 * b[6] + 0x100_0000_0000_0000 * b[7]) as u64
}

/// The eight bytes that hold `x`, least significant byte first: byte `i` is
/// `x / 256^i mod 256`.
pub open spec fn le_bytes(x: u64) -> Seq<u8> {
    seq![
        (x % 0x100) as u8,
        (x / 0x100 % 0x100) as u8,
        (x / 0x1_0000 % 0x100) as u8,
        (x / 0x100_0000 % 0x100) as u8,
        (x / 0x1_0000_0000 % 0x100) as u8,
        (x / 0x100_0000_0000 % 0x100) as u8,
        (x / 0x1_0000_0000_0000 % 0x100) as u8,
        (x / 0x100_0000_0000_0000 % 0x100) as u8,
    ]
}

/// The integer held in the eight bytes of `bytes` that start at `offset`.
pub open spec fn le_u64_at(bytes: Seq<u8>, offset: int) -> u64
    recommends
        0 <= offset,
        offset + 8 <= bytes.len(),
{
    le_u64(bytes.subrange(offset, offset + 8))
}

/// Encoding an integer and decoding the bytes gives the integer back.
pub proof fn lemma_le_bytes_decode(x: u64)
    ensures
        le_bytes(x).len() == 8,
        le_u64(le_bytes(x)) == x,
{
    let q1 = x / 0x100;
    let q2 = q1 / 0x100;
    let q3 = q2 / 0x100;
    let q4 = q3 / 0x100;
    let q5 = q4 / 0x100;
    let q6 = q5 / 0x100;
    let q7 = q6 / 0x100;
    assert(q2 == x / 0x1_0000);
    assert(q3 == x / 0x100_0000);
    assert(q4 == x / 0x1_0000_0000);
    assert(q5 == x / 0x100_0000_0000);
    assert(q6 == x / 0x1_0000_0000_0000);
    assert(q7 == x / 0x100_0000_0000_0000);
    assert(q7 < 0x100);
}

/// Decoding eight bytes and encoding the integer gives the bytes back.
pub proof fn lemma_le_u64_encode(b: Seq<u8>)
    requires
        b.len() == 8,
    ensures
        le_bytes(le_u64(b)) == b,
{
    let x = le_u64(b);
    let t7 = b[7] as int;
    let t6 = b[6] + 0x100 * t7;
    let t5 = b[5] + 0x100 * t6;
    let t4 = b[4] + 0x100 * t5;
    let t3 = b[3] + 0x100 * t4;
    let t2 = b[2] + 0x100 * t3;
    let t1 = b[1] + 0x100 * t2;
    let t0 = b[0] + 0x100 * t1;
    assert(x == t0);
    assert(x / 0x100 == t1);
    assert(t1 / 0x100 == t2);
    assert(t2 / 0x100 == t3);
    assert(t3 / 0x100 == t4);
    assert(t4 / 0x100 == t5);
    assert(t5 / 0x100 == t6);
    assert(t6 / 0x100 == t7);
    assert(x / 0x1_0000 == t2);
    assert(x / 0x100_0000 == t3);
    assert(x / 0x1_0000_0000 == t4);
    assert(x / 0x100_0000_0000 == t5);
    assert(x / 0x1_0000_0000_0000 == t6);
    assert(x / 0x100_0000_0000_0000 == t7);
    assert(le_bytes(x) =~= b);
}

/// Reads the integer held in the eight bytes of `data` that start at
/// `offset`.
pub fn read_u64_at(data: &[u8], offset: usize) -> (out: u64)
    requires
        offset + 8 <= data@.len(),
    ensures
        out == le_u64_at(data@, offset as int),
{
    let len: usize = data.len();
    assert(offset + 8 <= len);
    let b0: u64 = data[offset] as u64;
    let b1: u64 = data[offset + 1] as u64;
    let b2: u64 = data[offset + 2] as u64;
    let b3: u64 = data[offset + 3] as u64;
    let b4: u64 = data[offset + 4] as u64;
    let b5: u64 = data[offset + 5] as u64;
    let b6: u64 = data[offset + 6] as u64;
    let b7: u64 = data[offset + 7] as u64;
    b0 + 0x100 * b1 + 0x1_0000 * b2 + 0x100_0000 * b3 + 0x1_0000_0000 * b4 + 0x100_0000_0000 * b5
        + 0x1_0000_0000_0000 * b6 + 0x100_0000_0000_0000 * b7
}

/// Appends to `out` the eight bytes that hold `x`.
pub fn push_u64(out: &mut Vec<u8>, x: u64)
    ensures
        final(out)@ == old(out)@ + le_bytes(x),
{
    let ghost before = out@;
    out.push((x % 0x100) as u8);
    out.push((x / 0x100 % 0x100) as u8);
    out.push((x / 0x1_0000 % 0x100) as u8);
    out.push((x / 0x100_0000 % 0x100) as u8);
    out.push((x / 0x1_0000_0000 % 0x100) as u8);
    out.push((x / 0x100_0000_0000 % 0x100) as u8);
    out.push((x / 0x1_0000_0000_0000 % 0x100) as u8);
    out.push((x / 0x100_0000_0000_0000 % 0x100) as u8);
    assert(out@ =~= before + le_bytes(x));
}

} // verus!
