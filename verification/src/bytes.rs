//! Big-endian encoding of the processor's 32-bit words in its byte memory.

use vstd::prelude::*;

verus! {

/// The two's-complement 32-bit integer whose big-endian bytes are `b0 b1 b2 b3`.
pub open spec fn i32_from_be(b0: u8, b1: u8, b2: u8, b3: u8) -> i32 {
    (((b0 as u32) << 24u32) | ((b1 as u32) << 16u32) | ((b2 as u32) << 8u32) | (b3 as u32)) as i32
}

/// The first four bytes of `s` read as a big-endian two's-complement integer.
pub open spec fn decode_i32(s: Seq<u8>) -> i32 {
    i32_from_be(s[0], s[1], s[2], s[3])
}

/// The four big-endian bytes of `v`, most significant first.
pub open spec fn encode_i32(v: i32) -> Seq<u8> {
    seq![
        ((v as u32) >> 24u32) as u8,
        ((v as u32) >> 16u32) as u8,
        ((v as u32) >> 8u32) as u8,
        v as u8,
    ]
}

/// `mem` with the bytes from index `at` on overwritten by `bytes`.
pub open spec fn splice(mem: Seq<u8>, at: int, bytes: Seq<u8>) -> Seq<u8> {
    mem.subrange(0, at) + bytes + mem.subrange(at + bytes.len(), mem.len() as int)
}

/// Splicing one byte more is splicing the shorter sequence and then setting that byte.
pub proof fn lemma_splice_push(mem: Seq<u8>, at: int, bytes: Seq<u8>, b: u8)
    requires
        0 <= at,
        at + bytes.len() < mem.len(),
    ensures
        splice(mem, at, bytes.push(b)) == splice(mem, at, bytes).update(at + bytes.len(), b),
{
    assert(splice(mem, at, bytes.push(b)) =~= splice(mem, at, bytes).update(at + bytes.len(), b));
}

/// Splicing `x` and then `y` right after it is splicing `x + y`.
pub proof fn lemma_splice_concat(mem: Seq<u8>, at: int, x: Seq<u8>, y: Seq<u8>)
    requires
        0 <= at,
        at + x.len() + y.len() <= mem.len(),
    ensures
        splice(splice(mem, at, x), at + x.len(), y) == splice(mem, at, x + y),
{
    assert(splice(splice(mem, at, x), at + x.len(), y) =~= splice(mem, at, x + y));
}

/// The lowest byte of a decoded word is its last byte.
pub proof fn lemma_decode_low_byte(s: Seq<u8>)
    requires
        s.len() >= 4,
    ensures
        (decode_i32(s) & 0xFFi32) as u8 == s[3],
{
    let b0 = s[0];
    let b1 = s[1];
    let b2 = s[2];
    let b3 = s[3];
    assert((i32_from_be(b0, b1, b2, b3) & 0xFFi32) as u8 == b3) by (bit_vector);
}

/// Reads the first four bytes of `bytes` as a big-endian two's-complement integer.
pub fn bytes_to_i32(bytes: &[u8]) -> (the_int: i32)
    requires
        bytes@.len() >= 4,
    ensures
        the_int == decode_i32(bytes@),
{
    let b0: u8 = bytes[0];
    let b1: u8 = bytes[1];
    let b2: u8 = bytes[2];
    let b3: u8 = bytes[3];
    proof {
        assert(0 <= ((b2 as i32) << 8i32) <= 0xFF00) by (bit_vector);
        assert(0 <= ((b1 as i32) << 16i32) <= 0xFF_0000) by (bit_vector);
        assert(-0x8000_0000 <= ((b0 as i32) << 24i32) <= 0x7F00_0000) by (bit_vector);
        assert((b3 as i32) + ((b2 as i32) << 8i32) + ((b1 as i32) << 16i32) + ((b0 as i32)
            << 24i32) == i32_from_be(b0, b1, b2, b3)) by (bit_vector);
    }
    let mut the_int: i32 = 0;
    the_int = the_int + (b3 as i32);
    the_int = the_int + ((b2 as i32) << 8i32);
    the_int = the_int + ((b1 as i32) << 16i32);
    the_int = the_int + ((b0 as i32) << 24i32);
    the_int
}

/// Decoding the four bytes that encode `v` gives `v` back.
pub proof fn lemma_decode_encode(v: i32)
    ensures
        decode_i32(encode_i32(v)) == v,
        encode_i32(v).len() == 4,
{
    assert(i32_from_be(
        ((v as u32) >> 24u32) as u8,
        ((v as u32) >> 16u32) as u8,
        ((v as u32) >> 8u32) as u8,
        v as u8,
    ) == v) by (bit_vector);
}

/// Encoding the integer that four bytes decode to gives those four bytes back.
pub proof fn lemma_encode_decode(s: Seq<u8>)
    requires
        s.len() == 4,
    ensures
        encode_i32(decode_i32(s)) == s,
{
    let b0 = s[0];
    let b1 = s[1];
    let b2 = s[2];
    let b3 = s[3];
    let v = i32_from_be(b0, b1, b2, b3);
    assert(((v as u32) >> 24u32) as u8 == b0 && ((v as u32) >> 16u32) as u8 == b1 && ((v as u32)
        >> 8u32) as u8 == b2 && v as u8 == b3) by (bit_vector)
        requires
            v == i32_from_be(b0, b1, b2, b3),
    ;
    assert(encode_i32(v) =~= s);
}

} // verus!
