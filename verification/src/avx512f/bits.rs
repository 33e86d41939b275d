//! Bit manipulation: exclusive or of whole vectors, and rotation of 32-bit
//! lanes.
use crate::layout::{le_u32, unpack32, unpack64, word32};
use crate::vector::__m512i;
use vstd::prelude::*;

verus! {

/// The exclusive or of two vectors, byte by byte.
pub open spec fn xor_si512(a: Seq<u8>, b: Seq<u8>) -> Seq<u8> {
    Seq::new(64, |i: int| a[i] ^ b[i])
}

/// The number of bit positions that a rotation by `imm8` moves a 32-bit lane:
/// `imm8` modulo 32, which is what the low five bits of `imm8` hold, whatever
/// its sign.
pub open spec fn rotate_count(imm8: i32) -> u32 {
    (imm8 % 32) as u32
}

/// `x` rotated right by `c` positions, `c < 32`: bit `j` of the result is bit
/// `j + c` of `x`, counted round the word.
pub open spec fn ror_u32(x: u32, c: u32) -> u32 {
    if c == 0 {
        x
    } else {
        (x >> c) | (x << ((32 - c) as u32))
    }
}

/// Each 32-bit lane rotated right by the count that `imm8` gives.
pub open spec fn ror_lanes(a: Seq<i32>, imm8: i32) -> Seq<i32> {
    Seq::new(a.len(), |i: int| ror_u32(a[i] as u32, rotate_count(imm8)) as i32)
}

/// Computes the exclusive or of the 512 bits of `a` and `b`.
pub fn _mm512_xor_si512(a: __m512i, b: __m512i) -> (r: __m512i)
    ensures
        r@ == xor_si512(a@, b@),
{
    let mut bytes: [u8; 64] = [0u8; 64];
    let mut i: usize = 0;
    while i < 64
        invariant
            i <= 64,
            forall|j: int| 0 <= j < i ==> bytes@[j] == a@[j] ^ b@[j],
        decreases 64 - i,
    {
        bytes[i] = a.0[i] ^ b.0[i];
        i = i + 1;
    }
    assert(bytes@ =~= xor_si512(a@, b@));
    __m512i(bytes)
}

/// Rotates the bits of one 32-bit word right by `c` positions.
fn rotate_right_u32(x: u32, c: u32) -> (r: u32)
    requires
        c < 32,
    ensures
        r == ror_u32(x, c),
{
    if c == 0 {
        x
    } else {
        (x >> c) | (x << (32 - c))
    }
}

/// Rotates the bits of each 32-bit lane of `a` right by the number of
/// positions in `imm8`, of which the low five bits count.
pub fn _mm512_ror_epi32(a: __m512i, imm8: i32) -> (r: __m512i)
    ensures
        r.epi32() == ror_lanes(a.epi32(), imm8),
{
    let l = a.as_i32x16();
    let c: u32 = (imm8 & 31) as u32;
    assert(0 <= imm8 & 31 < 32 && (imm8 & 31) as u32 == imm8 % 32) by (bit_vector);
    let mut out: [i32; 16] = [0i32; 16];
    let mut i: usize = 0;
    while i < 16
        invariant
            i <= 16,
            c < 32,
            c == rotate_count(imm8),
            l@ == a.epi32(),
            forall|j: int| 0 <= j < i ==> out@[j] == ror_u32(l@[j] as u32, c) as i32,
        decreases 16 - i,
    {
        out[i] = rotate_right_u32(l[i] as u32, c) as i32;
        i = i + 1;
    }
    assert(out@ =~= ror_lanes(a.epi32(), imm8));
    __m512i::from_i32x16(out)
}

/// The exclusive or of two vectors is the exclusive or of their lanes, at
/// either lane width.
pub proof fn lemma_xor_lanes(a: __m512i, b: __m512i)
    ensures
        forall|i: int|
            0 <= i < 16 ==> #[trigger] unpack32(xor_si512(a@, b@))[i] == a.epi32()[i] ^ b.epi32()[i],
        forall|i: int|
            0 <= i < 8 ==> #[trigger] unpack64(xor_si512(a@, b@))[i] == a.epi64()[i] ^ b.epi64()[i],
{
    assert forall|i: int| 0 <= i < 16 implies #[trigger] unpack32(xor_si512(a@, b@))[i]
        == a.epi32()[i] ^ b.epi32()[i] by {
        lemma_xor_word32(
            a@[4 * i],
            a@[4 * i + 1],
            a@[4 * i + 2],
            a@[4 * i + 3],
            b@[4 * i],
            b@[4 * i + 1],
            b@[4 * i + 2],
            b@[4 * i + 3],
        );
    }
    assert forall|i: int| 0 <= i < 8 implies #[trigger] unpack64(xor_si512(a@, b@))[i]
        == a.epi64()[i] ^ b.epi64()[i] by {
        lemma_xor_word32(
            a@[8 * i],
            a@[8 * i + 1],
            a@[8 * i + 2],
            a@[8 * i + 3],
            b@[8 * i],
            b@[8 * i + 1],
            b@[8 * i + 2],
            b@[8 * i + 3],
        );
        lemma_xor_word32(
            a@[8 * i + 4],
            a@[8 * i + 5],
            a@[8 * i + 6],
            a@[8 * i + 7],
            b@[8 * i + 4],
            b@[8 * i + 5],
            b@[8 * i + 6],
            b@[8 * i + 7],
        );
        let al = le_u32(a@, 8 * i);
        let ah = le_u32(a@, 8 * i + 4);
        let bl = le_u32(b@, 8 * i);
        let bh = le_u32(b@, 8 * i + 4);
        assert((((al ^ bl) as u64) | (((ah ^ bh) as u64) << 32)) as i64 == (((al as u64) | ((ah as u64)
            << 32)) as i64) ^ (((bl as u64) | ((bh as u64) << 32)) as i64)) by (bit_vector);
    }
}

proof fn lemma_xor_word32(a0: u8, a1: u8, a2: u8, a3: u8, b0: u8, b1: u8, b2: u8, b3: u8)
    ensures
        word32(a0 ^ b0, a1 ^ b1, a2 ^ b2, a3 ^ b3) == word32(
            a0,
            a1,
            a2,
            a3,
        ) ^ word32(b0, b1, b2, b3),
        word32(a0 ^ b0, a1 ^ b1, a2 ^ b2, a3 ^ b3) as i32 == (word32(
            a0,
            a1,
            a2,
            a3,
        ) as i32) ^ (word32(b0, b1, b2, b3) as i32),
{
    assert((((a0 ^ b0) as u32) | (((a1 ^ b1) as u32) << 8) | (((a2 ^ b2) as u32) << 16) | (((a3
        ^ b3) as u32) << 24)) == ((a0 as u32) | ((a1 as u32) << 8) | ((a2 as u32) << 16) | ((a3 as u32)
        << 24)) ^ ((b0 as u32) | ((b1 as u32) << 8) | ((b2 as u32) << 16) | ((b3 as u32) << 24)))
        by (bit_vector);
    let x = word32(a0, a1, a2, a3);
    let y = word32(b0, b1, b2, b3);
    assert((x ^ y) as i32 == (x as i32) ^ (y as i32)) by (bit_vector);
}

/// Rotation moves bits and loses none: bit `j` of the rotated word is bit
/// `j + c`, counted round the word, of the word rotated.
pub proof fn lemma_ror_bit(x: u32, c: u32, j: u32)
    requires
        c < 32,
        j < 32,
    ensures
        (ror_u32(x, c) >> j) & 1 == (x >> ((j + c) % 32) as u32) & 1,
{
    let t: u32 = ((j + c) % 32) as u32;
    let s: u32 = (32 - c) as u32;
    if c == 0 {
        assert(t == j);
    } else {
        assert((((x >> c) | (x << s)) >> j) & 1 == (x >> t) & 1) by (bit_vector)
            requires
                0 < c < 32,
                j < 32,
                s == 32 - c,
                t == (j + c) % 32,
        ;
    }
}

} // verus!
