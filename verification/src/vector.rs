//! The 512-bit integer vector and its readings as lanes.
use crate::layout::{
    le_u32, lemma_pack_unpack32, lemma_pack_unpack64, lemma_unpack_pack32, lemma_unpack_pack64,
    pack32, pack64, unpack32, unpack64,
};
use vstd::prelude::*;

verus! {

/// A mask with one bit for each of eight lanes; bit `i` belongs to lane `i`.
pub type __mmask8 = u8;

/// A mask with one bit for each of sixteen lanes; bit `i` belongs to lane `i`.
pub type __mmask16 = u16;

/// 512 bits of integer data: sixty-four bytes, byte 0 the lowest.
///
/// The same bits are read as sixteen 32-bit lanes or eight 64-bit lanes; lane
/// `i` of width `w` bytes lies at bytes `w * i .. w * i + w`, lowest byte
/// first.
#[derive(Clone, Copy, Debug, PartialEq, Eq)]
pub struct __m512i(pub [u8; 64]);

impl View for __m512i {
    type V = Seq<u8>;

    open spec fn view(&self) -> Seq<u8> {
        self.0@
    }
}

/// The bytes of the vector whose bits are all clear.
pub open spec fn zero_bytes() -> Seq<u8> {
    Seq::new(64, |i: int| 0u8)
}

impl __m512i {
    /// The sixteen signed 32-bit lanes, lowest first.
    pub open spec fn epi32(self) -> Seq<i32> {
        unpack32(self@)
    }

    /// The eight signed 64-bit lanes, lowest first.
    pub open spec fn epi64(self) -> Seq<i64> {
        unpack64(self@)
    }

    /// Reads the vector as sixteen 32-bit lanes, lowest first.
    pub fn as_i32x16(self) -> (r: [i32; 16])
        ensures
            r@ == self.epi32(),
    {
        let mut r: [i32; 16] = [0i32; 16];
        let mut i: usize = 0;
        while i < 16
            invariant
                i <= 16,
                forall|j: int| 0 <= j < i ==> r@[j] == unpack32(self@)[j],
            decreases 16 - i,
        {
            r[i] = read_u32(&self.0, 4 * i) as i32;
            i = i + 1;
        }
        assert(r@ =~= unpack32(self@));
        r
    }

    /// Reads the vector as eight 64-bit lanes, lowest first.
    pub fn as_i64x8(self) -> (r: [i64; 8])
        ensures
            r@ == self.epi64(),
    {
        let mut r: [i64; 8] = [0i64; 8];
        let mut i: usize = 0;
        while i < 8
            invariant
                i <= 8,
                forall|j: int| 0 <= j < i ==> r@[j] == unpack64(self@)[j],
            decreases 8 - i,
        {
            let lo: u32 = read_u32(&self.0, 8 * i);
            let hi: u32 = read_u32(&self.0, 8 * i + 4);
            r[i] = ((lo as u64) | ((hi as u64) << 32)) as i64;
            i = i + 1;
        }
        assert(r@ =~= unpack64(self@));
        r
    }

    /// The vector whose sixteen 32-bit lanes are `l`, lowest first.
    pub fn from_i32x16(l: [i32; 16]) -> (r: __m512i)
        ensures
            r@ == pack32(l@),
            r.epi32() == l@,
    {
        let mut bytes: [u8; 64] = [0u8; 64];
        let mut i: usize = 0;
        while i < 16
            invariant
                i <= 16,
                forall|p: int| 0 <= p < 4 * i ==> bytes@[p] == pack32(l@)[p],
            decreases 16 - i,
        {
            let x: u64 = l[i] as u32 as u64;
            bytes[4 * i] = x as u8;
            bytes[4 * i + 1] = (x >> 8) as u8;
            bytes[4 * i + 2] = (x >> 16) as u8;
            bytes[4 * i + 3] = (x >> 24) as u8;
            i = i + 1;
        }
        assert(bytes@ =~= pack32(l@));
        proof {
            lemma_unpack_pack32(l@);
        }
        __m512i(bytes)
    }

    /// The vector whose eight 64-bit lanes are `l`, lowest first.
    pub fn from_i64x8(l: [i64; 8]) -> (r: __m512i)
        ensures
            r@ == pack64(l@),
            r.epi64() == l@,
    {
        let mut bytes: [u8; 64] = [0u8; 64];
        let mut i: usize = 0;
        while i < 8
            invariant
                i <= 8,
                forall|p: int| 0 <= p < 8 * i ==> bytes@[p] == pack64(l@)[p],
            decreases 8 - i,
        {
            let x: u64 = l[i] as u64;
            bytes[8 * i] = x as u8;
            bytes[8 * i + 1] = (x >> 8) as u8;
            bytes[8 * i + 2] = (x >> 16) as u8;
            bytes[8 * i + 3] = (x >> 24) as u8;
            bytes[8 * i + 4] = (x >> 32) as u8;
            bytes[8 * i + 5] = (x >> 40) as u8;
            bytes[8 * i + 6] = (x >> 48) as u8;
            bytes[8 * i + 7] = (x >> 56) as u8;
            i = i + 1;
        }
        assert(bytes@ =~= pack64(l@));
        proof {
            lemma_unpack_pack64(l@);
        }
        __m512i(bytes)
    }
}

/// Reads the 32-bit word that starts at byte `at`.
fn read_u32(bytes: &[u8; 64], at: usize) -> (w: u32)
    requires
        at + 4 <= 64,
    ensures
        w == le_u32(bytes@, at as int),
{
    (bytes[at] as u32) | ((bytes[at + 1] as u32) << 8) | ((bytes[at + 2] as u32) << 16) | ((bytes[at
        + 3] as u32) << 24)
}

/// Two vectors with the same bytes are the same vector.
pub proof fn lemma_same_bytes(a: __m512i, b: __m512i)
    requires
        a@ == b@,
    ensures
        a == b,
{
    assert(a.0 =~= b.0);
}

/// A vector is determined by its 32-bit lanes.
pub proof fn lemma_same_epi32(a: __m512i, b: __m512i)
    requires
        a.epi32() == b.epi32(),
    ensures
        a == b,
{
    lemma_pack_unpack32(a@);
    lemma_pack_unpack32(b@);
    lemma_same_bytes(a, b);
}

/// A vector is determined by its 64-bit lanes.
pub proof fn lemma_same_epi64(a: __m512i, b: __m512i)
    requires
        a.epi64() == b.epi64(),
    ensures
        a == b,
{
    lemma_pack_unpack64(a@);
    lemma_pack_unpack64(b@);
    lemma_same_bytes(a, b);
}

} // verus!
