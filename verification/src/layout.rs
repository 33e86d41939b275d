//! How the wider lanes of a vector lie in its bytes: little-endian, lane `i`
//! of width `w` bytes at bytes `w * i .. w * i + w`.
use vstd::prelude::*;

verus! {

/// The 32-bit word with `b0` as its lowest byte and `b3` as its highest.
pub open spec fn word32(b0: u8, b1: u8, b2: u8, b3: u8) -> u32 {
    (b0 as u32) | ((b1 as u32) << 8) | ((b2 as u32) << 16) | ((b3 as u32) << 24)
}

/// Byte `j` of the word `x`, byte 0 being the lowest.
pub open spec fn byte_of(x: u64, j: int) -> u8 {
    if j == 0 {
        x as u8
    } else if j == 1 {
        (x >> 8) as u8
    } else if j == 2 {
        (x >> 16) as u8
    } else if j == 3 {
        (x >> 24) as u8
    } else if j == 4 {
        (x >> 32) as u8
    } else if j == 5 {
        (x >> 40) as u8
    } else if j == 6 {
        (x >> 48) as u8
    } else {
        (x >> 56) as u8
    }
}

/// The 64-bit word with `lo` as its low half and `hi` as its high half.
pub open spec fn word64(lo: u32, hi: u32) -> u64 {
    (lo as u64) | ((hi as u64) << 32)
}

/// The 32-bit word that starts at byte `at` of `s`.
pub open spec fn le_u32(s: Seq<u8>, at: int) -> u32 {
    word32(s[at], s[at + 1], s[at + 2], s[at + 3])
}

/// The 64-bit word that starts at byte `at` of `s`.
pub open spec fn le_u64(s: Seq<u8>, at: int) -> u64 {
    word64(le_u32(s, at), le_u32(s, at + 4))
}

/// The signed 32-bit lanes of the bytes `s`, lowest lane first.
pub open spec fn unpack32(s: Seq<u8>) -> Seq<i32> {
    Seq::new(s.len() / 4, |i: int| le_u32(s, 4 * i) as i32)
}

/// The signed 64-bit lanes of the bytes `s`, lowest lane first.
pub open spec fn unpack64(s: Seq<u8>) -> Seq<i64> {
    Seq::new(s.len() / 8, |i: int| le_u64(s, 8 * i) as i64)
}

/// The bytes of the 32-bit lanes `l`, lowest lane and lowest byte first.
pub open spec fn pack32(l: Seq<i32>) -> Seq<u8> {
    Seq::new(4 * l.len(), |p: int| byte_of(l[p / 4] as u32 as u64, p % 4))
}

/// The bytes of the 64-bit lanes `l`, lowest lane and lowest byte first.
pub open spec fn pack64(l: Seq<i64>) -> Seq<u8> {
    Seq::new(8 * l.len(), |p: int| byte_of(l[p / 8] as u64, p % 8))
}

proof fn lemma_word32_of_bytes(x: i32)
    ensures
        word32(
            byte_of(x as u32 as u64, 0),
            byte_of(x as u32 as u64, 1),
            byte_of(x as u32 as u64, 2),
            byte_of(x as u32 as u64, 3),
        ) as i32 == x,
{
    let w = x as u32 as u64;
    assert(((w as u8 as u32) | (((w >> 8) as u8 as u32) << 8) | (((w >> 16) as u8 as u32) << 16)
        | (((w >> 24) as u8 as u32) << 24)) as i32 == x) by (bit_vector)
        requires
            w == x as u32 as u64,
    ;
}

proof fn lemma_bytes_of_word32(b0: u8, b1: u8, b2: u8, b3: u8)
    ensures
        byte_of(word32(b0, b1, b2, b3) as i32 as u32 as u64, 0) == b0,
        byte_of(word32(b0, b1, b2, b3) as i32 as u32 as u64, 1) == b1,
        byte_of(word32(b0, b1, b2, b3) as i32 as u32 as u64, 2) == b2,
        byte_of(word32(b0, b1, b2, b3) as i32 as u32 as u64, 3) == b3,
{
    let w = word32(b0, b1, b2, b3);
    let x = w as i32 as u32 as u64;
    assert(x as u8 == b0 && (x >> 8) as u8 == b1 && (x >> 16) as u8 == b2 && (x >> 24) as u8
        == b3) by (bit_vector)
        requires
            w == (b0 as u32) | ((b1 as u32) << 8) | ((b2 as u32) << 16) | ((b3 as u32) << 24),
            x == w as i32 as u32 as u64,
    ;
}

/// Reading the 32-bit lanes of packed lanes gives the lanes back.
pub proof fn lemma_unpack_pack32(l: Seq<i32>)
    ensures
        unpack32(pack32(l)) == l,
{
    assert forall|i: int| 0 <= i < l.len() implies unpack32(pack32(l))[i] == l[i] by {
        lemma_word32_of_bytes(l[i]);
    }
    assert(unpack32(pack32(l)) =~= l);
}

/// Packing the 32-bit lanes of a whole number of lanes gives the bytes back.
pub proof fn lemma_pack_unpack32(s: Seq<u8>)
    requires
        s.len() % 4 == 0,
    ensures
        pack32(unpack32(s)) == s,
{
    assert forall|p: int| 0 <= p < s.len() implies pack32(unpack32(s))[p] == s[p] by {
        let i = p / 4;
        lemma_bytes_of_word32(s[4 * i], s[4 * i + 1], s[4 * i + 2], s[4 * i + 3]);
    }
    assert(pack32(unpack32(s)) =~= s);
}

proof fn lemma_word64_of_bytes(x: i64)
    ensures
        word64(
            word32(
                byte_of(x as u64, 0),
                byte_of(x as u64, 1),
                byte_of(x as u64, 2),
                byte_of(x as u64, 3),
            ),
            word32(
                byte_of(x as u64, 4),
                byte_of(x as u64, 5),
                byte_of(x as u64, 6),
                byte_of(x as u64, 7),
            ),
        ) as i64 == x,
{
    let w = x as u64;
    let lo = word32(byte_of(w, 0), byte_of(w, 1), byte_of(w, 2), byte_of(w, 3));
    let hi = word32(byte_of(w, 4), byte_of(w, 5), byte_of(w, 6), byte_of(w, 7));
    assert(lo == w as u32) by (bit_vector)
        requires
            lo == (w as u8 as u32) | (((w >> 8) as u8 as u32) << 8) | (((w >> 16) as u8 as u32)
                << 16) | (((w >> 24) as u8 as u32) << 24),
    ;
    assert(hi == (w >> 32) as u32) by (bit_vector)
        requires
            hi == ((w >> 32) as u8 as u32) | (((w >> 40) as u8 as u32) << 8) | (((w >> 48) as u8
                as u32) << 16) | (((w >> 56) as u8 as u32) << 24),
    ;
    assert(((lo as u64) | ((hi as u64) << 32)) as i64 == x) by (bit_vector)
        requires
            w == x as u64,
            lo == w as u32,
            hi == (w >> 32) as u32,
    ;
}

proof fn lemma_bytes_of_word64(lo: u32, hi: u32)
    ensures
        forall|j: int|
            0 <= j < 4 ==> #[trigger] byte_of(word64(lo, hi) as i64 as u64, j) == byte_of(
                lo as u64,
                j,
            ),
        forall|j: int|
            4 <= j < 8 ==> #[trigger] byte_of(word64(lo, hi) as i64 as u64, j) == byte_of(
                hi as u64,
                j - 4,
            ),
{
    let x = word64(lo, hi) as i64 as u64;
    let l = lo as u64;
    let h = hi as u64;
    assert(x as u8 == l as u8 && (x >> 8) as u8 == (l >> 8) as u8 && (x >> 16) as u8 == (l >> 16) as u8
        && (x >> 24) as u8 == (l >> 24) as u8 && (x >> 32) as u8 == h as u8 && (x >> 40) as u8 == (h
        >> 8) as u8 && (x >> 48) as u8 == (h >> 16) as u8 && (x >> 56) as u8 == (h >> 24) as u8)
        by (bit_vector)
        requires
            x == ((lo as u64) | ((hi as u64) << 32)) as i64 as u64,
            l == lo as u64,
            h == hi as u64,
    ;
}

/// Reading the 64-bit lanes of packed lanes gives the lanes back.
pub proof fn lemma_unpack_pack64(l: Seq<i64>)
    ensures
        unpack64(pack64(l)) == l,
{
    assert forall|i: int| 0 <= i < l.len() implies unpack64(pack64(l))[i] == l[i] by {
        lemma_word64_of_bytes(l[i]);
    }
    assert(unpack64(pack64(l)) =~= l);
}

/// Packing the 64-bit lanes of a whole number of lanes gives the bytes back.
pub proof fn lemma_pack_unpack64(s: Seq<u8>)
    requires
        s.len() % 8 == 0,
    ensures
        pack64(unpack64(s)) == s,
{
    assert forall|p: int| 0 <= p < s.len() implies pack64(unpack64(s))[p] == s[p] by {
        let i = p / 8;
        let lo = le_u32(s, 8 * i);
        let hi = le_u32(s, 8 * i + 4);
        lemma_bytes_of_word64(lo, hi);
        lemma_bytes_of_word32(s[8 * i], s[8 * i + 1], s[8 * i + 2], s[8 * i + 3]);
        lemma_bytes_of_word32(s[8 * i + 4], s[8 * i + 5], s[8 * i + 6], s[8 * i + 7]);
        lemma_word_is_its_lane(lo);
        lemma_word_is_its_lane(hi);
    }
    assert(pack64(unpack64(s)) =~= s);
}

proof fn lemma_word_is_its_lane(w: u32)
    ensures
        w as i32 as u32 as u64 == w as u64,
{
    assert(w as i32 as u32 as u64 == w as u64) by (bit_vector);
}

} // verus!
