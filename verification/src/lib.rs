//! A lane-exact model of 512-bit vector operations with write-masks.
//!
//! Every operation is a pure function from vectors to a vector. An integer
//! vector is sixty-four bytes in memory order; its 32-bit and 64-bit lanes
//! are read from those bytes little-endian. A masked operation chooses, lane
//! by lane, between the value that the operation computed and a fallback: the
//! lane of a source vector, or zero.
//!
//! - `lanes`: masks, and the choice between two vectors lane by lane.
//! - `family`: the plain, rounding, write-masked and zero-masked forms of an
//!   operation given as a function on one lane, with the rounding modes.
//! - `layout`: how lanes lie in bytes.
//! - `vector`: the integer vector type and its readings as lanes.
//! - `mask`: write-masking of integer vectors.
//! - `avx512f`: construction, loading, addition, absolute value, exclusive
//!   or and rotation of integer vectors.
//! - `avx512bw`: the byte shuffle.
#![allow(non_camel_case_types)]

pub mod avx512bw;
pub mod avx512f;
pub mod family;
pub mod lanes;
pub mod layout;
pub mod mask;
pub mod vector;

pub use crate::avx512bw::_mm512_shuffle_epi8;
pub use crate::avx512f::arith::{
    _mm512_abs_epi32, _mm512_add_epi32, _mm512_add_epi64, _mm512_mask_abs_epi32,
    _mm512_mask_add_epi32, _mm512_mask_add_epi64, _mm512_maskz_abs_epi32, _mm512_maskz_add_epi32,
    _mm512_maskz_add_epi64,
};
pub use crate::avx512f::bits::{_mm512_ror_epi32, _mm512_xor_si512};
pub use crate::avx512f::load_store::{_mm512_loadu_si512, _mm512_undefined};
pub use crate::avx512f::set::{
    _mm512_set1_epi32, _mm512_set1_epi64, _mm512_set_epi32, _mm512_set_epi64, _mm512_setr_epi32,
    _mm512_setr_epi64, _mm512_setzero_si512,
};
pub use crate::family::{
    CurrentDirection, Rounding, RoundingMode, ToNearest, TowardNegative, TowardPositive, TowardZero,
};
pub use crate::vector::{__m512i, __mmask16, __mmask8};
