//! Operations on 512-bit vectors of 32-bit and 64-bit integer lanes.
pub mod arith;
pub mod bits;
pub mod load_store;
pub mod set;
