//! Building blocks for arbitrary-precision math.
//!
//! These algorithms assume little-endian order for the large integer
//! buffers, so for a `vec![0, 1, 2, 3]`, `3` is the most significant `u32`,
//! and `0` is the least significant `u32`.

pub mod scalar;
pub mod small;
pub mod large;
pub mod laws;
