//! Arbitrary-precision arithmetic and parsing building blocks for
//! string-to-float conversion.

pub mod limbs;
pub mod math;
pub mod small_powers;
pub mod bigfloat;
pub mod digits;
pub mod exponent;
pub mod api;
pub mod cached;
pub mod cached160;
pub mod bigcomp;
pub mod correct;
