# lexical_core (verified core)

Arbitrary-precision building blocks for correct string-to-float parsing,
verified with Verus.

- `src/limbs.rs` — the model: little-endian `u32` limbs and their value.
- `src/math/` — scalar, small (bigint by `u32`) and large (bigint by bigint)
  arithmetic: shifts, add/sub/mul (long and Karatsuba), Knuth's algorithm D,
  `quorem`; laws in `math/laws.rs`.
- `src/small_powers.rs`, `src/cached.rs`, `src/cached160/` — precalculated
  powers of every radix.
- `src/digits.rs`, `src/exponent.rs` — digits and exponents of a radix-N
  string.
- `src/bigfloat.rs` — the exact `Bigfloat` parsed from a string, scaled by
  the exponent, and its top 64 bits.
- `src/bigcomp.rs` — `Bigint` on a `stackvector::StackVec`, and the
  comparison of a string's digits with the halfway point `b+h`.
- `src/correct.rs` — the mantissa read into a `u64` or `u128` as long as
  it fits, exponent and mantissa normalization, error bounds.
- `src/api.rs` — sign, special values and the whole-string parse.
- `app/` — native floats around the library: IEEE rounding, `b` of a float,
  and the halfway decision.
