//! Cached powers for extended-precision floats.

use vstd::prelude::*;

verus! {

/// An extended-precision float: `mant * 2^exp`.
#[derive(Clone, Copy, Debug, PartialEq, Eq)]
pub struct ExtendedFloat<M> {
    /// Mantissa.
    pub mant: M,
    /// Binary exponent.
    pub exp: i32,
}

/// Precalculated powers that uses two-separate arrays for memory-efficiency.
pub struct ExtendedPowers<M: 'static> {
    /// Pre-calculated mantissa for the powers.
    pub mant: &'static [M],
    /// Pre-calculated binary exponents for the powers.
    pub exp: &'static [i32],
}

impl<M: Copy> ExtendedPowers<M> {
    /// The extended float at `index`: its mantissa and exponent.
    pub fn get_extended_float(&self, index: usize) -> (r: ExtendedFloat<M>)
        requires
            index < self.mant@.len(),
            index < self.exp@.len(),
        ensures
            r.mant == self.mant@[index as int],
            r.exp == self.exp@[index as int],
    {
        ExtendedFloat { mant: self.mant[index], exp: self.exp[index] }
    }

    /// Number of powers.
    pub fn len(&self) -> (r: usize)
        ensures
            r == self.mant@.len(),
    {
        self.mant.len()
    }
}

/// Precalculated powers of base N for the moderate path.
pub struct ModeratePathPowers<M: 'static> {
    /// Pre-calculated small powers.
    pub small: ExtendedPowers<M>,
    /// Pre-calculated large powers.
    pub large: ExtendedPowers<M>,
    /// Pre-calculated small powers as integers.
    pub small_int: &'static [M],
    /// Step between large powers and number of small powers.
    pub step: i32,
    /// Exponent bias for the large powers.
    pub bias: i32,
}

impl<M: Copy> ModeratePathPowers<M> {
    /// The small power at `index`.
    pub fn get_small(&self, index: usize) -> (r: ExtendedFloat<M>)
        requires
            index < self.small.mant@.len(),
            index < self.small.exp@.len(),
        ensures
            r.mant == self.small.mant@[index as int],
            r.exp == self.small.exp@[index as int],
    {
        self.small.get_extended_float(index)
    }

    /// The large power at `index`.
    pub fn get_large(&self, index: usize) -> (r: ExtendedFloat<M>)
        requires
            index < self.large.mant@.len(),
            index < self.large.exp@.len(),
        ensures
            r.mant == self.large.mant@[index as int],
            r.exp == self.large.exp@[index as int],
    {
        self.large.get_extended_float(index)
    }

    /// The small power at `index`, as an integer.
    pub fn get_small_int(&self, index: usize) -> (r: M)
        requires
            index < self.small_int@.len(),
        ensures
            r == self.small_int@[index as int],
    {
        self.small_int[index]
    }
}

} // verus!
