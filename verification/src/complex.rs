use vstd::prelude::*;

verus! {

/// A complex number held as the IEEE-754 bit patterns of its two 32-bit
/// components. All arithmetic on the components is floating-point work
/// done by the caller; the logic in this crate reads only the sign and
/// magnitude bits, which is all the cycle detector needs.
#[derive(Clone, Copy, Debug, PartialEq, Eq)]
pub struct Complex {
    /// Bit pattern of the real component.
    pub re: u32,
    /// Bit pattern of the imaginary component.
    pub im: u32,
}

/// Sign bit of a component's bit pattern: 0 for positive, 1 for negative.
pub open spec fn sign_bit(bits: u32) -> u32 {
    bits >> 31u32
}

/// The bit pattern with the sign cleared: the pattern of the component's
/// absolute value.
pub open spec fn magnitude_bits(bits: u32) -> u32 {
    bits & 0x7fff_ffffu32
}

/// Distance between two components' absolute values in units in the last
/// place: the difference of their magnitude bit patterns read as integers.
pub open spec fn ulp_distance(lhs: u32, rhs: u32) -> int {
    if magnitude_bits(lhs) >= magnitude_bits(rhs) {
        magnitude_bits(lhs) - magnitude_bits(rhs)
    } else {
        magnitude_bits(rhs) - magnitude_bits(lhs)
    }
}

/// Loose equality of two components: false across a sign change, whatever
/// the magnitudes; otherwise true exactly when the absolute values are at
/// most 2 ulps apart. Deliberately a bit-pattern test, not an epsilon
/// test: it detects near-exact orbit repetition despite rounding noise.
pub open spec fn float_fuzzy_eq_spec(lhs: u32, rhs: u32) -> bool {
    &&& sign_bit(lhs) == sign_bit(rhs)
    &&& ulp_distance(lhs, rhs) <= 2
}

/// Fuzzy equality of two complex values: both component pairs must match.
pub open spec fn complex_fuzzy_eq_spec(a: Complex, b: Complex) -> bool {
    float_fuzzy_eq_spec(a.re, b.re) && float_fuzzy_eq_spec(a.im, b.im)
}

/// Fuzzy equality of one component pair, on bit patterns.
pub fn float_fuzzy_eq(lhs: u32, rhs: u32) -> (r: bool)
    ensures
        r == float_fuzzy_eq_spec(lhs, rhs),
{
    if (lhs >> 31u32) != (rhs >> 31u32) {
        // different signs, can't be fuzzy-equal
        false
    } else {
        let lhs_m: u32 = lhs & 0x7fff_ffffu32;
        let rhs_m: u32 = rhs & 0x7fff_ffffu32;
        let ulps: u32 = if lhs_m >= rhs_m {
            lhs_m - rhs_m
        } else {
            rhs_m - lhs_m
        };
        ulps <= 2
    }
}

impl Complex {
    pub fn new(re: u32, im: u32) -> (r: Complex)
        ensures
            r.re == re,
            r.im == im,
    {
        Complex { re, im }
    }

    /// Component-wise fuzzy equality, used by the engine's cycle check.
    pub fn fuzzy_eq(self, other: Complex) -> (r: bool)
        ensures
            r == complex_fuzzy_eq_spec(self, other),
    {
        float_fuzzy_eq(self.re, other.re) && float_fuzzy_eq(self.im, other.im)
    }
}

/// Component fuzzy equality is reflexive: a component is zero ulps from
/// itself and carries its own sign.
pub proof fn lemma_float_fuzzy_eq_reflexive(a: u32)
    ensures
        float_fuzzy_eq_spec(a, a),
{
}

/// Component fuzzy equality is symmetric: neither the sign test nor the
/// ulp distance depends on the order of the operands.
pub proof fn lemma_float_fuzzy_eq_symmetric(a: u32, b: u32)
    ensures
        float_fuzzy_eq_spec(a, b) == float_fuzzy_eq_spec(b, a),
{
}

/// Components of different sign are never fuzzy-equal, even with equal
/// magnitude bits; in particular positive and negative zero differ.
pub proof fn lemma_float_fuzzy_eq_sign_mismatch(a: u32, b: u32)
    requires
        sign_bit(a) != sign_bit(b),
    ensures
        !float_fuzzy_eq_spec(a, b),
{
}

/// Fuzzy equality is reflexive: a component is zero ulps from itself and
/// carries its own sign, so every value is fuzzy-equal to itself.
pub proof fn lemma_fuzzy_eq_reflexive(a: Complex)
    ensures
        complex_fuzzy_eq_spec(a, a),
{
    lemma_float_fuzzy_eq_reflexive(a.re);
    lemma_float_fuzzy_eq_reflexive(a.im);
}

/// Fuzzy equality is symmetric: neither the sign test nor the ulp
/// distance depends on the order of the operands.
pub proof fn lemma_fuzzy_eq_symmetric(a: Complex, b: Complex)
    ensures
        complex_fuzzy_eq_spec(a, b) == complex_fuzzy_eq_spec(b, a),
{
    lemma_float_fuzzy_eq_symmetric(a.re, b.re);
    lemma_float_fuzzy_eq_symmetric(a.im, b.im);
}

/// Values whose sign bits differ in some component are never fuzzy-equal,
/// even when the magnitudes agree exactly; in particular positive and
/// negative zero compare unequal.
pub proof fn lemma_fuzzy_eq_sign_mismatch(a: Complex, b: Complex)
    requires
        sign_bit(a.re) != sign_bit(b.re) || sign_bit(a.im) != sign_bit(b.im),
    ensures
        !complex_fuzzy_eq_spec(a, b),
{
    if sign_bit(a.re) != sign_bit(b.re) {
        lemma_float_fuzzy_eq_sign_mismatch(a.re, b.re);
    } else {
        lemma_float_fuzzy_eq_sign_mismatch(a.im, b.im);
    }
}

} // verus!
