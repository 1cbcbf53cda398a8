//! Single-precision floats held as their bit patterns, compared as IEEE-754
//! compares the numbers they stand for.
use vstd::prelude::*;
use vstd::std_specs::cmp::PartialEqSpecImpl;

verus! {

/// The bit pattern of an `f32`, as `f32::to_bits` gives it.
///
/// `==` follows `f32`'s own `==`: a NaN equals nothing, not even itself, and
/// `+0.0` equals `-0.0`; other values are equal when their bits are.
#[derive(Clone, Copy, Debug, Default)]
pub struct F32Bits {
    pub bits: u32,
}

/// Whether the bits stand for a NaN: all exponent bits set and a fraction
/// other than zero.
pub open spec fn is_nan_bits(b: u32) -> bool {
    (b & 0x7f80_0000u32) == 0x7f80_0000u32 && (b & 0x007f_ffffu32) != 0u32
}

/// Whether the bits stand for `+0.0` or `-0.0`.
pub open spec fn is_zero_bits(b: u32) -> bool {
    (b & 0x7fff_ffffu32) == 0u32
}

/// Whether two `f32` bit patterns stand for numbers that `==` finds equal.
pub open spec fn ieee_equal(a: u32, b: u32) -> bool {
    !is_nan_bits(a) && !is_nan_bits(b) && (a == b || (is_zero_bits(a) && is_zero_bits(b)))
}

fn nan_bits(b: u32) -> (r: bool)
    ensures
        r == is_nan_bits(b),
{
    (b & 0x7f80_0000u32) == 0x7f80_0000u32 && (b & 0x007f_ffffu32) != 0u32
}

fn zero_bits(b: u32) -> (r: bool)
    ensures
        r == is_zero_bits(b),
{
    (b & 0x7fff_ffffu32) == 0u32
}

impl PartialEq for F32Bits {
    fn eq(&self, other: &Self) -> (r: bool) {
        let a = self.bits;
        let b = other.bits;
        !nan_bits(a) && !nan_bits(b) && (a == b || (zero_bits(a) && zero_bits(b)))
    }
}

impl PartialEqSpecImpl for F32Bits {
    open spec fn obeys_eq_spec() -> bool {
        true
    }

    open spec fn eq_spec(&self, other: &F32Bits) -> bool {
        ieee_equal(self.bits, other.bits)
    }
}

/// A NaN is not equal to itself, and the two zeros are equal.
pub proof fn law_ieee_equality(a: u32, b: u32)
    ensures
        is_nan_bits(a) ==> !ieee_equal(a, a),
        !is_nan_bits(a) ==> ieee_equal(a, a),
        ieee_equal(a, b) == ieee_equal(b, a),
        ieee_equal(0u32, 0x8000_0000u32),
{
    assert(is_zero_bits(0u32) && is_zero_bits(0x8000_0000u32) && !is_nan_bits(0u32) && !is_nan_bits(
        0x8000_0000u32,
    )) by (bit_vector);
}

} // verus!
