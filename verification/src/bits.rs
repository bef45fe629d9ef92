//! Reading single bits of a number.

use vstd::prelude::*;

verus! {

/// Whether bit `bit` of `num` is set, bit 0 being the least significant.
pub open spec fn bit_is_set(num: u64, bit: u64) -> bool {
    (num >> bit) & 1 == 1
}

/// Returns true if bit `bit` is on in `num`.
pub fn bit_on(num: u64, bit: usize) -> (on: bool)
    requires
        bit < 64,
    ensures
        on == bit_is_set(num, bit as u64),
{
    let num_from_bit: u64 = 1u64 << bit;
    let shift: u64 = bit as u64;
    assert((num ^ (1u64 << shift)) < num <==> (num >> shift) & 1 == 1) by (bit_vector)
        requires
            shift < 64,
    ;
    if num ^ num_from_bit < num {
        return true;
    }
    false
}

} // verus!
