use vstd::prelude::*;

verus! {

/// Number of yoctoNEAR, the smallest native unit, in one NEAR.
pub const YOCTO_PER_NEAR: u128 = 1_000_000_000_000_000_000_000_000;

/// Converts a whole number of NEAR into yoctoNEAR.
pub fn to_yocto(near_amount: u128) -> (yocto: u128)
    requires
        near_amount * YOCTO_PER_NEAR <= u128::MAX,
    ensures
        yocto == near_amount * YOCTO_PER_NEAR,
{
    near_amount * YOCTO_PER_NEAR
}

} // verus!
