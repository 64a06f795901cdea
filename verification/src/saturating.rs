//! Contracts for the saturating `i128` operations of the standard library,
//! which the accounting code calls and for which vstd gives no specification.
use vstd::prelude::*;

verus! {

/// Clamps a mathematical integer into the range of `i128`.
pub open spec fn clamp_i128(x: int) -> i128 {
    if x > i128::MAX {
        i128::MAX
    } else if x < i128::MIN {
        i128::MIN
    } else {
        x as i128
    }
}

/// `i128::saturating_add`: the exact sum, clamped to the bounds of `i128`
/// (as the standard library documents it).
pub assume_specification[<i128>::saturating_add](x: i128, y: i128) -> (r: i128)
    ensures
        r == clamp_i128(x + y),
;

/// `i128::saturating_sub`: the exact difference, clamped to the bounds of `i128`.
pub assume_specification[<i128>::saturating_sub](x: i128, y: i128) -> (r: i128)
    ensures
        r == clamp_i128(x - y),
;

/// `i128::saturating_mul`: the exact product, clamped to the bounds of `i128`.
pub assume_specification[<i128>::saturating_mul](x: i128, y: i128) -> (r: i128)
    ensures
        r == clamp_i128(x * y),
;

} // verus!
