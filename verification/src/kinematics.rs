//! Dead-zone clamping for velocity components.
//!
//! Velocity components travel through this crate as the bit patterns of
//! IEEE-754 double-precision values; the numeric integration itself happens
//! outside the verified core. The dead zone — snapping any component whose
//! magnitude is below a small threshold (one tenth, in world units) to
//! exactly zero — is a pure comparison, and on the IEEE-754 encoding it is
//! exactly an unsigned comparison of the bit pattern with its sign bit
//! cleared: for two values that are not NaN, the absolute value of one is
//! smaller than the absolute value of the other precisely when its masked
//! bit pattern is the smaller integer. A NaN or an infinity has a masked
//! pattern above every finite threshold, so it falls outside the dead zone
//! and passes through unchanged — exactly what two ordered comparisons
//! against the threshold would decide, since both are false on a NaN.

use vstd::prelude::*;

verus! {

/// All bits of a double's encoding except the sign bit.
pub const MAGNITUDE_MASK: u64 = 0x7FFF_FFFF_FFFF_FFFF;

/// Bit pattern of the dead-zone threshold: one tenth.
pub const DEAD_ZONE_BITS: u64 = 0x3FB9_9999_9999_999A;

/// True when the encoded value's magnitude lies strictly below the
/// dead-zone threshold (NaN and infinities never do).
pub open spec fn in_dead_zone(bits: u64) -> bool {
    bits & MAGNITUDE_MASK < DEAD_ZONE_BITS
}

/// Snaps a velocity component to exactly zero when its magnitude is below
/// the dead-zone threshold, and returns it unchanged otherwise. Zero is
/// encoded as the all-zero bit pattern (the positive zero of IEEE-754).
/// The boundary belongs outside the zone: a component whose magnitude is
/// exactly the threshold is returned unchanged.
pub fn clamp_f64(bits: u64) -> (r: u64)
    ensures
        in_dead_zone(bits) ==> r == 0,
        !in_dead_zone(bits) ==> r == bits,
{
    if bits & MAGNITUDE_MASK < DEAD_ZONE_BITS {
        0
    } else {
        bits
    }
}

} // verus!
