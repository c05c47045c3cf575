use crate::scalar::{Interval, Scalar, ONE_BITS, ZERO_BITS};
use vstd::prelude::*;

verus! {

/// The pattern of a full turn: twice the circle's number.
pub const TURN_BITS: u64 = 0x4019_21fb_5444_2d18;

/// The pattern of a half.
pub const HALF_BITS: u64 = 0x3fe0_0000_0000_0000;

/// The pattern of minus a half.
pub const MINUS_HALF_BITS: u64 = 0xbfe0_0000_0000_0000;

/// The range from which an angle is drawn: from zero up to, but without, a
/// full turn. A random direction is made of two such angles, a point on the
/// lens of one.
pub fn turn() -> (range: Interval)
    ensures
        range == (Interval { start: Scalar { bits: ZERO_BITS }, end: Scalar { bits: TURN_BITS } }),
{
    Interval { start: Scalar { bits: ZERO_BITS }, end: Scalar { bits: TURN_BITS } }
}

/// The range from which a share is drawn: from zero up to, but without, one.
/// The chance of a reflection is held against such a draw, and a point on
/// the lens lies at such a share of the lens's radius.
pub fn share() -> (range: Interval)
    ensures
        range == (Interval { start: Scalar { bits: ZERO_BITS }, end: Scalar { bits: ONE_BITS } }),
{
    Interval { start: Scalar { bits: ZERO_BITS }, end: Scalar { bits: ONE_BITS } }
}

/// The range from which the place of a sample inside its pixel is drawn, in
/// steps from pixel to pixel: from half a step before the centre up to, but
/// without, half a step behind it.
pub fn jitter() -> (range: Interval)
    ensures
        range == (Interval {
            start: Scalar { bits: MINUS_HALF_BITS },
            end: Scalar { bits: HALF_BITS },
        }),
{
    Interval { start: Scalar { bits: MINUS_HALF_BITS }, end: Scalar { bits: HALF_BITS } }
}

} // verus!
