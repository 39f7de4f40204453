//! Playback speed as a fixed-point number.
//!
//! A speed is held in thousandths of the normal rate: 1000 is normal, 500
//! half, 2000 double. A request outside the range is clamped to its nearest
//! end; no request is rejected.

use vstd::prelude::*;

verus! {

/// The slowest speed, in thousandths of normal.
pub const MIN_SPEED: u32 = 500;

/// The fastest speed, in thousandths of normal.
pub const MAX_SPEED: u32 = 2000;

/// The normal speed, in thousandths.
pub const NORMAL_SPEED: u32 = 1000;

/// `requested` brought into the range of speeds.
pub open spec fn clamp_speed(requested: int) -> int {
    if requested < MIN_SPEED {
        MIN_SPEED as int
    } else if requested > MAX_SPEED {
        MAX_SPEED as int
    } else {
        requested
    }
}

/// A playback speed within the permitted range.
#[derive(Clone, Copy, Debug, PartialEq, Eq, Structural)]
pub struct Speed {
    permille: u32,
}

impl View for Speed {
    type V = int;

    closed spec fn view(&self) -> int {
        self.permille as int
    }
}

impl Speed {
    #[verifier::type_invariant]
    spec fn in_range(self) -> bool {
        MIN_SPEED <= self.permille <= MAX_SPEED
    }

    /// The normal speed.
    pub fn normal() -> (speed: Speed)
        ensures
            speed@ == NORMAL_SPEED,
    {
        Speed { permille: NORMAL_SPEED }
    }

    /// The speed nearest to `requested` thousandths: the request itself
    /// where it lies in the range, else the end of the range it lies beyond.
    pub fn clamped(requested: i64) -> (speed: Speed)
        ensures
            speed@ == clamp_speed(requested as int),
    {
        if requested < 500 {
            Speed { permille: MIN_SPEED }
        } else if requested > 2000 {
            Speed { permille: MAX_SPEED }
        } else {
            Speed { permille: requested as u32 }
        }
    }

    /// The speed in thousandths of normal.
    pub fn permille(&self) -> (value: u32)
        ensures
            value == self@,
            MIN_SPEED <= value <= MAX_SPEED,
    {
        proof {
            use_type_invariant(self);
        }
        self.permille
    }
}

/// Clamping never fails and never leaves the range; it changes nothing that
/// is already inside, sends everything above to the top and everything
/// below to the bottom, and clamping twice is clamping once.
pub proof fn law_clamp(requested: int)
    ensures
        MIN_SPEED <= clamp_speed(requested) <= MAX_SPEED,
        MIN_SPEED <= requested <= MAX_SPEED ==> clamp_speed(requested) == requested,
        requested > MAX_SPEED ==> clamp_speed(requested) == MAX_SPEED,
        requested < MIN_SPEED ==> clamp_speed(requested) == MIN_SPEED,
        clamp_speed(clamp_speed(requested)) == clamp_speed(requested),
{
}

} // verus!
