use vstd::prelude::*;

verus! {

/// One full turn, in millidegrees.
pub const FULL_TURN: i64 = 360_000;

/// Half a turn, in millidegrees.
pub const HALF_TURN: i64 = 180_000;

/// The non-negative distance `|a - b|` folded into one turn.
pub open spec fn folded_distance(a: int, b: int) -> int {
    (if a >= b { a - b } else { b - a }) % (FULL_TURN as int)
}

/// The smallest angle, in millidegrees, between two bearings given in millidegrees.
pub open spec fn angle_difference(a: int, b: int) -> int {
    let phi = folded_distance(a, b);
    if phi > HALF_TURN as int {
        FULL_TURN as int - phi
    } else {
        phi
    }
}

/// Smallest angular separation between two bearings (millidegrees),
/// in `[0, 180_000]`, correct across the 0/360 wrap.
pub fn minimum_angle_difference(angle1: i32, angle2: i32) -> (r: i32)
    ensures
        r as int == angle_difference(angle1 as int, angle2 as int),
        0 <= r <= HALF_TURN,
{
    let d: i64 = if angle1 >= angle2 {
        angle1 as i64 - angle2 as i64
    } else {
        angle2 as i64 - angle1 as i64
    };
    let phi: i64 = d % FULL_TURN;
    if phi > HALF_TURN {
        (FULL_TURN - phi) as i32
    } else {
        phi as i32
    }
}

/// The angle difference is symmetric, lies in `[0, 180°]`, and is zero
/// between a bearing and itself.
pub proof fn lemma_angle_difference_laws(a: int, b: int)
    ensures
        angle_difference(a, b) == angle_difference(b, a),
        0 <= angle_difference(a, b) <= HALF_TURN as int,
        angle_difference(a, a) == 0,
{
}

/// One satellite as reported by the receiver in one epoch.
pub struct Satellite {
    /// Pseudo-random-noise code of the satellite.
    pub pseudo_random_noise: u16,
    /// Elevation above the horizon, whole degrees.
    pub elevation: u8,
    /// Azimuth, whole degrees.
    pub azimuth: u16,
    /// Carrier-to-noise density, dB-Hz.
    pub carrier_to_noise_density: u8,
}

} // verus!
