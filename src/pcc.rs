use vstd::prelude::*;
pub use crate::geofence::{Point, Polygon};
use crate::geofence::inside;
use crate::utilities::{angle_difference, minimum_angle_difference};

verus! {

/// Flags a speed over ground above what the vessel can reach.
/// Speeds are in any fixed unit, the same for the limit and the readings.
pub struct PhysicalSpeedLimit {
    pub max_speed: u32,
}

impl PhysicalSpeedLimit {
    pub fn new(max_speed: u32) -> (r: Self)
        ensures
            r.max_speed == max_speed,
    {
        Self { max_speed }
    }

    pub fn is_spoofing_attack(&self, speed: u32) -> (r: bool)
        ensures
            r == (speed > self.max_speed),
    {
        speed > self.max_speed
    }
}

/// Flags a height outside `[min_height, max_height]`
/// (for a surface vessel, a band around sea level).
pub struct PhysicalHeightLimit {
    pub max_height: i32,
    pub min_height: i32,
}

impl PhysicalHeightLimit {
    pub fn new(max_height: i32, min_height: i32) -> (r: Self)
        ensures
            r.max_height == max_height,
            r.min_height == min_height,
    {
        Self { max_height, min_height }
    }

    pub fn is_spoofing_attack(&self, height: i32) -> (r: bool)
        ensures
            r == (height > self.max_height || height < self.min_height),
    {
        height > self.max_height || height < self.min_height
    }
}

/// The turn from `prev_course` to `course` over the time between the two
/// updates is faster than `max_rate` (millidegrees per second).
/// Times are in milliseconds, courses in millidegrees; no elapsed time
/// gives no rate.
pub open spec fn turns_too_fast(
    prev_time: int,
    prev_course: int,
    time: int,
    course: int,
    max_rate: int,
) -> bool {
    let elapsed = if time >= prev_time { time - prev_time } else { prev_time - time };
    elapsed > 0 && angle_difference(course, prev_course) * 1000 > max_rate * elapsed
}

/// Flags a change of course faster than the vessel can turn. Below
/// `min_speed_to_determine_rate_of_turn` the course is too noisy and the
/// check is skipped; the last update is remembered either way.
pub struct PhysicalRateOfTurnLimit {
    /// Millidegrees per second.
    pub max_rate_of_turn: u64,
    pub min_speed_to_determine_rate_of_turn: u32,
    /// Whether an update has been seen yet.
    pub has_previous: bool,
    /// Milliseconds.
    pub previous_update_time: u64,
    /// Millidegrees.
    pub previous_course: i32,
}

impl PhysicalRateOfTurnLimit {
    pub fn new(max_rate_of_turn: u64, min_speed_to_determine_rate_of_turn: u32) -> (r: Self)
        ensures
            r.max_rate_of_turn == max_rate_of_turn,
            r.min_speed_to_determine_rate_of_turn == min_speed_to_determine_rate_of_turn,
            !r.has_previous,
    {
        Self {
            max_rate_of_turn,
            min_speed_to_determine_rate_of_turn,
            has_previous: false,
            previous_update_time: 0,
            previous_course: 0,
        }
    }

    pub fn is_spoofing_attack(&mut self, speed: u32, update_time: u64, course: i32) -> (r: bool)
        ensures
            r == (old(self).has_previous && speed >= old(
                self,
            ).min_speed_to_determine_rate_of_turn && turns_too_fast(
                old(self).previous_update_time as int,
                old(self).previous_course as int,
                update_time as int,
                course as int,
                old(self).max_rate_of_turn as int,
            )),
            final(self).max_rate_of_turn == old(self).max_rate_of_turn,
            final(self).min_speed_to_determine_rate_of_turn == old(
                self,
            ).min_speed_to_determine_rate_of_turn,
            final(self).has_previous,
            final(self).previous_update_time == update_time,
            final(self).previous_course == course,
    {
        let had_previous = self.has_previous;
        let previous_time = self.previous_update_time;
        let previous_course = self.previous_course;
        self.has_previous = true;
        self.previous_update_time = update_time;
        self.previous_course = course;
        if !had_previous || speed < self.min_speed_to_determine_rate_of_turn {
            return false;
        }
        let elapsed: u64 = if update_time >= previous_time {
            update_time - previous_time
        } else {
            previous_time - update_time
        };
        if elapsed == 0 {
            return false;
        }
        let course_difference = minimum_angle_difference(course, previous_course);
        let turned: u128 = course_difference as u128 * 1000;
        proof {
            let m = self.max_rate_of_turn as int;
            let e = elapsed as int;
            assert(m * e <= 0xffff_ffff_ffff_ffff * 0xffff_ffff_ffff_ffff) by (nonlinear_arith)
                requires
                    0 <= m <= 0xffff_ffff_ffff_ffff,
                    0 <= e <= 0xffff_ffff_ffff_ffff,
            ;
        }
        let allowed: u128 = self.max_rate_of_turn as u128 * elapsed as u128;
        turned > allowed
    }
}

/// Flags a position inside any of the configured no-go polygons.
pub struct PhysicalEnvironmentLimitMethod {
    pub polygons: Vec<Polygon>,
}

impl PhysicalEnvironmentLimitMethod {
    pub open spec fn wf(&self) -> bool {
        forall|i: int| 0 <= i < self.polygons.len() ==> (#[trigger] self.polygons@[i]).wf()
    }

    pub fn new(polygons: Vec<Polygon>) -> (r: Self)
        requires
            forall|i: int| 0 <= i < polygons.len() ==> (#[trigger] polygons@[i]).wf(),
        ensures
            r.polygons@ == polygons@,
            r.wf(),
    {
        Self { polygons }
    }

    pub fn is_spoofing_attack(&self, point: Point) -> (r: bool)
        requires
            self.wf(),
        ensures
            r == exists|i: int|
                0 <= i < self.polygons.len() && inside(
                    #[trigger] self.polygons@[i].points@,
                    point,
                ),
    {
        let mut k: usize = 0;
        while k < self.polygons.len()
            invariant
                self.wf(),
                k <= self.polygons.len(),
                forall|i: int| 0 <= i < k ==> !inside(#[trigger] self.polygons@[i].points@, point),
            decreases self.polygons.len() - k,
        {
            if self.polygons[k].is_inside(&point) {
                return true;
            }
            k = k + 1;
        }
        false
    }
}

} // verus!
