use vstd::prelude::*;
use crate::cdm::{origin_after, DriftVerdict, TimeDriftMethod};
use crate::cnm::{density_out_of_range, CarrierToNoiseDensityMethod};
use crate::edv::{LookAngles, OrbitPositionsMethod};
use crate::geofence::{inside, Point};
use crate::pcc::{
    turns_too_fast, PhysicalEnvironmentLimitMethod, PhysicalHeightLimit, PhysicalRateOfTurnLimit,
    PhysicalSpeedLimit,
};
use crate::utilities::Satellite;

verus! {

/// One navigation fix of the vessel.
#[derive(Clone, Copy, Debug)]
pub struct NavigationFix {
    /// Time of the fix by the satellites' clock, milliseconds since the Unix epoch.
    pub timestamp_ms: u64,
    /// Units of 1e-7 degree.
    pub latitude: i32,
    /// Units of 1e-7 degree.
    pub longitude: i32,
    pub height: i32,
    pub speed_over_ground: u32,
    /// Millidegrees.
    pub course: i32,
}

/// The verdict of each method on one fix.
#[derive(Clone, Copy, Debug, PartialEq, Eq)]
pub struct MethodVerdicts {
    pub clock_drift: DriftVerdict,
    pub carrier_to_noise: bool,
    pub orbit_positions: bool,
    pub speed: bool,
    pub height: bool,
    pub rate_of_turn: bool,
    pub geofence: bool,
}

impl MethodVerdicts {
    pub open spec fn any_spec(&self) -> bool {
        ||| self.clock_drift == DriftVerdict::Suspicious
        ||| self.carrier_to_noise
        ||| self.orbit_positions
        ||| self.speed
        ||| self.height
        ||| self.rate_of_turn
        ||| self.geofence
    }

    /// True when at least one detector reports the fix.
    pub fn any(&self) -> (r: bool)
        ensures
            r == self.any_spec(),
    {
        let drift_flags = match self.clock_drift {
            DriftVerdict::Suspicious => true,
            _ => false,
        };
        drift_flags || self.carrier_to_noise || self.orbit_positions || self.speed
            || self.height || self.rate_of_turn || self.geofence
    }
}

/// One vessel's detectors, each owning its own state.
pub struct DetectionEnsemble {
    pub time_drift: TimeDriftMethod,
    pub carrier_to_noise: CarrierToNoiseDensityMethod,
    pub orbit_positions: OrbitPositionsMethod,
    pub speed_limit: PhysicalSpeedLimit,
    pub height_limit: PhysicalHeightLimit,
    pub rate_of_turn_limit: PhysicalRateOfTurnLimit,
    pub environment_limit: PhysicalEnvironmentLimitMethod,
}

/// The satellites' clock reading of a fix, in whole seconds.
pub open spec fn fix_seconds(fix: NavigationFix) -> i64 {
    (fix.timestamp_ms / 1000) as i64
}

pub open spec fn fix_point(fix: NavigationFix) -> Point {
    Point { latitude: fix.latitude, longitude: fix.longitude }
}

impl DetectionEnsemble {
    pub open spec fn wf(&self) -> bool {
        self.time_drift.wf() && self.environment_limit.wf()
    }

    /// What each method says of one fix.
    pub open spec fn verdicts_on(
        &self,
        local_system_time: i64,
        fix: NavigationFix,
        satellites: Seq<Satellite>,
        expected: Seq<Option<LookAngles>>,
    ) -> MethodVerdicts {
        MethodVerdicts {
            clock_drift: self.time_drift.verdict_after(local_system_time, fix_seconds(fix)),
            carrier_to_noise: exists|i: int|
                0 <= i < satellites.len() && density_out_of_range(
                    #[trigger] satellites[i],
                    self.carrier_to_noise.min_carrier_to_noise_density,
                    self.carrier_to_noise.max_carrier_to_noise_density,
                ),
            orbit_positions: exists|i: int|
                0 <= i < satellites.len() && self.orbit_positions.satellite_flagged(
                    #[trigger] satellites[i],
                    expected[i],
                ),
            speed: fix.speed_over_ground > self.speed_limit.max_speed,
            height: fix.height > self.height_limit.max_height || fix.height
                < self.height_limit.min_height,
            rate_of_turn: self.rate_of_turn_limit.has_previous && fix.speed_over_ground
                >= self.rate_of_turn_limit.min_speed_to_determine_rate_of_turn && turns_too_fast(
                self.rate_of_turn_limit.previous_update_time as int,
                self.rate_of_turn_limit.previous_course as int,
                fix.timestamp_ms as int,
                fix.course as int,
                self.rate_of_turn_limit.max_rate_of_turn as int,
            ),
            geofence: exists|i: int|
                0 <= i < self.environment_limit.polygons.len() && inside(
                    #[trigger] self.environment_limit.polygons@[i].points@,
                    fix_point(fix),
                ),
        }
    }

    pub fn new(
        time_drift: TimeDriftMethod,
        carrier_to_noise: CarrierToNoiseDensityMethod,
        orbit_positions: OrbitPositionsMethod,
        speed_limit: PhysicalSpeedLimit,
        height_limit: PhysicalHeightLimit,
        rate_of_turn_limit: PhysicalRateOfTurnLimit,
        environment_limit: PhysicalEnvironmentLimitMethod,
    ) -> (r: Self)
        requires
            time_drift.wf(),
            environment_limit.wf(),
        ensures
            r.wf(),
            r.time_drift == time_drift,
            r.carrier_to_noise == carrier_to_noise,
            r.orbit_positions == orbit_positions,
            r.speed_limit == speed_limit,
            r.height_limit == height_limit,
            r.rate_of_turn_limit == rate_of_turn_limit,
            r.environment_limit == environment_limit,
    {
        DetectionEnsemble {
            time_drift,
            carrier_to_noise,
            orbit_positions,
            speed_limit,
            height_limit,
            rate_of_turn_limit,
            environment_limit,
        }
    }

    /// Runs every method on one fix. `local_system_time` is the receiver's
    /// own clock in seconds; `expected[i]` is the predicted position of
    /// `satellites[i]` (see `OrbitPositionsMethod::detect_spoofing_attack`).
    pub fn evaluate(
        &mut self,
        local_system_time: i64,
        fix: &NavigationFix,
        satellites: &[Satellite],
        expected: &[Option<LookAngles>],
    ) -> (r: MethodVerdicts)
        requires
            old(self).wf(),
            satellites@.len() == expected@.len(),
        ensures
            final(self).wf(),
            r == old(self).verdicts_on(local_system_time, *fix, satellites@, expected@),
            final(self).time_drift.past_measurements@ == old(self).time_drift.history_after(
                local_system_time,
                fix_seconds(*fix),
            ),
            final(self).time_drift.origin == Some(
                origin_after(old(self).time_drift.origin, local_system_time, fix_seconds(*fix)),
            ),
            final(self).rate_of_turn_limit.previous_update_time == fix.timestamp_ms,
            final(self).rate_of_turn_limit.previous_course == fix.course,
            final(self).rate_of_turn_limit.has_previous,
            final(self).carrier_to_noise == old(self).carrier_to_noise,
            final(self).orbit_positions == old(self).orbit_positions,
            final(self).speed_limit == old(self).speed_limit,
            final(self).height_limit == old(self).height_limit,
            final(self).environment_limit == old(self).environment_limit,
            final(self).time_drift.max_clock_drift_dev == old(self).time_drift.max_clock_drift_dev,
            final(self).time_drift.history_capacity == old(self).time_drift.history_capacity,
            final(self).rate_of_turn_limit.max_rate_of_turn == old(
                self,
            ).rate_of_turn_limit.max_rate_of_turn,
            final(self).rate_of_turn_limit.min_speed_to_determine_rate_of_turn == old(
                self,
            ).rate_of_turn_limit.min_speed_to_determine_rate_of_turn,
    {
        let gps_time: i64 = (fix.timestamp_ms / 1000) as i64;
        let clock_drift = self.time_drift.detect_spoofing_attack(local_system_time, gps_time);
        let carrier_to_noise = self.carrier_to_noise.detect_spoofing_attack(satellites);
        let orbit_positions = self.orbit_positions.detect_spoofing_attack(satellites, expected);
        let speed = self.speed_limit.is_spoofing_attack(fix.speed_over_ground);
        let height = self.height_limit.is_spoofing_attack(fix.height);
        let rate_of_turn = self.rate_of_turn_limit.is_spoofing_attack(
            fix.speed_over_ground,
            fix.timestamp_ms,
            fix.course,
        );
        let geofence = self.environment_limit.is_spoofing_attack(
            Point::new(fix.latitude, fix.longitude),
        );
        MethodVerdicts {
            clock_drift,
            carrier_to_noise,
            orbit_positions,
            speed,
            height,
            rate_of_turn,
            geofence,
        }
    }

    /// Runs every method on one fix and combines the verdicts: the fix is
    /// suspicious when any method flags it.
    pub fn detect_spoofing_attack(
        &mut self,
        local_system_time: i64,
        fix: &NavigationFix,
        satellites: &[Satellite],
        expected: &[Option<LookAngles>],
    ) -> (r: bool)
        requires
            old(self).wf(),
            satellites@.len() == expected@.len(),
        ensures
            final(self).wf(),
            r == old(self).verdicts_on(local_system_time, *fix, satellites@, expected@).any_spec(),
            final(self).time_drift.past_measurements@ == old(self).time_drift.history_after(
                local_system_time,
                fix_seconds(*fix),
            ),
            final(self).time_drift.origin == Some(
                origin_after(old(self).time_drift.origin, local_system_time, fix_seconds(*fix)),
            ),
            final(self).rate_of_turn_limit.previous_update_time == fix.timestamp_ms,
            final(self).rate_of_turn_limit.previous_course == fix.course,
            final(self).rate_of_turn_limit.has_previous,
            final(self).carrier_to_noise == old(self).carrier_to_noise,
            final(self).orbit_positions == old(self).orbit_positions,
            final(self).speed_limit == old(self).speed_limit,
            final(self).height_limit == old(self).height_limit,
            final(self).environment_limit == old(self).environment_limit,
            final(self).time_drift.max_clock_drift_dev == old(self).time_drift.max_clock_drift_dev,
            final(self).time_drift.history_capacity == old(self).time_drift.history_capacity,
            final(self).rate_of_turn_limit.max_rate_of_turn == old(
                self,
            ).rate_of_turn_limit.max_rate_of_turn,
            final(self).rate_of_turn_limit.min_speed_to_determine_rate_of_turn == old(
                self,
            ).rate_of_turn_limit.min_speed_to_determine_rate_of_turn,
    {
        let v = self.evaluate(local_system_time, fix, satellites, expected);
        v.any()
    }
}

} // verus!
