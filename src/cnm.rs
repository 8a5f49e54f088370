use vstd::prelude::*;
use crate::utilities::Satellite;

verus! {

/// The carrier-to-noise density lies outside `[min, max]`.
pub open spec fn density_out_of_range(s: Satellite, min: u8, max: u8) -> bool {
    s.carrier_to_noise_density < min || s.carrier_to_noise_density > max
}

/// Flags signals whose strength is implausible for a genuine sky signal.
pub struct CarrierToNoiseDensityMethod {
    pub min_carrier_to_noise_density: u8,
    pub max_carrier_to_noise_density: u8,
}

impl CarrierToNoiseDensityMethod {
    pub fn new(min_carrier_to_noise_density: u8, max_carrier_to_noise_density: u8) -> (r: Self)
        ensures
            r.min_carrier_to_noise_density == min_carrier_to_noise_density,
            r.max_carrier_to_noise_density == max_carrier_to_noise_density,
    {
        CarrierToNoiseDensityMethod { min_carrier_to_noise_density, max_carrier_to_noise_density }
    }

    /// True when some satellite's density lies outside the configured range.
    pub fn detect_spoofing_attack(&self, satellites: &[Satellite]) -> (r: bool)
        ensures
            r == exists|i: int|
                0 <= i < satellites@.len() && density_out_of_range(
                    #[trigger] satellites@[i],
                    self.min_carrier_to_noise_density,
                    self.max_carrier_to_noise_density,
                ),
    {
        let mut k: usize = 0;
        while k < satellites.len()
            invariant
                k <= satellites@.len(),
                forall|i: int|
                    0 <= i < k ==> !density_out_of_range(
                        #[trigger] satellites@[i],
                        self.min_carrier_to_noise_density,
                        self.max_carrier_to_noise_density,
                    ),
            decreases satellites@.len() - k,
        {
            let s = &satellites[k];
            if s.carrier_to_noise_density < self.min_carrier_to_noise_density
                || s.carrier_to_noise_density > self.max_carrier_to_noise_density
            {
                return true;
            }
            k = k + 1;
        }
        false
    }
}

} // verus!
