use crate::phase::{fraction_units, phase_scale, Phase};
use vstd::prelude::*;

verus! {

/// A point in time as a fraction of a second: `numerator / denominator`
/// seconds.
pub struct DiscreteTime {
    pub numerator: u32,
    pub denominator: u32,
}

impl DiscreteTime {
    /// The phase that a wave of `frequency` turns per second has swept by
    /// this time, counted in steps of `1 / denominator` seconds.
    pub fn to_phase(&self, frequency: u32) -> (r: Phase)
        requires
            self.denominator > 0,
        ensures
            r@ == phase_scale(
                fraction_units(frequency as int, self.denominator as int),
                self.numerator as int,
            ),
    {
        let phase_per_step = Phase::from_fraction(frequency as i64, self.denominator as u64);
        phase_per_step.mul(self.numerator)
    }
}

} // verus!
