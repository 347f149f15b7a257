use crate::phase::{phase_scale, Phase};
use crate::signal::{FmCarrier, IntSignal, Signal, FULL_SCALE};
use crate::wave::{square_level, Square};
use vstd::prelude::*;

verus! {

/// The peak frequency deviation, in turns per second at full-scale
/// information.
pub const MAX_DEVIATION: u32 = 37500;

/// A carrier whose phase is shifted by the integral of an information signal.
#[derive(Clone, Copy)]
pub struct FrequencyModulator<C, I> {
    pub carrier: C,
    pub information: I,
}

impl<C: FmCarrier, I: IntSignal> FrequencyModulator<C, I> {
    /// The phase deviation at a total index: the information's phase scaled
    /// by the peak deviation.
    pub fn deviation(&self, total_index: u32) -> (r: Phase)
        requires
            self.information.phase_covers(total_index),
        ensures
            r@ == phase_scale(self.information.phase_at(total_index), MAX_DEVIATION as int),
    {
        self.information.sample(total_index).mul(MAX_DEVIATION)
    }

    /// The carrier's phase at a total index, shifted by the deviation there.
    pub fn phase(&self, total_index: u32) -> (r: Phase)
        requires
            self.information.phase_covers(total_index),
        ensures
            r@ == self.carrier.deviated_phase(
                total_index,
                phase_scale(self.information.phase_at(total_index), MAX_DEVIATION as int),
            ),
    {
        let deviation = self.deviation(total_index);
        self.carrier.phase_with_deviation(total_index, deviation)
    }
}

impl<I: IntSignal> Signal for FrequencyModulator<Square, I> {
    open spec fn covers(&self, total_index: u32) -> bool {
        self.information.phase_covers(total_index)
    }

    open spec fn level(&self, total_index: u32) -> int {
        square_level(
            self.carrier.deviated_phase(
                total_index,
                phase_scale(self.information.phase_at(total_index), MAX_DEVIATION as int),
            ),
        )
    }

    fn sample(&self, total_index: u32) -> (r: i32) {
        if self.phase(total_index).is_first_half() {
            FULL_SCALE
        } else {
            -FULL_SCALE
        }
    }
}

} // verus!
