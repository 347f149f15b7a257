use crate::phase::Phase;
use vstd::prelude::*;

verus! {

/// Amplitude levels are integers in units of `1 / FULL_SCALE`: the level
/// `FULL_SCALE` is an amplitude of `1`, and `-FULL_SCALE` one of `-1`.
pub const FULL_SCALE: i32 = 32768;

/// A source of amplitude levels, one per total pixel index.
pub trait Signal {
    /// Whether the signal is defined at this total index.
    spec fn covers(&self, total_index: u32) -> bool;

    /// The level of the signal at this total index.
    spec fn level(&self, total_index: u32) -> int;

    fn sample(&self, total_index: u32) -> (r: i32)
        requires
            self.covers(total_index),
        ensures
            r == self.level(total_index),
            -FULL_SCALE <= r <= FULL_SCALE,
    ;
}

/// A source of phase values, one per total pixel index: the integral of a
/// frequency deviation, as used to drive frequency modulation.
pub trait IntSignal {
    /// Whether the signal is defined at this total index.
    spec fn phase_covers(&self, total_index: u32) -> bool;

    /// The phase of the signal at this total index.
    spec fn phase_at(&self, total_index: u32) -> nat;

    fn sample(&self, total_index: u32) -> (r: Phase)
        requires
            self.phase_covers(total_index),
        ensures
            r@ == self.phase_at(total_index),
    ;
}

/// A carrier whose phase can be shifted by a deviation before it is evaluated.
pub trait FmCarrier {
    /// The carrier's phase at this total index, shifted by `deviation`.
    spec fn deviated_phase(&self, total_index: u32, deviation: nat) -> nat;

    fn phase_with_deviation(&self, total_index: u32, deviation: Phase) -> (r: Phase)
        ensures
            r@ == self.deviated_phase(total_index, deviation@),
    ;
}

} // verus!
