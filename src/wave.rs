use crate::phase::{fraction_units, phase_add, phase_scale, Phase, HALF_TURN, TURN};
use crate::signal::{FmCarrier, Signal, FULL_SCALE};
use vstd::arithmetic::div_mod::*;
use vstd::prelude::*;

verus! {

/// The phase of a wave at total index `i`: its starting angle plus `i` steps
/// of its phase per pixel, wrapped to one turn.
pub open spec fn wave_phase(start: nat, step: nat, i: int) -> nat {
    ((start + step * i) % (TURN as int)) as nat
}

/// The level of a square wave at a phase: full scale in the first half of the
/// turn, minus full scale in the second.
pub open spec fn square_level(phase: nat) -> int {
    if phase < HALF_TURN {
        FULL_SCALE as int
    } else {
        -FULL_SCALE
    }
}

proof fn lemma_wave_phase_split(start: nat, step: nat, i: nat)
    ensures
        wave_phase(start, step, i as int) == phase_add(start, phase_scale(step, i as int)),
{
    lemma_add_mod_noop_right(start as int, (step * i) as int, TURN as int);
}

/// A sine carrier, evaluated pixel by pixel at a fixed dot clock.
#[derive(Clone, Copy)]
pub struct Sine {
    frequency: u32,
    phase_per_pixel: Phase,
    starting_angle: Phase,
}

impl Sine {
    /// The frequency, in turns per second.
    pub closed spec fn frequency_spec(&self) -> nat {
        self.frequency as nat
    }

    /// The phase swept in one pixel.
    pub closed spec fn step(&self) -> nat {
        self.phase_per_pixel@
    }

    /// The phase at total index zero of the current frame.
    pub closed spec fn start(&self) -> nat {
        self.starting_angle@
    }

    /// A sine of `frequency` turns per second, sampled `dot_clock` times per
    /// second, starting at phase zero.
    pub fn from_freq(frequency: u32, dot_clock: u32) -> (r: Sine)
        requires
            dot_clock > 0,
        ensures
            r.frequency_spec() == frequency,
            r.step() == fraction_units(frequency as int, dot_clock as int),
            r.start() == 0,
    {
        Sine {
            frequency,
            phase_per_pixel: Phase::from_fraction(frequency as i64, dot_clock as u64),
            starting_angle: Phase(0),
        }
    }

    /// The frequency, in turns per second.
    pub fn frequency(&self) -> (r: u32)
        ensures
            r == self.frequency_spec(),
    {
        self.frequency
    }

    /// Moves the starting angle on by `frame_size` pixels, so that the next
    /// frame continues where this one ends.
    pub fn next_frame(&mut self, frame_size: u32)
        ensures
            final(self).frequency_spec() == old(self).frequency_spec(),
            final(self).step() == old(self).step(),
            final(self).start() == wave_phase(old(self).start(), old(self).step(), frame_size as int),
    {
        proof {
            lemma_wave_phase_split(self.start(), self.step(), frame_size as nat);
        }
        self.starting_angle = self.starting_angle.add(self.phase_per_pixel.mul(frame_size));
    }

    /// The phase at a total index.
    pub fn phase_at(&self, total_index: u32) -> (r: Phase)
        ensures
            r@ == wave_phase(self.start(), self.step(), total_index as int),
    {
        proof {
            lemma_wave_phase_split(self.start(), self.step(), total_index as nat);
        }
        self.starting_angle.add(self.phase_per_pixel.mul(total_index))
    }

    /// The phase at a total index, shifted by `deviation`.
    pub fn phase_with_deviation(&self, total_index: u32, deviation: Phase) -> (r: Phase)
        ensures
            r@ == phase_add(wave_phase(self.start(), self.step(), total_index as int), deviation@),
    {
        self.phase_at(total_index).add(deviation)
    }
}

/// A square carrier, evaluated pixel by pixel at a fixed dot clock.
#[derive(Clone, Copy)]
pub struct Square {
    phase_per_pixel: Phase,
    starting_angle: Phase,
}

impl Square {
    /// The phase swept in one pixel.
    pub closed spec fn step(&self) -> nat {
        self.phase_per_pixel@
    }

    /// The phase at total index zero of the current frame.
    pub closed spec fn start(&self) -> nat {
        self.starting_angle@
    }

    /// A square wave of `frequency` turns per second, sampled `dot_clock`
    /// times per second, starting at phase zero.
    pub fn from_freq(frequency: u32, dot_clock: u32) -> (r: Square)
        requires
            dot_clock > 0,
        ensures
            r.step() == fraction_units(frequency as int, dot_clock as int),
            r.start() == 0,
    {
        Square {
            phase_per_pixel: Phase::from_fraction(frequency as i64, dot_clock as u64),
            starting_angle: Phase(0),
        }
    }

    /// Moves the starting angle on by `frame_size` pixels, so that the next
    /// frame continues where this one ends.
    pub fn next_frame(&mut self, frame_size: u32)
        ensures
            final(self).step() == old(self).step(),
            final(self).start() == wave_phase(old(self).start(), old(self).step(), frame_size as int),
    {
        proof {
            lemma_wave_phase_split(self.start(), self.step(), frame_size as nat);
        }
        self.starting_angle = self.starting_angle.add(self.phase_per_pixel.mul(frame_size));
    }

    /// The phase at a total index.
    pub fn phase_at(&self, total_index: u32) -> (r: Phase)
        ensures
            r@ == wave_phase(self.start(), self.step(), total_index as int),
    {
        proof {
            lemma_wave_phase_split(self.start(), self.step(), total_index as nat);
        }
        self.starting_angle.add(self.phase_per_pixel.mul(total_index))
    }

    /// The level at a total index.
    pub fn sample(&self, total_index: u32) -> (r: i32)
        ensures
            r == square_level(wave_phase(self.start(), self.step(), total_index as int)),
    {
        if self.phase_at(total_index).is_first_half() {
            FULL_SCALE
        } else {
            -FULL_SCALE
        }
    }

    /// The level at a total index, its phase shifted by `deviation`.
    pub fn sample_with_deviation(&self, total_index: u32, deviation: Phase) -> (r: i32)
        ensures
            r == square_level(
                phase_add(wave_phase(self.start(), self.step(), total_index as int), deviation@),
            ),
    {
        if self.phase_at(total_index).add(deviation).is_first_half() {
            FULL_SCALE
        } else {
            -FULL_SCALE
        }
    }
}

impl Signal for Square {
    open spec fn covers(&self, total_index: u32) -> bool {
        true
    }

    open spec fn level(&self, total_index: u32) -> int {
        square_level(wave_phase(self.start(), self.step(), total_index as int))
    }

    fn sample(&self, total_index: u32) -> (r: i32) {
        Square::sample(self, total_index)
    }
}

impl FmCarrier for Square {
    open spec fn deviated_phase(&self, total_index: u32, deviation: nat) -> nat {
        phase_add(wave_phase(self.start(), self.step(), total_index as int), deviation)
    }

    fn phase_with_deviation(&self, total_index: u32, deviation: Phase) -> (r: Phase) {
        self.phase_at(total_index).add(deviation)
    }
}

impl FmCarrier for Sine {
    open spec fn deviated_phase(&self, total_index: u32, deviation: nat) -> nat {
        phase_add(wave_phase(self.start(), self.step(), total_index as int), deviation)
    }

    fn phase_with_deviation(&self, total_index: u32, deviation: Phase) -> (r: Phase) {
        Sine::phase_with_deviation(self, total_index, deviation)
    }
}

/// A wave whose phase per pixel is exactly `frequency / dot_clock` turns
/// comes back to the same phase after `dot_clock` pixels: its phase at
/// `i + k * dot_clock` is its phase at `i`, for every starting angle.
pub proof fn lemma_phase_periodic(start: nat, frequency: nat, dot_clock: nat, i: int, k: int)
    requires
        dot_clock > 0,
        (frequency * TURN) % (dot_clock as int) == 0,
    ensures
        wave_phase(start, fraction_units(frequency as int, dot_clock as int), i + k * dot_clock)
            == wave_phase(start, fraction_units(frequency as int, dot_clock as int), i),
{
    let t = TURN as int;
    let d = dot_clock as int;
    let f = frequency as int;
    let q = (f * t) / d;
    lemma_fundamental_div_mod(f * t, d);
    assert(q * d == f * t);
    assert((2 * f * t + d) / (2 * d) == q) by {
        assert(2 * f * t + d == q * (2 * d) + d) by (nonlinear_arith)
            requires
                q * d == f * t,
        ;
        lemma_fundamental_div_mod_converse_div(2 * f * t + d, 2 * d, q, d);
    }
    assert(q >= 0) by (nonlinear_arith)
        requires
            q * d == f * t,
            d > 0,
            f >= 0,
            t > 0,
    ;
    let step = fraction_units(f, d);
    assert(step == q % t);
    lemma_fundamental_div_mod(q, t);
    let m = f - (q / t) * d;
    assert(step * d == t * m) by (nonlinear_arith)
        requires
            step == q - t * (q / t),
            q * d == f * t,
            m == f - (q / t) * d,
    ;
    assert(start + step * (i + k * d) == t * (k * m) + (start + step * i)) by (nonlinear_arith)
        requires
            step * d == t * m,
    ;
    lemma_mod_multiples_vanish(k * m, start + step * i, t);
}

/// Frame seams are continuous: once a wave's starting angle has moved on by
/// `frame_size` pixels, its phase at `i` is its former phase at
/// `frame_size + i`.
pub proof fn lemma_frame_seam(start: nat, step: nat, frame_size: int, i: int)
    ensures
        wave_phase(wave_phase(start, step, frame_size), step, i)
            == wave_phase(start, step, frame_size + i),
{
    let t = TURN as int;
    lemma_add_mod_noop((start + step * frame_size), step * i, t);
    lemma_mod_twice(step * i, t);
    lemma_add_mod_noop((start + step * frame_size) % t, step * i, t);
    lemma_mod_twice(start + step * frame_size, t);
    assert(start + step * frame_size + step * i == start + step * (frame_size + i)) by (nonlinear_arith);
}

} // verus!
