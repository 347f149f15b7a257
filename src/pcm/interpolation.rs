use crate::pcm::format::PcmFormat;
use crate::pcm::{locate, owner, Pcm};
use crate::signal::{Signal, FULL_SCALE};
use vstd::arithmetic::div_mod::*;
use vstd::prelude::*;

verus! {

/// How a PCM window is read between sample boundaries.
#[derive(Clone, Copy, PartialEq, Eq, Structural, Debug)]
pub enum Interpolation {
    Nearest,
    Linear,
}

/// A PCM window read by holding each sample over its whole window.
pub struct Nearest<T>(pub T);

/// A PCM window read by interpolating linearly between a sample and the next.
pub struct Linear<T>(pub T);

/// Linear interpolation from `sample` to `next`, `rem / frame_pixels` of the
/// way, rounded down to a whole level.
pub open spec fn lerp_level(sample: int, next: int, rem: int, frame_pixels: int) -> int {
    (sample * (frame_pixels - rem) + next * rem) / frame_pixels
}

impl<T: PcmFormat> Signal for Nearest<Pcm<T>> {
    open spec fn covers(&self, total_index: u32) -> bool {
        &&& self.0.frame_pixels > 0
        &&& owner(self.0.samples_per_frame as nat, self.0.frame_pixels as nat, total_index as int)
            < self.0.samples@.len()
    }

    open spec fn level(&self, total_index: u32) -> int {
        self.0.samples@[owner(
            self.0.samples_per_frame as nat,
            self.0.frame_pixels as nat,
            total_index as int,
        )].level_of()
    }

    fn sample(&self, total_index: u32) -> (r: i32) {
        let (k, _) = locate(total_index, self.0.samples_per_frame, self.0.frame_pixels);
        let len = self.0.samples.len();
        proof {
            assert(k < len);
        }
        self.0.samples[k as usize].amplitude()
    }
}

impl<T: PcmFormat> Signal for Linear<Pcm<T>> {
    open spec fn covers(&self, total_index: u32) -> bool {
        &&& self.0.frame_pixels > 0
        &&& owner(self.0.samples_per_frame as nat, self.0.frame_pixels as nat, total_index as int)
            + 1 < self.0.samples@.len()
    }

    open spec fn level(&self, total_index: u32) -> int {
        let k = owner(
            self.0.samples_per_frame as nat,
            self.0.frame_pixels as nat,
            total_index as int,
        );
        lerp_level(
            self.0.samples@[k].level_of(),
            self.0.samples@[k + 1].level_of(),
            (total_index * self.0.samples_per_frame) % (self.0.frame_pixels as int),
            self.0.frame_pixels as int,
        )
    }

    fn sample(&self, total_index: u32) -> (r: i32) {
        let (k, within) = locate(total_index, self.0.samples_per_frame, self.0.frame_pixels);
        let len = self.0.samples.len();
        proof {
            assert(k + 1 < len);
        }
        let index: usize = k as usize;
        let rem: i64 = within as i64;
        let fp: i64 = self.0.frame_pixels as i64;
        let sample: i64 = self.0.samples[index].amplitude() as i64;
        let next: i64 = self.0.samples[index + 1].amplitude() as i64;
        let f: i64 = FULL_SCALE as i64;
        proof {
            assert(-f * fp <= sample * (fp - rem) + next * rem <= f * fp) by (nonlinear_arith)
                requires
                    -f <= sample <= f,
                    -f <= next <= f,
                    0 <= rem < fp,
                    f == 32768,
                    fp <= 0xffff_ffff,
            ;
            assert(-140737488355328 <= sample * (fp - rem) <= 140737488355328
                && -140737488355328 <= next * rem <= 140737488355328) by (nonlinear_arith)
                requires
                    -f <= sample <= f,
                    -f <= next <= f,
                    0 <= rem < fp,
                    f == 32768,
                    fp <= 0xffff_ffff,
            ;
            assert(-f * fp >= -140737488355328) by (nonlinear_arith)
                requires
                    f == 32768,
                    0 < fp <= 0xffff_ffff,
            ;
            assert(0 <= sample * (fp - rem) + 140737488355328) by (nonlinear_arith)
                requires
                    -f <= sample <= f,
                    0 <= rem < fp,
                    f == 32768,
                    fp <= 0xffff_ffff,
            ;
        }
        let sum: i64 = sample * (fp - rem) + next * rem;
        let shifted: u64 = (sum + f * fp) as u64;
        proof {
            let fi = f as int;
            let pi = fp as int;
            lemma_hoist_over_denominator(sum as int, fi, fp as nat);
            lemma_div_is_ordered(-fi * pi, sum as int, pi);
            lemma_div_is_ordered(sum as int, fi * pi, pi);
            assert((-fi * pi) / pi == -fi) by {
                assert(-fi * pi == pi * (-fi)) by (nonlinear_arith);
                lemma_div_multiples_vanish(-fi, pi);
            }
            assert((fi * pi) / pi == fi) by {
                assert(fi * pi == pi * fi) by (nonlinear_arith);
                lemma_div_multiples_vanish(fi, pi);
            }
        }
        let r = ((shifted / self.0.frame_pixels as u64) as i64 - f) as i32;
        proof {
            assert(r == sum as int / fp as int);
            assert(sample == self.0.samples@[index as int].level_of());
            assert(next == self.0.samples@[index + 1].level_of());
        }
        r
    }
}

/// A PCM window together with the way it is read.
pub enum PcmSignal<T> {
    Nearest(Nearest<Pcm<T>>),
    Linear(Linear<Pcm<T>>),
}

impl<T: PcmFormat> Signal for PcmSignal<T> {
    open spec fn covers(&self, total_index: u32) -> bool {
        match self {
            PcmSignal::Nearest(s) => s.covers(total_index),
            PcmSignal::Linear(s) => s.covers(total_index),
        }
    }

    open spec fn level(&self, total_index: u32) -> int {
        match self {
            PcmSignal::Nearest(s) => s.level(total_index),
            PcmSignal::Linear(s) => s.level(total_index),
        }
    }

    fn sample(&self, total_index: u32) -> (r: i32) {
        match self {
            PcmSignal::Nearest(s) => s.sample(total_index),
            PcmSignal::Linear(s) => s.sample(total_index),
        }
    }
}

} // verus!
