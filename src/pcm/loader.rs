use crate::pcm::format::PcmFormat;
use crate::pcm::interpolation::{Interpolation, Linear, Nearest, PcmSignal};
use crate::pcm::Pcm;
use crate::signal::FULL_SCALE;
use vstd::prelude::*;

verus! {

/// Samples in one frame period: `sample_rate / vertical_sync_hz`, rounded to
/// the nearest whole sample, halves up.
pub open spec fn samples_per_frame_of(sample_rate: nat, vertical_sync_hz: nat) -> nat {
    ((2 * sample_rate + vertical_sync_hz) as int / (2 * vertical_sync_hz) as int) as nat
}

/// Why a window of raw bytes was not taken.
#[derive(Clone, Copy, PartialEq, Eq, Structural, Debug)]
pub enum PcmError {
    /// The window did not hold exactly one frame period of samples.
    IncompleteWindow { expected: usize, received: usize },
}

/// Streams raw PCM one frame period at a time. The bytes are read elsewhere
/// and handed in window by window; the loader checks and decodes them.
pub struct PcmLoader<T> {
    samples: Vec<T>,
    sample_rate: usize,
    samples_per_frame: usize,
    frame_pixels: u32,
    interpolation: Interpolation,
}

impl<T: PcmFormat> PcmLoader<T> {
    pub closed spec fn wf(&self) -> bool {
        &&& self.samples_per_frame > 0
        &&& self.frame_pixels > 0
        &&& self.samples@.len() <= self.samples_per_frame
        &&& self.samples_per_frame <= self.sample_rate
        &&& FULL_SCALE * self.sample_rate * self.frame_pixels <= i64::MAX
        &&& T::width() * self.samples_per_frame <= usize::MAX
    }

    /// The decoded samples of the current window.
    pub closed spec fn window(&self) -> Seq<T> {
        self.samples@
    }

    pub closed spec fn sample_rate_spec(&self) -> nat {
        self.sample_rate as nat
    }

    pub closed spec fn samples_per_frame(&self) -> nat {
        self.samples_per_frame as nat
    }

    pub closed spec fn frame_pixels(&self) -> nat {
        self.frame_pixels as nat
    }

    pub closed spec fn interpolation(&self) -> Interpolation {
        self.interpolation
    }

    /// A loader for `sample_rate` samples per second, whose frame period is
    /// one refresh at `vertical_sync_hz` and spans `frame_pixels` total
    /// pixels. It holds no window until the first one is handed in.
    pub fn new(sample_rate: usize, vertical_sync_hz: u32, frame_pixels: u32) -> (r: PcmLoader<T>)
        requires
            vertical_sync_hz > 0,
            frame_pixels > 0,
            samples_per_frame_of(sample_rate as nat, vertical_sync_hz as nat) > 0,
            FULL_SCALE * sample_rate * frame_pixels <= i64::MAX,
            T::width() * samples_per_frame_of(sample_rate as nat, vertical_sync_hz as nat)
                <= usize::MAX,
        ensures
            r.wf(),
            r.window().len() == 0,
            r.sample_rate_spec() == sample_rate,
            r.samples_per_frame() == samples_per_frame_of(
                sample_rate as nat,
                vertical_sync_hz as nat,
            ),
            r.frame_pixels() == frame_pixels,
            r.interpolation() == Interpolation::Nearest,
    {
        let rate: u128 = sample_rate as u128;
        let sync: u128 = vertical_sync_hz as u128;
        let spf: usize = ((2 * rate + sync) / (2 * sync)) as usize;
        proof {
            let s = sample_rate as int;
            let v = vertical_sync_hz as int;
            let q = (2 * s + v) / (2 * v);
            vstd::arithmetic::div_mod::lemma_fundamental_div_mod(2 * s + v, 2 * v);
            let m = (2 * s + v) % (2 * v);
            assert(q <= s) by (nonlinear_arith)
                requires
                    2 * s + v == (2 * v) * q + m,
                    0 <= m,
                    v >= 1,
                    q >= 1,
            ;
        }
        PcmLoader {
            samples: Vec::new(),
            sample_rate,
            samples_per_frame: spf,
            frame_pixels,
            interpolation: Interpolation::Nearest,
        }
    }

    /// The exact number of bytes in one window.
    pub fn window_bytes(&self) -> (r: usize)
        requires
            self.wf(),
        ensures
            r == T::width() * self.samples_per_frame(),
            1 <= T::width() <= 8,
    {
        T::bytes() * self.samples_per_frame
    }

    /// Replaces the current window by the next frame period of raw bytes,
    /// decoded. A window that is not exactly one frame period long is
    /// refused, and the loader is left as it was.
    pub fn next_frame(&mut self, window: &[u8]) -> (r: Result<(), PcmError>)
        requires
            old(self).wf(),
        ensures
            final(self).wf(),
            final(self).sample_rate_spec() == old(self).sample_rate_spec(),
            final(self).samples_per_frame() == old(self).samples_per_frame(),
            final(self).frame_pixels() == old(self).frame_pixels(),
            final(self).interpolation() == old(self).interpolation(),
            r.is_ok() <==> window@.len() == T::width() * old(self).samples_per_frame(),
            r.is_ok() ==> {
                &&& final(self).window().len() == old(self).samples_per_frame()
                &&& forall|k: int|
                    0 <= k < old(self).samples_per_frame() ==> #[trigger] final(self).window()[k].level_of()
                        == T::chunk_level(window@.subrange(k * T::width(), k * T::width() + T::width()))
            },
            r matches Err(PcmError::IncompleteWindow { expected, received }) ==> {
                &&& expected == T::width() * old(self).samples_per_frame()
                &&& received == window@.len()
                &&& final(self).window() == old(self).window()
            },
    {
        let expected = self.window_bytes();
        if window.len() != expected {
            return Err(PcmError::IncompleteWindow { expected, received: window.len() });
        }
        let decoded = T::from_bytes(window);
        proof {
            vstd::arithmetic::div_mod::lemma_div_multiples_vanish(
                self.samples_per_frame as int,
                T::width() as int,
            );
            assert(window@.len() as int / (T::width() as int) == self.samples_per_frame) by {
                assert(window@.len() == T::width() * self.samples_per_frame);
            }
        }
        self.samples = decoded;
        Ok(())
    }

    /// A read-only copy of the current window, with its timing.
    pub fn pcm(&self) -> (r: Pcm<T>)
        requires
            self.wf(),
        ensures
            r.wf(),
            r.samples@ == self.window(),
            r.sample_rate == self.sample_rate_spec(),
            r.samples_per_frame == self.samples_per_frame(),
            r.frame_pixels == self.frame_pixels(),
    {
        let mut samples: Vec<T> = Vec::new();
        let mut k: usize = 0;
        while k < self.samples.len()
            invariant
                k <= self.samples@.len(),
                samples@ == self.samples@.subrange(0, k as int),
            decreases self.samples@.len() - k,
        {
            samples.push(self.samples[k]);
            k = k + 1;
        }
        proof {
            assert(samples@ =~= self.samples@);
            assert(FULL_SCALE * self.samples_per_frame <= FULL_SCALE * self.sample_rate * self.frame_pixels)
                by (nonlinear_arith)
                requires
                    self.samples_per_frame <= self.sample_rate,
                    self.frame_pixels >= 1,
            ;
        }
        Pcm {
            samples,
            sample_rate: self.sample_rate,
            samples_per_frame: self.samples_per_frame,
            frame_pixels: self.frame_pixels,
        }
    }

    /// The current window as a signal, read the way the loader is set to.
    pub fn samples(&self) -> (r: PcmSignal<T>)
        requires
            self.wf(),
        ensures
            match r {
                PcmSignal::Nearest(s) => self.interpolation() == Interpolation::Nearest
                    && s.0.samples@ == self.window() && s.0.wf()
                    && s.0.samples_per_frame == self.samples_per_frame()
                    && s.0.frame_pixels == self.frame_pixels(),
                PcmSignal::Linear(s) => self.interpolation() == Interpolation::Linear
                    && s.0.samples@ == self.window() && s.0.wf()
                    && s.0.samples_per_frame == self.samples_per_frame()
                    && s.0.frame_pixels == self.frame_pixels(),
            },
    {
        let pcm = self.pcm();
        match self.interpolation {
            Interpolation::Nearest => PcmSignal::Nearest(Nearest(pcm)),
            Interpolation::Linear => PcmSignal::Linear(Linear(pcm)),
        }
    }

    /// Chooses how the window is read between sample boundaries.
    pub fn set_interp(&mut self, method: Interpolation)
        ensures
            final(self).interpolation() == method,
            final(self).window() == old(self).window(),
            final(self).wf() == old(self).wf(),
            final(self).sample_rate_spec() == old(self).sample_rate_spec(),
            final(self).samples_per_frame() == old(self).samples_per_frame(),
            final(self).frame_pixels() == old(self).frame_pixels(),
    {
        self.interpolation = method;
    }
}

} // verus!
