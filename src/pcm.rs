mod format;
mod integrator;
mod interpolation;
mod loader;

pub use format::{le_i16, PcmFormat, Signed16Le, Unsigned8};
pub use integrator::{
    cum_phase, deviation_units, lemma_lookup_matches_sequential, lookup_phase,
    sequential_phase, IntegratedPcm, PreintegratedLoader,
};
pub use interpolation::{lerp_level, Interpolation, Linear, Nearest, PcmSignal};
pub use loader::{samples_per_frame_of, PcmError, PcmLoader};

use crate::signal::FULL_SCALE;
use vstd::prelude::*;

verus! {

/// The index of the audio sample that owns total index `i`, with
/// `samples_per_frame` samples spread evenly over `frame_pixels` pixels.
pub open spec fn owner(samples_per_frame: nat, frame_pixels: nat, i: int) -> int {
    (i * samples_per_frame) / (frame_pixels as int)
}

/// The first total index owned by audio sample `k`: the least `i` with
/// `i * samples_per_frame >= k * frame_pixels`.
pub open spec fn window_start(samples_per_frame: nat, frame_pixels: nat, k: int) -> int {
    (k * frame_pixels + samples_per_frame - 1) / (samples_per_frame as int)
}

/// The owner of total index `i` and how far into its window `i` lies, in
/// units of `1 / frame_pixels` of a sample.
pub(crate) fn locate(total_index: u32, samples_per_frame: usize, frame_pixels: u32) -> (r: (
    u128,
    u32,
))
    requires
        frame_pixels > 0,
    ensures
        r.0 == owner(samples_per_frame as nat, frame_pixels as nat, total_index as int),
        r.1 == (total_index * samples_per_frame) % (frame_pixels as int),
{
    proof {
        assert(total_index * samples_per_frame <= 0xffff_ffff * 0xffff_ffff_ffff_ffffint)
            by (nonlinear_arith)
            requires
                total_index <= 0xffff_ffff,
                samples_per_frame <= 0xffff_ffff_ffff_ffff,
        ;
    }
    let scaled: u128 = total_index as u128 * samples_per_frame as u128;
    (scaled / frame_pixels as u128, (scaled % frame_pixels as u128) as u32)
}

/// The first total index owned by audio sample `k`, for `k` up to one frame
/// of samples; it never passes the end of the frame.
pub(crate) fn window_start_of(k: usize, samples_per_frame: usize, frame_pixels: u32) -> (r: u32)
    requires
        samples_per_frame > 0,
        k <= samples_per_frame,
    ensures
        r == window_start(samples_per_frame as nat, frame_pixels as nat, k as int),
        r <= frame_pixels,
{
    proof {
        let s = samples_per_frame as int;
        let f = frame_pixels as int;
        assert(k * f + s - 1 <= s * f + s - 1) by (nonlinear_arith)
            requires
                k <= s,
                f >= 0,
        ;
        assert(k * f <= 0xffff_ffff_ffff_ffff * 0xffff_ffffint) by (nonlinear_arith)
            requires
                k <= 0xffff_ffff_ffff_ffff,
                f <= 0xffff_ffff,
                k >= 0,
                f >= 0,
        ;
        vstd::arithmetic::div_mod::lemma_div_is_ordered(k * f + s - 1, s * f + s - 1, s);
        vstd::arithmetic::div_mod::lemma_fundamental_div_mod_converse_div(
            s * f + s - 1,
            s,
            f,
            s - 1,
        );
    }
    ((k as u128 * frame_pixels as u128 + samples_per_frame as u128 - 1)
        / samples_per_frame as u128) as u32
}

/// A read-only window of decoded samples, one frame of audio spread over one
/// frame of pixels.
pub struct Pcm<T> {
    pub samples: Vec<T>,
    pub sample_rate: usize,
    pub samples_per_frame: usize,
    pub frame_pixels: u32,
}

impl<T: PcmFormat> Pcm<T> {
    /// The window holds at most one frame of samples, and its rates are small
    /// enough for the phase arithmetic of preintegration.
    pub open spec fn wf(&self) -> bool {
        &&& self.samples_per_frame > 0
        &&& self.frame_pixels > 0
        &&& self.sample_rate > 0
        &&& self.samples@.len() <= self.samples_per_frame
        &&& FULL_SCALE * self.samples_per_frame <= i64::MAX
        &&& FULL_SCALE * self.sample_rate * self.frame_pixels <= u64::MAX
    }

    /// The levels of the samples, in order.
    pub open spec fn levels(&self) -> Seq<int> {
        self.samples@.map_values(|s: T| s.level_of())
    }
}

/// Sample `k` owns exactly the total indices from its window start up to the
/// next sample's window start.
pub proof fn lemma_owner_window(samples_per_frame: nat, frame_pixels: nat, i: int, k: int)
    requires
        samples_per_frame > 0,
        frame_pixels > 0,
        i >= 0,
        k >= 0,
    ensures
        owner(samples_per_frame, frame_pixels, i) >= k <==> i >= window_start(
            samples_per_frame,
            frame_pixels,
            k,
        ),
{
    let s = samples_per_frame as int;
    let f = frame_pixels as int;
    let ws = window_start(samples_per_frame, frame_pixels, k);
    vstd::arithmetic::div_mod::lemma_fundamental_div_mod(i * s, f);
    vstd::arithmetic::div_mod::lemma_fundamental_div_mod(k * f + s - 1, s);
    let q = (i * s) / f;
    let rq = (i * s) % f;
    let r2 = (k * f + s - 1) % s;
    if q >= k {
        assert(i * s >= k * f) by (nonlinear_arith)
            requires
                i * s == f * q + rq,
                rq >= 0,
                q >= k,
                f > 0,
        ;
        assert(i >= ws) by (nonlinear_arith)
            requires
                i * s >= k * f,
                k * f + s - 1 == s * ws + r2,
                0 <= r2 < s,
                s > 0,
        ;
    } else {
        assert(i * s < k * f) by (nonlinear_arith)
            requires
                i * s == f * q + rq,
                rq < f,
                q < k,
                f > 0,
        ;
        assert(i < ws) by (nonlinear_arith)
            requires
                i * s < k * f,
                k * f + s - 1 == s * ws + r2,
                0 <= r2 < s,
                s > 0,
        ;
    }
}

} // verus!
