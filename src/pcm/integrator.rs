use crate::pcm::format::PcmFormat;
use crate::pcm::interpolation::Nearest;
use crate::pcm::loader::{PcmError, PcmLoader};
use crate::pcm::{lemma_owner_window, locate, owner, window_start, window_start_of, Pcm};
use crate::phase::{fraction_units, phase_add, phase_scale, Phase, TURN};
use crate::signal::{IntSignal, FULL_SCALE};
use vstd::arithmetic::div_mod::*;
use vstd::prelude::*;

verus! {

/// The phase that one pixel adds while a sample of `level` plays: the
/// sample's amplitude divided by the sample rate, spread evenly over the
/// `frame_pixels / samples_per_frame` pixels of its window.
pub open spec fn deviation_units(
    level: int,
    samples_per_frame: nat,
    sample_rate: nat,
    frame_pixels: nat,
) -> nat {
    fraction_units(level * samples_per_frame, FULL_SCALE * sample_rate * frame_pixels)
}

/// The cumulative phase at the start of sample `k`'s window: `start` plus,
/// for each earlier sample, its per-pixel deviation times its window length.
pub open spec fn cum_phase(
    start: nat,
    deviations: Seq<nat>,
    samples_per_frame: nat,
    frame_pixels: nat,
    k: nat,
) -> nat
    decreases k,
{
    if k == 0 {
        start
    } else {
        phase_add(
            cum_phase(start, deviations, samples_per_frame, frame_pixels, (k - 1) as nat),
            phase_scale(
                deviations[k - 1],
                window_start(samples_per_frame, frame_pixels, k as int) - window_start(
                    samples_per_frame,
                    frame_pixels,
                    k - 1,
                ),
            ),
        )
    }
}

/// The phase at total index `i` read from the table: the cumulative phase of
/// its owning sample, plus that sample's deviation for each pixel of its
/// window before `i`.
pub open spec fn lookup_phase(
    start: nat,
    deviations: Seq<nat>,
    samples_per_frame: nat,
    frame_pixels: nat,
    i: int,
) -> nat {
    let k = owner(samples_per_frame, frame_pixels, i);
    phase_add(
        cum_phase(start, deviations, samples_per_frame, frame_pixels, k as nat),
        phase_scale(deviations[k], i - window_start(samples_per_frame, frame_pixels, k)),
    )
}

/// The phase at total index `i` found the slow way: from `start`, add the
/// deviation of each pixel before `i`, one pixel at a time.
pub open spec fn sequential_phase(
    start: nat,
    deviations: Seq<nat>,
    samples_per_frame: nat,
    frame_pixels: nat,
    i: nat,
) -> nat
    decreases i,
{
    if i == 0 {
        start
    } else {
        phase_add(
            sequential_phase(start, deviations, samples_per_frame, frame_pixels, (i - 1) as nat),
            deviations[owner(samples_per_frame, frame_pixels, i - 1)],
        )
    }
}

proof fn lemma_phase_step(c: nat, d: nat, m: int)
    requires
        m >= 0,
    ensures
        phase_add(phase_add(c, phase_scale(d, m)), d) == phase_add(c, phase_scale(d, m + 1)),
{
    let t = TURN as int;
    let x = c + (d * m) % t;
    lemma_add_mod_noop(x, d as int, t);
    lemma_mod_twice(d as int, t);
    lemma_add_mod_noop(x % t, d as int, t);
    lemma_mod_twice(x, t);
    lemma_add_mod_noop_right(c as int, d * m, t);
    lemma_add_mod_noop(c + d * m, d as int, t);
    lemma_add_mod_noop(c + (d * m) % t, d as int, t);
    lemma_mod_twice(c + d * m, t);
    assert(c + d * m + d == c + d * (m + 1)) by (nonlinear_arith);
    lemma_add_mod_noop_right(c as int, d * (m + 1), t);
    assert(((c + (d * m) % t) % t + d) % t == (c + d * (m + 1)) % t) by {
        assert((c + (d * m) % t) % t == (c + d * m) % t);
        assert(((c + d * m) % t + d) % t == (c + d * m + d) % t) by {
            lemma_add_mod_noop(c + d * m, d as int, t);
            lemma_mod_twice(c + d * m, t);
            lemma_add_mod_noop((c + d * m) % t, d as int, t);
        }
    }
}

proof fn lemma_window_start_monotone(s: nat, f: nat, j: int, k: int)
    requires
        s > 0,
        0 <= j <= k,
    ensures
        window_start(s, f, j) <= window_start(s, f, k),
{
    assert(j * f <= k * f) by (nonlinear_arith)
        requires
            j <= k,
    ;
    lemma_div_is_ordered(j * f + s - 1, k * f + s - 1, s as int);
}

proof fn lemma_sequential_in_window(
    start: nat,
    deviations: Seq<nat>,
    s: nat,
    f: nat,
    i: nat,
    k: nat,
)
    requires
        start < TURN,
        s > 0,
        f > 0,
        k < deviations.len(),
        window_start(s, f, k as int) <= i <= window_start(s, f, k + 1 as int),
    ensures
        sequential_phase(start, deviations, s, f, i) == phase_add(
            cum_phase(start, deviations, s, f, k),
            phase_scale(deviations[k as int], i - window_start(s, f, k as int)),
        ),
    decreases i, k,
{
    let ws = window_start(s, f, k as int);
    let c = cum_phase(start, deviations, s, f, k);
    assert(c < TURN);
    if i == ws {
        assert(phase_scale(deviations[k as int], 0) == 0);
        lemma_small_mod(c, TURN as nat);
        if k == 0 {
            lemma_fundamental_div_mod_converse_div((s - 1) as int, s as int, 0, (s - 1) as int);
        } else {
            lemma_window_start_monotone(s, f, k - 1, k as int);
            lemma_sequential_in_window(start, deviations, s, f, i, (k - 1) as nat);
        }
    } else {
        lemma_window_start_monotone(s, f, 0, k as int);
        lemma_sequential_in_window(start, deviations, s, f, (i - 1) as nat, k);
        lemma_owner_window(s, f, i - 1, k as int);
        lemma_owner_window(s, f, i - 1, (k + 1) as int);
        assert(owner(s, f, i - 1) == k);
        lemma_phase_step(c, deviations[k as int], i - 1 - ws);
    }
}

/// The preintegrated lookup agrees with sequential accumulation: for every
/// total index whose owning sample is in the table, the phase read from the
/// table equals the phase found by adding each earlier pixel's deviation in
/// turn from the start.
pub proof fn lemma_lookup_matches_sequential(
    start: nat,
    deviations: Seq<nat>,
    samples_per_frame: nat,
    frame_pixels: nat,
    i: nat,
)
    requires
        start < TURN,
        samples_per_frame > 0,
        frame_pixels > 0,
        owner(samples_per_frame, frame_pixels, i as int) < deviations.len(),
    ensures
        lookup_phase(start, deviations, samples_per_frame, frame_pixels, i as int)
            == sequential_phase(start, deviations, samples_per_frame, frame_pixels, i),
{
    let k = owner(samples_per_frame, frame_pixels, i as int);
    lemma_div_pos_is_pos((i * samples_per_frame) as int, frame_pixels as int);
    lemma_owner_window(samples_per_frame, frame_pixels, i as int, k);
    lemma_owner_window(samples_per_frame, frame_pixels, i as int, k + 1);
    lemma_sequential_in_window(start, deviations, samples_per_frame, frame_pixels, i, k as nat);
}

struct IntegratedSample<T> {
    /// The raw sample.
    sample: T,
    /// The phase each pixel of this sample's window adds.
    deviation: Phase,
    /// The cumulative phase at the start of this sample's window.
    cum_phase: Phase,
    /// The total index at which this sample's window starts.
    start_time: u32,
}

/// One window of samples with the cumulative phase at the start of each
/// sample's window precomputed, so that any pixel's phase is found without
/// reference to any other pixel.
pub struct IntegratedPcm<T> {
    samples: Vec<IntegratedSample<T>>,
    starting_angle: Phase,
    samples_per_frame: usize,
    frame_pixels: u32,
    final_phase: Phase,
}

impl<T: PcmFormat> IntegratedPcm<T> {
    /// The per-pixel deviation of each sample, in order.
    pub closed spec fn deviations(&self) -> Seq<nat> {
        self.samples@.map_values(|s: IntegratedSample<T>| s.deviation@)
    }

    /// The level of each raw sample, in order.
    pub closed spec fn levels(&self) -> Seq<int> {
        self.samples@.map_values(|s: IntegratedSample<T>| s.sample.level_of())
    }

    /// The phase at the start of the window.
    pub closed spec fn start_phase(&self) -> nat {
        self.starting_angle@
    }

    pub closed spec fn spf(&self) -> nat {
        self.samples_per_frame as nat
    }

    pub closed spec fn fp(&self) -> nat {
        self.frame_pixels as nat
    }

    /// The phase at the end of the window, where the next one starts.
    pub closed spec fn end_phase(&self) -> nat {
        self.final_phase@
    }

    pub closed spec fn wf(&self) -> bool {
        &&& self.samples_per_frame > 0
        &&& self.frame_pixels > 0
        &&& self.samples@.len() <= self.samples_per_frame
        &&& self.starting_angle@ < TURN
        &&& forall|k: int|
            0 <= k < self.samples@.len() ==> {
                &&& (#[trigger] self.samples@[k]).cum_phase@ == cum_phase(
                    self.start_phase(),
                    self.deviations(),
                    self.spf(),
                    self.fp(),
                    k as nat,
                )
                &&& self.samples@[k].start_time == window_start(self.spf(), self.fp(), k)
            }
        &&& self.final_phase@ == cum_phase(
            self.start_phase(),
            self.deviations(),
            self.spf(),
            self.fp(),
            self.samples@.len(),
        )
    }

    /// The phase at the end of the window.
    pub fn final_phase(&self) -> (r: Phase)
        ensures
            r@ == self.end_phase(),
    {
        self.final_phase
    }
}

impl<T: PcmFormat> Nearest<Pcm<T>> {
    /// Precomputes, once per window, the cumulative phase at the start of
    /// each sample's window, starting from `starting_angle`.
    pub fn integrate(self, starting_angle: Phase) -> (r: Nearest<IntegratedPcm<T>>)
        requires
            self.0.wf(),
        ensures
            r.0.wf(),
            r.0.start_phase() == starting_angle@,
            r.0.spf() == self.0.samples_per_frame,
            r.0.fp() == self.0.frame_pixels,
            r.0.levels() == self.0.levels(),
            r.0.deviations().len() == self.0.samples@.len(),
            r.0.end_phase() == cum_phase(
                starting_angle@,
                r.0.deviations(),
                self.0.samples_per_frame as nat,
                self.0.frame_pixels as nat,
                self.0.samples@.len(),
            ),
            forall|k: int|
                0 <= k < self.0.samples@.len() ==> #[trigger] r.0.deviations()[k]
                    == deviation_units(
                    self.0.samples@[k].level_of(),
                    self.0.samples_per_frame as nat,
                    self.0.sample_rate as nat,
                    self.0.frame_pixels as nat,
                ),
    {
        let pcm = self.0;
        let spf = pcm.samples_per_frame;
        let fp = pcm.frame_pixels;
        let n = pcm.samples.len();
        let ghost devs = Seq::new(
            n as nat,
            |k: int|
                deviation_units(
                    pcm.samples@[k].level_of(),
                    spf as nat,
                    pcm.sample_rate as nat,
                    fp as nat,
                ),
        );
        proof {
            assert(FULL_SCALE * pcm.sample_rate <= FULL_SCALE * pcm.sample_rate * fp
                && FULL_SCALE * pcm.sample_rate * fp > 0) by (nonlinear_arith)
                requires
                    fp >= 1,
                    pcm.sample_rate >= 1,
            ;
        }
        let denominator: u64 = FULL_SCALE as u64 * pcm.sample_rate as u64 * fp as u64;
        let mut phase = starting_angle;
        let mut table: Vec<IntegratedSample<T>> = Vec::new();
        let mut start_time: u32 = window_start_of(0, spf, fp);
        let mut k: usize = 0;
        while k < n
            invariant
                pcm.wf(),
                n == pcm.samples@.len(),
                spf == pcm.samples_per_frame,
                fp == pcm.frame_pixels,
                denominator == FULL_SCALE * pcm.sample_rate * fp,
                denominator > 0,
                devs.len() == n,
                forall|j: int|
                    0 <= j < n ==> #[trigger] devs[j] == deviation_units(
                        pcm.samples@[j].level_of(),
                        spf as nat,
                        pcm.sample_rate as nat,
                        fp as nat,
                    ),
                k <= n,
                table@.len() == k,
                start_time == window_start(spf as nat, fp as nat, k as int),
                phase@ == cum_phase(starting_angle@, devs, spf as nat, fp as nat, k as nat),
                forall|j: int|
                    0 <= j < k ==> {
                        &&& (#[trigger] table@[j]).deviation@ == devs[j]
                        &&& table@[j].sample == pcm.samples@[j]
                        &&& table@[j].cum_phase@ == cum_phase(
                            starting_angle@,
                            devs,
                            spf as nat,
                            fp as nat,
                            j as nat,
                        )
                        &&& table@[j].start_time == window_start(spf as nat, fp as nat, j)
                    },
            decreases n - k,
        {
            let sample = pcm.samples[k];
            let level = sample.amplitude();
            proof {
                assert(-FULL_SCALE * spf <= level * spf <= FULL_SCALE * spf) by (nonlinear_arith)
                    requires
                        -FULL_SCALE <= level <= FULL_SCALE,
                        spf >= 0,
                ;
            }
            let deviation = Phase::from_fraction(level as i64 * spf as i64, denominator);
            let next_start = window_start_of(k + 1, spf, fp);
            proof {
                crate::pcm::integrator::lemma_window_start_monotone(
                    spf as nat,
                    fp as nat,
                    k as int,
                    k + 1,
                );
            }
            table.push(
                IntegratedSample { sample, deviation, cum_phase: phase, start_time },
            );
            phase = phase.add(deviation.mul(next_start - start_time));
            start_time = next_start;
            k = k + 1;
        }
        let integrated = IntegratedPcm {
            samples: table,
            starting_angle,
            samples_per_frame: spf,
            frame_pixels: fp,
            final_phase: phase,
        };
        proof {
            assert(integrated.deviations() =~= devs);
            assert(integrated.levels() =~= pcm.levels());
        }
        Nearest(integrated)
    }
}

impl<T: PcmFormat> IntSignal for Nearest<IntegratedPcm<T>> {
    open spec fn phase_covers(&self, total_index: u32) -> bool {
        &&& self.0.wf()
        &&& owner(self.0.spf(), self.0.fp(), total_index as int) < self.0.deviations().len()
    }

    open spec fn phase_at(&self, total_index: u32) -> nat {
        lookup_phase(
            self.0.start_phase(),
            self.0.deviations(),
            self.0.spf(),
            self.0.fp(),
            total_index as int,
        )
    }

    fn sample(&self, total_index: u32) -> (r: Phase) {
        let (k, _) = locate(total_index, self.0.samples_per_frame, self.0.frame_pixels);
        let len = self.0.samples.len();
        proof {
            assert(k < len);
        }
        let record = &self.0.samples[k as usize];
        proof {
            lemma_owner_window(self.0.spf(), self.0.fp(), total_index as int, k as int);
        }
        record.cum_phase.add(record.deviation.mul(total_index - record.start_time))
    }
}

/// A PCM loader whose windows come out preintegrated, each one's cumulative
/// phase carried on from where the previous one ended.
pub struct PreintegratedLoader<T> {
    internal_loader: PcmLoader<T>,
    starting_angle: Phase,
}

impl<T: PcmFormat> PreintegratedLoader<T> {
    pub closed spec fn loader(&self) -> PcmLoader<T> {
        self.internal_loader
    }

    /// The phase at which the next window's table will start.
    pub closed spec fn carried_phase(&self) -> nat {
        self.starting_angle@
    }

    pub fn new(internal_loader: PcmLoader<T>) -> (r: PreintegratedLoader<T>)
        ensures
            r.loader() == internal_loader,
            r.carried_phase() == 0,
    {
        PreintegratedLoader { internal_loader, starting_angle: Phase(0) }
    }

    /// Moves the inner loader on to the next window; the carried phase is
    /// kept.
    pub fn next_frame(&mut self, window: &[u8]) -> (r: Result<(), PcmError>)
        requires
            old(self).loader().wf(),
        ensures
            final(self).carried_phase() == old(self).carried_phase(),
            final(self).loader().wf(),
            final(self).loader().sample_rate_spec() == old(self).loader().sample_rate_spec(),
            final(self).loader().samples_per_frame() == old(self).loader().samples_per_frame(),
            final(self).loader().frame_pixels() == old(self).loader().frame_pixels(),
            r.is_ok() <==> window@.len() == T::width() * old(self).loader().samples_per_frame(),
            r.is_ok() ==> {
                &&& final(self).loader().window().len() == old(self).loader().samples_per_frame()
                &&& forall|k: int|
                    0 <= k < old(self).loader().samples_per_frame() ==> #[trigger] final(self).loader().window()[k].level_of()
                        == T::chunk_level(window@.subrange(k * T::width(), k * T::width() + T::width()))
            },
            r.is_err() ==> final(self).loader().window() == old(self).loader().window(),
    {
        self.internal_loader.next_frame(window)
    }

    /// The current window, preintegrated from the carried phase; the carried
    /// phase moves on to the window's end.
    pub fn samples(&mut self) -> (r: Nearest<IntegratedPcm<T>>)
        requires
            old(self).loader().wf(),
        ensures
            r.0.wf(),
            r.0.start_phase() == old(self).carried_phase(),
            r.0.spf() == old(self).loader().samples_per_frame(),
            r.0.fp() == old(self).loader().frame_pixels(),
            r.0.deviations().len() == old(self).loader().window().len(),
            forall|k: int|
                0 <= k < old(self).loader().window().len() ==> #[trigger] r.0.deviations()[k]
                    == deviation_units(
                    old(self).loader().window()[k].level_of(),
                    old(self).loader().samples_per_frame(),
                    old(self).loader().sample_rate_spec(),
                    old(self).loader().frame_pixels(),
                ),
            r.0.end_phase() == cum_phase(
                old(self).carried_phase(),
                r.0.deviations(),
                old(self).loader().samples_per_frame(),
                old(self).loader().frame_pixels(),
                old(self).loader().window().len(),
            ),
            final(self).loader() == old(self).loader(),
            final(self).carried_phase() == r.0.end_phase(),
    {
        let pcm = self.internal_loader.pcm();
        let integrated = Nearest(pcm).integrate(self.starting_angle);
        self.starting_angle = integrated.0.final_phase();
        integrated
    }
}

} // verus!
