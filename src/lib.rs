//! Pixel-rate synthesis of a modulated carrier, rendered as a grayscale raster
//! whose timing follows a display's scan geometry, blanking included.
//!
//! Phases are fixed-point fractions of a turn on the ring of `u32` values, and
//! amplitudes are integer levels in units of `1 / FULL_SCALE`. Every pixel is
//! a pure function of its total index and an immutable per-frame snapshot, so
//! a frame can be rendered in independent chunks and put back together in
//! order.

mod am;
mod discrete_time;
mod fm;
mod frame;
mod pcm;
mod phase;
mod render;
mod signal;
mod wave;

pub use am::{am_level, lemma_am_bounded, modulate_amplitude, AmplitudeModulator};
pub use discrete_time::DiscreteTime;
pub use fm::{FrequencyModulator, MAX_DEVIATION};
pub use frame::{
    buffer_for, chunk_count, chunk_end, chunk_start, chunks_prefix_len, compose, covered,
    draw_frame, grays_of, has_ordinal, hits, in_chunk, in_order, lemma_chunked_frame_matches,
    lemma_partition_exact, lemma_reassembly_order_free, ordinals_complete, partition, pixel_gray,
    reassemble, render_chunk, rendered_chunks, renders, result_views, total_indices, Chunk,
};
pub use pcm::{
    cum_phase, deviation_units, le_i16, lemma_lookup_matches_sequential, lerp_level, lookup_phase,
    owner, samples_per_frame_of, sequential_phase, window_start, IntegratedPcm, Interpolation,
    Linear, Nearest, Pcm, PcmError, PcmFormat, PcmLoader, PcmSignal, PreintegratedLoader,
    Signed16Le, Unsigned8,
};
pub use phase::{fraction_units, phase_add, phase_scale, rounded_units, Phase, HALF_TURN, TURN};
pub use render::{
    gray_of, grayscale, lemma_visible_position, total_index_of, visible_to_total_index,
    DisplayGeometry,
};
pub use signal::{FmCarrier, IntSignal, Signal, FULL_SCALE};
pub use wave::{lemma_frame_seam, lemma_phase_periodic, square_level, wave_phase, Sine, Square};
