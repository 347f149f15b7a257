use crate::render::{gray_of, grayscale, total_index_of, visible_to_total_index, DisplayGeometry};
use crate::signal::{Signal, FULL_SCALE};
use vstd::arithmetic::div_mod::*;
use vstd::prelude::*;

verus! {

/// A contiguous run of visible pixel indices, `start..end`, rendered as one
/// unit of work; `ordinal` fixes its place in the frame.
#[derive(Clone, Copy, PartialEq, Eq, Structural, Debug)]
pub struct Chunk {
    pub ordinal: u32,
    pub start: u32,
    pub end: u32,
}

/// How many chunks `pixel_count` pixels split into over `threads` workers:
/// one each, plus one for the remainder when the split is inexact.
pub open spec fn chunk_count(pixel_count: nat, threads: nat) -> nat {
    if pixel_count as int % threads as int == 0 {
        threads
    } else {
        threads + 1
    }
}

/// Where chunk `j` starts: every worker's chunk has the same length, and the
/// remainder chunk follows the last of them.
pub open spec fn chunk_start(pixel_count: nat, threads: nat, j: int) -> int {
    j * (pixel_count as int / threads as int)
}

/// Where chunk `j` ends.
pub open spec fn chunk_end(pixel_count: nat, threads: nat, j: int) -> int {
    if j < threads {
        (j + 1) * (pixel_count as int / threads as int)
    } else {
        pixel_count as int
    }
}

/// Splits the visible pixels `0..pixel_count` into `threads` equal chunks,
/// plus a trailing remainder chunk when `threads` does not divide
/// `pixel_count`.
pub fn partition(pixel_count: u32, threads: u32) -> (r: Vec<Chunk>)
    requires
        threads > 0,
    ensures
        r@.len() == chunk_count(pixel_count as nat, threads as nat),
        forall|j: int|
            0 <= j < r@.len() ==> {
                &&& (#[trigger] r@[j]).ordinal == j
                &&& r@[j].start == chunk_start(pixel_count as nat, threads as nat, j)
                &&& r@[j].end == chunk_end(pixel_count as nat, threads as nat, j)
            },
{
    let per: u32 = pixel_count / threads;
    proof {
        lemma_fundamental_div_mod(pixel_count as int, threads as int);
    }
    let mut chunks: Vec<Chunk> = Vec::new();
    let mut i: u32 = 0;
    while i < threads
        invariant
            per == pixel_count as int / threads as int,
            threads * per <= pixel_count,
            i <= threads,
            chunks@.len() == i,
            forall|j: int|
                0 <= j < i ==> {
                    &&& (#[trigger] chunks@[j]).ordinal == j
                    &&& chunks@[j].start == chunk_start(pixel_count as nat, threads as nat, j)
                    &&& chunks@[j].end == chunk_end(pixel_count as nat, threads as nat, j)
                },
        decreases threads - i,
    {
        proof {
            assert((i + 1) * per <= threads * per) by (nonlinear_arith)
                requires
                    i < threads,
                    per >= 0,
            ;
            assert((i + 1) * per == i * per + per) by (nonlinear_arith);
        }
        chunks.push(Chunk { ordinal: i, start: i * per, end: i * per + per });
        i = i + 1;
    }
    if pixel_count % threads != 0 {
        chunks.push(Chunk { ordinal: threads, start: threads * per, end: pixel_count });
    }
    chunks
}

/// Whether chunk `j` holds visible pixel `p`.
pub open spec fn in_chunk(pixel_count: nat, threads: nat, j: int, p: int) -> bool {
    chunk_start(pixel_count, threads, j) <= p < chunk_end(pixel_count, threads, j)
}

/// Whether some chunk holds visible pixel `p`.
pub open spec fn covered(pixel_count: nat, threads: nat, p: int) -> bool {
    exists|j: int| 0 <= j < chunk_count(pixel_count, threads) && #[trigger] in_chunk(pixel_count, threads, j, p)
}

/// The chunks of a partition tile the visible pixels exactly: each lies
/// within `0..pixel_count`, and each pixel lies in exactly one of them.
pub proof fn lemma_partition_exact(pixel_count: nat, threads: nat)
    requires
        threads > 0,
    ensures
        forall|j: int|
            0 <= j < chunk_count(pixel_count, threads) ==> 0 <= #[trigger] chunk_start(
                pixel_count,
                threads,
                j,
            ) <= chunk_end(pixel_count, threads, j) <= pixel_count,
        forall|p: int| 0 <= p < pixel_count ==> #[trigger] covered(pixel_count, threads, p),
        forall|p: int, j1: int, j2: int|
            0 <= j1 < chunk_count(pixel_count, threads) && 0 <= j2 < chunk_count(
                pixel_count,
                threads,
            ) && #[trigger] in_chunk(pixel_count, threads, j1, p) && #[trigger] in_chunk(
                pixel_count,
                threads,
                j2,
                p,
            ) ==> j1 == j2,
{
    let c = pixel_count as int;
    let t = threads as int;
    let per = c / t;
    lemma_fundamental_div_mod(c, t);
    lemma_div_pos_is_pos(c, t);
    assert forall|j: int| 0 <= j < chunk_count(pixel_count, threads) implies 0
        <= #[trigger] chunk_start(pixel_count, threads, j) <= chunk_end(pixel_count, threads, j)
        <= pixel_count by {
        assert(0 <= j * per) by (nonlinear_arith)
            requires
                j >= 0,
                per >= 0,
        ;
        if j < t {
            assert(j * per <= (j + 1) * per <= t * per) by (nonlinear_arith)
                requires
                    0 <= j < t,
                    per >= 0,
            ;
        } else {
            assert(j == t);
        }
    }
    assert forall|p: int| 0 <= p < pixel_count implies #[trigger] covered(
        pixel_count,
        threads,
        p,
    ) by {
        if p < t * per {
            assert(per > 0) by (nonlinear_arith)
                requires
                    0 <= p < t * per,
                    t > 0,
            ;
            let j = p / per;
            lemma_fundamental_div_mod(p, per);
            assert(j < t) by {
                assert(j * per <= p) by (nonlinear_arith)
                    requires
                        p == per * j + p % per,
                        p % per >= 0,
                ;
                if j >= t {
                    assert(j * per >= t * per) by (nonlinear_arith)
                        requires
                            j >= t,
                            per > 0,
                    ;
                }
            }
            assert(j >= 0) by {
                lemma_div_pos_is_pos(p, per);
            }
            assert(j * per <= p < (j + 1) * per) by (nonlinear_arith)
                requires
                    p == per * j + p % per,
                    0 <= p % per < per,
            ;
            assert(in_chunk(pixel_count, threads, j, p));
        } else {
            assert(c % t != 0);
            assert(in_chunk(pixel_count, threads, t, p));
        }
    }
    assert forall|p: int, j1: int, j2: int|
        0 <= j1 < chunk_count(pixel_count, threads) && 0 <= j2 < chunk_count(
            pixel_count,
            threads,
        ) && #[trigger] in_chunk(pixel_count, threads, j1, p) && #[trigger] in_chunk(
            pixel_count,
            threads,
            j2,
            p,
        ) implies j1 == j2 by {
        if j1 < j2 {
            assert(chunk_end(pixel_count, threads, j1) <= chunk_start(pixel_count, threads, j2))
                by (nonlinear_arith)
                requires
                    0 <= j1 < j2 <= t,
                    j1 < t,
                    per >= 0,
                    chunk_end(pixel_count, threads, j1) == (j1 + 1) * per,
                    chunk_start(pixel_count, threads, j2) == j2 * per,
            ;
        } else if j2 < j1 {
            assert(chunk_end(pixel_count, threads, j2) <= chunk_start(pixel_count, threads, j1))
                by (nonlinear_arith)
                requires
                    0 <= j2 < j1 <= t,
                    j2 < t,
                    per >= 0,
                    chunk_end(pixel_count, threads, j2) == (j2 + 1) * per,
                    chunk_start(pixel_count, threads, j1) == j1 * per,
            ;
        }
    }
}

/// Whether `signal` can be sampled at the total index of every visible pixel
/// in `start..end`.
pub open spec fn renders<S: Signal>(signal: &S, geometry: DisplayGeometry, start: int, end: int) -> bool {
    forall|p: int|
        start <= p < end ==> {
            &&& #[trigger] total_index_of(geometry, p) <= u32::MAX
            &&& signal.covers(total_index_of(geometry, p) as u32)
        }
}

/// The gray value of visible pixel `p`.
pub open spec fn pixel_gray<S: Signal>(signal: &S, geometry: DisplayGeometry, p: int) -> int {
    gray_of(signal.level(total_index_of(geometry, p) as u32))
}

/// Renders the visible pixels of one chunk, in order, as gray values.
pub fn render_chunk<S: Signal>(signal: &S, geometry: &DisplayGeometry, chunk: Chunk) -> (r: Vec<u8>)
    requires
        geometry.wf(),
        chunk.start <= chunk.end,
        renders(signal, *geometry, chunk.start as int, chunk.end as int),
    ensures
        r@.len() == chunk.end - chunk.start,
        forall|m: int|
            0 <= m < r@.len() ==> #[trigger] r@[m] == pixel_gray(signal, *geometry, chunk.start + m),
{
    let mut out: Vec<u8> = Vec::new();
    let mut p: u32 = chunk.start;
    while p < chunk.end
        invariant
            geometry.wf(),
            chunk.start <= p <= chunk.end,
            renders(signal, *geometry, chunk.start as int, chunk.end as int),
            out@.len() == p - chunk.start,
            forall|m: int|
                0 <= m < out@.len() ==> #[trigger] out@[m] == pixel_gray(signal, *geometry, chunk.start + m),
        decreases chunk.end - p,
    {
        assert(total_index_of(*geometry, p as int) <= u32::MAX);
        let total_index = visible_to_total_index(geometry, p as usize);
        let level = signal.sample(total_index);
        out.push(grayscale(level));
        p = p + 1;
    }
    out
}

/// The total index of each visible pixel of a chunk, in order.
pub fn total_indices(geometry: &DisplayGeometry, chunk: Chunk) -> (r: Vec<u32>)
    requires
        geometry.wf(),
        chunk.start <= chunk.end,
        forall|p: int|
            chunk.start <= p < chunk.end ==> #[trigger] total_index_of(*geometry, p) <= u32::MAX,
    ensures
        r@.len() == chunk.end - chunk.start,
        forall|m: int|
            0 <= m < r@.len() ==> #[trigger] r@[m] == total_index_of(*geometry, chunk.start + m),
{
    let mut out: Vec<u32> = Vec::new();
    let mut p: u32 = chunk.start;
    while p < chunk.end
        invariant
            geometry.wf(),
            chunk.start <= p <= chunk.end,
            forall|q: int|
                chunk.start <= q < chunk.end ==> #[trigger] total_index_of(*geometry, q) <= u32::MAX,
            out@.len() == p - chunk.start,
            forall|m: int|
                0 <= m < out@.len() ==> #[trigger] out@[m] == total_index_of(*geometry, chunk.start + m),
        decreases chunk.end - p,
    {
        assert(total_index_of(*geometry, p as int) <= u32::MAX);
        out.push(visible_to_total_index(geometry, p as usize));
        p = p + 1;
    }
    out
}

/// The gray value of each level, in order.
pub fn grays_of(levels: &Vec<i32>) -> (r: Vec<u8>)
    requires
        forall|m: int| 0 <= m < levels@.len() ==> -FULL_SCALE <= #[trigger] levels@[m] <= FULL_SCALE,
    ensures
        r@.len() == levels@.len(),
        forall|m: int| 0 <= m < r@.len() ==> #[trigger] r@[m] == gray_of(levels@[m] as int),
{
    let mut out: Vec<u8> = Vec::new();
    let mut m: usize = 0;
    while m < levels.len()
        invariant
            m <= levels@.len(),
            forall|q: int| 0 <= q < levels@.len() ==> -FULL_SCALE <= #[trigger] levels@[q] <= FULL_SCALE,
            out@.len() == m,
            forall|q: int| 0 <= q < m ==> #[trigger] out@[q] == gray_of(levels@[q] as int),
        decreases levels@.len() - m,
    {
        out.push(grayscale(levels[m]));
        m = m + 1;
    }
    out
}

/// Whether some result carries ordinal `j`.
pub open spec fn has_ordinal(results: Seq<(u32, Seq<u8>)>, j: int) -> bool {
    exists|k: int| 0 <= k < results.len() && #[trigger] results[k].0 == j
}

/// Whether the ordinals of `results` are exactly `0..results.len()`, each
/// once.
pub open spec fn ordinals_complete(results: Seq<(u32, Seq<u8>)>) -> bool {
    &&& forall|j: int| 0 <= j < results.len() ==> #[trigger] has_ordinal(results, j)
    &&& forall|k1: int, k2: int|
        0 <= k1 < results.len() && 0 <= k2 < results.len() && k1 != k2 ==> #[trigger] results[k1].0
            != #[trigger] results[k2].0
}

/// The buffer whose ordinal is `j`.
pub open spec fn buffer_for(results: Seq<(u32, Seq<u8>)>, j: int) -> Seq<u8> {
    results[choose|k: int| 0 <= k < results.len() && results[k].0 == j].1
}

/// The buffers of `results` concatenated in order of ordinal.
pub open spec fn in_order(results: Seq<(u32, Seq<u8>)>) -> Seq<u8> {
    Seq::new(results.len(), |j: int| buffer_for(results, j)).flatten()
}

/// The views of a list of (ordinal, buffer) results.
pub open spec fn result_views(results: Seq<(u32, Vec<u8>)>) -> Seq<(u32, Seq<u8>)> {
    results.map_values(|x: (u32, Vec<u8>)| (x.0, x.1@))
}

/// Puts the workers' buffers back in frame order, keyed by ordinal and not
/// by the order they arrived in. Gives `None` unless every one of the
/// `expected` chunks reported exactly once, that is unless the ordinals are
/// exactly `0..expected`, each once: a frame with a chunk missing is never
/// produced.
pub fn reassemble(results: &Vec<(u32, Vec<u8>)>, expected: usize) -> (r: Option<Vec<u8>>)
    ensures
        r.is_some() <==> results@.len() == expected && ordinals_complete(result_views(results@)),
        r matches Some(v) ==> v@ == in_order(result_views(results@)),
{
    let ghost views = result_views(results@);
    let n = results.len();
    if n != expected {
        return None;
    }
    let mut k1: usize = 0;
    while k1 < n
        invariant
            n == results@.len(),
            views == result_views(results@),
            k1 <= n,
            forall|a: int, b: int|
                0 <= a < k1 && 0 <= b < n && a != b ==> #[trigger] views[a].0 != #[trigger] views[b].0,
        decreases n - k1,
    {
        let mut k2: usize = 0;
        while k2 < n
            invariant
                n == results@.len(),
                views == result_views(results@),
                k1 < n,
                k2 <= n,
                forall|a: int, b: int|
                    0 <= a < k1 && 0 <= b < n && a != b ==> #[trigger] views[a].0 != #[trigger] views[b].0,
                forall|b: int| 0 <= b < k2 && k1 != b ==> views[k1 as int].0 != #[trigger] views[b].0,
            decreases n - k2,
        {
            if k1 != k2 && results[k1].0 == results[k2].0 {
                assert(views[k1 as int].0 == views[k2 as int].0);
                return None;
            }
            k2 = k2 + 1;
        }
        k1 = k1 + 1;
    }
    let mut out: Vec<u8> = Vec::new();
    let mut j: usize = 0;
    while j < n
        invariant
            n == results@.len(),
            views == result_views(results@),
            views.len() == n,
            j <= n,
            forall|a: int, b: int|
                0 <= a < n && 0 <= b < n && a != b ==> #[trigger] views[a].0 != #[trigger] views[b].0,
            forall|i: int| 0 <= i < j ==> #[trigger] has_ordinal(views, i),
            out@ == Seq::new(j as nat, |i: int| buffer_for(views, i)).flatten(),
        decreases n - j,
    {
        let mut k: usize = 0;
        let mut found: bool = false;
        while !found && k < n
            invariant
                n == results@.len(),
                views == result_views(results@),
                k <= n,
                !found ==> forall|b: int| 0 <= b < k ==> #[trigger] views[b].0 != j,
                found ==> k < n && views[k as int].0 == j,
            decreases n - k + (if found { 0int } else { 1 }),
        {
            if results[k].0 as usize == j {
                found = true;
            } else {
                k = k + 1;
            }
        }
        if !found {
            assert(!ordinals_complete(views)) by {
                if ordinals_complete(views) {
                    assert(has_ordinal(views, j as int));
                    let kk = choose|kk: int| 0 <= kk < views.len() && #[trigger] views[kk].0 == j;
                    assert(views[kk].0 != j);
                }
            }
            return None;
        }
        let buffer = &results[k].1;
        proof {
            let kk = choose|kk: int| 0 <= kk < views.len() && views[kk].0 == j as int;
            assert(views[k as int].0 == j as int);
            assert(kk == k);
            assert(buffer_for(views, j as int) == buffer@);
            assert(has_ordinal(views, j as int));
        }
        let ghost before = out@;
        let mut b: usize = 0;
        while b < buffer.len()
            invariant
                b <= buffer@.len(),
                out@ == before + buffer@.subrange(0, b as int),
            decreases buffer@.len() - b,
        {
            out.push(buffer[b]);
            b = b + 1;
        }
        proof {
            assert(buffer@.subrange(0, buffer@.len() as int) =~= buffer@);
            let prefix = Seq::new(j as nat, |i: int| buffer_for(views, i));
            assert(Seq::new((j + 1) as nat, |i: int| buffer_for(views, i)) =~= prefix.push(
                buffer_for(views, j as int),
            ));
            prefix.lemma_flatten_push(buffer_for(views, j as int));
        }
        j = j + 1;
    }
    Some(out)
}

/// Whether some position of `shuffle` holds `k`.
pub open spec fn hits(shuffle: Seq<int>, k: int) -> bool {
    exists|k2: int| 0 <= k2 < shuffle.len() && #[trigger] shuffle[k2] == k
}

/// The frame does not depend on the order in which workers report: any
/// shuffle of a complete set of results is complete too, and reassembles to
/// the same pixels.
pub proof fn lemma_reassembly_order_free(results: Seq<(u32, Seq<u8>)>, shuffle: Seq<int>)
    requires
        ordinals_complete(results),
        shuffle.len() == results.len(),
        forall|k: int| 0 <= k < shuffle.len() ==> 0 <= #[trigger] shuffle[k] < results.len(),
        forall|k1: int, k2: int|
            0 <= k1 < shuffle.len() && 0 <= k2 < shuffle.len() && k1 != k2 ==> #[trigger] shuffle[k1]
                != #[trigger] shuffle[k2],
        forall|k: int| 0 <= k < results.len() ==> #[trigger] hits(shuffle, k),
    ensures
        ordinals_complete(Seq::new(results.len(), |k: int| results[shuffle[k]])),
        in_order(Seq::new(results.len(), |k: int| results[shuffle[k]])) == in_order(results),
{
    let n = results.len();
    let shuffled = Seq::new(n, |k: int| results[shuffle[k]]);
    assert forall|j: int| 0 <= j < n implies #[trigger] has_ordinal(shuffled, j) by {
        assert(has_ordinal(results, j));
        let k = choose|k: int| 0 <= k < n && #[trigger] results[k].0 == j;
        assert(hits(shuffle, k));
        let k2 = choose|k2: int| 0 <= k2 < n && #[trigger] shuffle[k2] == k;
        assert(shuffled[k2].0 == j);
    }
    assert forall|k1: int, k2: int| 0 <= k1 < n && 0 <= k2 < n && k1 != k2 implies #[trigger] shuffled[k1].0
        != #[trigger] shuffled[k2].0 by {
        assert(shuffle[k1] != shuffle[k2]);
    }
    assert(Seq::new(n, |j: int| buffer_for(shuffled, j)) =~= Seq::new(n, |j: int| buffer_for(results, j))) by {
        assert forall|j: int| 0 <= j < n implies buffer_for(shuffled, j) == buffer_for(results, j) by {
            assert(has_ordinal(shuffled, j));
            assert(has_ordinal(results, j));
            let ks = choose|k: int| 0 <= k < n && #[trigger] shuffled[k].0 == j;
            let kr = choose|k: int| 0 <= k < n && #[trigger] results[k].0 == j;
            assert(shuffled[ks].0 == j);
            assert(results[kr].0 == j);
            assert(results[shuffle[ks]].0 == j);
            assert(shuffle[ks] == kr);
        }
    }
}

/// How many pixels the first `j` chunks of a partition hold.
pub open spec fn chunks_prefix_len(pixel_count: nat, threads: nat, j: int) -> int {
    if j <= 0 {
        0
    } else {
        chunk_end(pixel_count, threads, j - 1)
    }
}

/// Whether each result holds the gray values of the chunk its ordinal names,
/// as `render_chunk` gives them.
pub open spec fn rendered_chunks<S: Signal>(
    signal: &S,
    geometry: DisplayGeometry,
    pixel_count: nat,
    threads: nat,
    results: Seq<(u32, Seq<u8>)>,
) -> bool {
    forall|k: int|
        0 <= k < results.len() ==> {
            &&& (#[trigger] results[k]).1.len() == chunk_end(pixel_count, threads, results[k].0 as int)
                - chunk_start(pixel_count, threads, results[k].0 as int)
            &&& forall|m: int|
                0 <= m < results[k].1.len() ==> #[trigger] results[k].1[m] == pixel_gray(
                    signal,
                    geometry,
                    chunk_start(pixel_count, threads, results[k].0 as int) + m,
                )
        }
}

proof fn lemma_ordered_prefix<S: Signal>(
    signal: &S,
    geometry: DisplayGeometry,
    pixel_count: nat,
    threads: nat,
    results: Seq<(u32, Seq<u8>)>,
    j: int,
)
    requires
        threads > 0,
        results.len() == chunk_count(pixel_count, threads),
        ordinals_complete(results),
        rendered_chunks(signal, geometry, pixel_count, threads, results),
        0 <= j <= results.len(),
    ensures
        ({
            let flat = Seq::new(j as nat, |i: int| buffer_for(results, i)).flatten();
            &&& flat.len() == chunks_prefix_len(pixel_count, threads, j)
            &&& forall|p: int|
                0 <= p < flat.len() ==> #[trigger] flat[p] == pixel_gray(signal, geometry, p)
        }),
    decreases j,
{
    if j > 0 {
        let i = j - 1;
        lemma_ordered_prefix(signal, geometry, pixel_count, threads, results, i);
        let prefix = Seq::new(i as nat, |x: int| buffer_for(results, x));
        let b = buffer_for(results, i);
        assert(Seq::new(j as nat, |x: int| buffer_for(results, x)) =~= prefix.push(b));
        prefix.lemma_flatten_push(b);
        assert(has_ordinal(results, i));
        let k = choose|k: int| 0 <= k < results.len() && results[k].0 == i;
        assert(results[k].0 == i);
        assert(b == results[k].1);
        let c = pixel_count as int;
        let t = threads as int;
        let per = c / t;
        assert(i <= t);
        assert(chunk_start(pixel_count, threads, i) == chunks_prefix_len(pixel_count, threads, i))
            by {
            if i > 0 {
                assert(i - 1 < t);
                assert(chunk_end(pixel_count, threads, i - 1) == (i - 1 + 1) * per);
                assert((i - 1 + 1) * per == i * per);
            } else {
                assert(0 * per == 0) by (nonlinear_arith);
            }
        }
        let flat = prefix.flatten() + b;
        let start = chunks_prefix_len(pixel_count, threads, i);
        assert forall|p: int| 0 <= p < flat.len() implies #[trigger] flat[p] == pixel_gray(
            signal,
            geometry,
            p,
        ) by {
            if p >= prefix.flatten().len() {
                let m = p - start;
                assert(flat[p] == b[m]);
                assert(results[k].1[m] == pixel_gray(
                    signal,
                    geometry,
                    chunk_start(pixel_count, threads, i) + m,
                ));
            } else {
                assert(flat[p] == prefix.flatten()[p]);
            }
        }
    }
}

/// Rendering in chunks gives the same frame as rendering pixel by pixel:
/// when every chunk of a partition has reported its gray values, whatever
/// the order, the reassembled buffer holds exactly the visible pixels, each
/// with the gray value `draw_frame` gives it.
pub proof fn lemma_chunked_frame_matches<S: Signal>(
    signal: &S,
    geometry: DisplayGeometry,
    pixel_count: nat,
    threads: nat,
    results: Seq<(u32, Seq<u8>)>,
)
    requires
        threads > 0,
        results.len() == chunk_count(pixel_count, threads),
        ordinals_complete(results),
        rendered_chunks(signal, geometry, pixel_count, threads, results),
    ensures
        in_order(results).len() == pixel_count,
        forall|p: int|
            0 <= p < pixel_count ==> #[trigger] in_order(results)[p] == pixel_gray(
                signal,
                geometry,
                p,
            ),
{
    lemma_ordered_prefix(signal, geometry, pixel_count, threads, results, results.len() as int);
    let c = pixel_count as int;
    let t = threads as int;
    lemma_fundamental_div_mod(c, t);
    if c % t == 0 {
        assert(chunk_end(pixel_count, threads, t - 1) == t * (c / t)) by {
            assert((t - 1 + 1) * (c / t) == t * (c / t));
        }
    }
}

/// Writes each gray value into the red, green and blue bytes of one RGBA
/// pixel of `frame`, with a fully opaque alpha. Pixels past the shorter of
/// the two are left as they were.
pub fn compose(frame: &mut Vec<u8>, grays: &Vec<u8>)
    ensures
        final(frame)@.len() == old(frame)@.len(),
        forall|p: int|
            0 <= p < old(frame)@.len() / 4 && p < grays@.len() ==> {
                &&& #[trigger] final(frame)@[4 * p] == grays@[p]
                &&& final(frame)@[4 * p + 1] == grays@[p]
                &&& final(frame)@[4 * p + 2] == grays@[p]
                &&& final(frame)@[4 * p + 3] == 255
            },
        forall|b: int|
            0 <= b < old(frame)@.len() && (b / 4 >= old(frame)@.len() / 4 || b / 4 >= grays@.len())
                ==> #[trigger] final(frame)@[b] == old(frame)@[b],
{
    let pixels: usize = if frame.len() / 4 < grays.len() {
        frame.len() / 4
    } else {
        grays.len()
    };
    let total = frame.len();
    let ghost original = frame@;
    let mut p: usize = 0;
    while p < pixels
        invariant
            total == original.len(),
            pixels == original.len() / 4 || pixels == grays@.len(),
            pixels <= original.len() / 4,
            pixels <= grays@.len(),
            p <= pixels,
            frame@.len() == original.len(),
            forall|q: int|
                0 <= q < p ==> {
                    &&& #[trigger] frame@[4 * q] == grays@[q]
                    &&& frame@[4 * q + 1] == grays@[q]
                    &&& frame@[4 * q + 2] == grays@[q]
                    &&& frame@[4 * q + 3] == 255
                },
            forall|b: int| 4 * p <= b < original.len() ==> #[trigger] frame@[b] == original[b],
        decreases pixels - p,
    {
        let g = grays[p];
        proof {
            lemma_fundamental_div_mod(original.len() as int, 4);
        }
        let base: usize = 4 * p;
        let ghost old_frame = frame@;
        frame[base] = g;
        frame[base + 1] = g;
        frame[base + 2] = g;
        frame[base + 3] = 255;
        proof {
            assert forall|q: int| 0 <= q < p + 1 implies {
                &&& #[trigger] frame@[4 * q] == grays@[q]
                &&& frame@[4 * q + 1] == grays@[q]
                &&& frame@[4 * q + 2] == grays@[q]
                &&& frame@[4 * q + 3] == 255
            } by {
                if q < p {
                    assert(frame@[4 * q] == old_frame[4 * q]);
                }
            }
        }
        p = p + 1;
    }
    proof {
        assert forall|b: int|
            0 <= b < original.len() && (b / 4 >= original.len() / 4 || b / 4 >= grays@.len())
                implies #[trigger] frame@[b] == original[b] by {
            lemma_fundamental_div_mod(b, 4);
        }
    }
}

/// Renders a whole frame on one thread: every RGBA pixel of `frame` gets
/// the gray value of its visible pixel.
pub fn draw_frame<S: Signal>(modulator: &S, geometry: &DisplayGeometry, frame: &mut Vec<u8>)
    requires
        geometry.wf(),
        old(frame)@.len() / 4 <= u32::MAX,
        renders(modulator, *geometry, 0, old(frame)@.len() as int / 4),
    ensures
        final(frame)@.len() == old(frame)@.len(),
        forall|p: int|
            0 <= p < old(frame)@.len() / 4 ==> {
                &&& #[trigger] final(frame)@[4 * p] == pixel_gray(modulator, *geometry, p)
                &&& final(frame)@[4 * p + 1] == pixel_gray(modulator, *geometry, p)
                &&& final(frame)@[4 * p + 2] == pixel_gray(modulator, *geometry, p)
                &&& final(frame)@[4 * p + 3] == 255
            },
{
    let count = (frame.len() / 4) as u32;
    let grays = render_chunk(modulator, geometry, Chunk { ordinal: 0, start: 0, end: count });
    compose(frame, &grays);
}

} // verus!
