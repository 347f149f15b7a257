use pixel_modulator::{
    compose, draw_frame, grays_of, grayscale, total_indices, partition, reassemble, render_chunk, visible_to_total_index,
    Chunk, DisplayGeometry, Square,
};

fn small() -> DisplayGeometry {
    DisplayGeometry { h_total: 6, v_total: 3, h_display: 4, v_display: 2, vertical_sync_hz: 60 }
}

#[test]
fn blanking_mapping_scenario() {
    let g = small();
    assert_eq!(visible_to_total_index(&g, 0), 0);
    assert_eq!(visible_to_total_index(&g, 3), 3);
    assert_eq!(visible_to_total_index(&g, 4), 6);
    assert_eq!(visible_to_total_index(&g, 7), 9);
}

#[test]
fn blanking_mapping_next_frame() {
    let g = small();
    // One whole visible frame later: a whole total frame later.
    assert_eq!(visible_to_total_index(&g, 8), 18);
}

#[test]
fn geometry_counts() {
    let g = DisplayGeometry {
        h_total: 1880,
        v_total: 1082,
        h_display: 1400,
        v_display: 1050,
        vertical_sync_hz: 60,
    };
    assert_eq!(g.frame_pixels(), 2034160);
    assert_eq!(g.visible_pixels(), 1470000);
    assert_eq!(g.dot_clock(), 122049600);
}

#[test]
fn grayscale_values() {
    assert_eq!(grayscale(-32768), 0);
    assert_eq!(grayscale(0), 128);
    assert_eq!(grayscale(32768), 255);
    assert_eq!(grayscale(16384), 191);
}

#[test]
fn partition_even_split() {
    let chunks = partition(12, 3);
    assert_eq!(
        chunks,
        vec![
            Chunk { ordinal: 0, start: 0, end: 4 },
            Chunk { ordinal: 1, start: 4, end: 8 },
            Chunk { ordinal: 2, start: 8, end: 12 },
        ]
    );
}

#[test]
fn partition_with_remainder_covers_once() {
    for (count, threads) in [(10u32, 3u32), (7, 8), (1470000, 8), (5, 1), (0, 4)] {
        let chunks = partition(count, threads);
        let mut seen = vec![0u32; count as usize];
        for c in &chunks {
            for p in c.start..c.end {
                seen[p as usize] += 1;
            }
        }
        assert!(seen.iter().all(|&n| n == 1), "{} over {}", count, threads);
    }
    let chunks = partition(10, 3);
    assert_eq!(chunks.len(), 4);
    assert_eq!(chunks[3], Chunk { ordinal: 3, start: 9, end: 10 });
}

#[test]
fn reassembly_ignores_arrival_order() {
    let in_order = vec![(0u32, vec![1u8, 2]), (1, vec![3]), (2, vec![]), (3, vec![4, 5, 6])];
    let shuffled = vec![(3u32, vec![4u8, 5, 6]), (1, vec![3]), (0, vec![1, 2]), (2, vec![])];
    let a = reassemble(&in_order, 4).unwrap();
    let b = reassemble(&shuffled, 4).unwrap();
    assert_eq!(a, vec![1, 2, 3, 4, 5, 6]);
    assert_eq!(a, b);
}

#[test]
fn reassembly_refuses_missing_or_repeated_ordinals() {
    assert_eq!(reassemble(&vec![(0u32, vec![1u8]), (2, vec![2])], 2), None);
    assert_eq!(reassemble(&vec![(1u32, vec![1u8]), (1, vec![2])], 2), None);
    assert_eq!(reassemble(&vec![], 0), Some(vec![]));
}

#[test]
fn reassembly_refuses_missing_chunks() {
    // Two chunks were handed out; only the first reported.
    let chunks = partition(2, 2);
    assert_eq!(chunks.len(), 2);
    assert_eq!(reassemble(&vec![(0u32, vec![7u8])], chunks.len()), None);
    // No worker reported at all.
    assert_eq!(reassemble(&vec![], chunks.len()), None);
    assert_eq!(reassemble(&vec![(1u32, vec![8u8]), (0, vec![7])], chunks.len()), Some(vec![7, 8]));
}

#[test]
fn compose_writes_rgba() {
    let mut frame = vec![9u8; 12];
    compose(&mut frame, &vec![10, 20]);
    assert_eq!(frame, vec![10, 10, 10, 255, 20, 20, 20, 255, 9, 9, 9, 9]);
}

#[test]
fn threaded_and_single_rendering_agree() {
    let g = small();
    let carrier = Square::from_freq(1, 8);
    let mut single = vec![0u8; 4 * 8];
    draw_frame(&carrier, &g, &mut single);
    let mut results = Vec::new();
    let chunks = partition(8, 3);
    let expected = chunks.len();
    for chunk in chunks.into_iter().rev() {
        results.push((chunk.ordinal, render_chunk(&carrier, &g, chunk)));
    }
    let mut threaded = vec![0u8; 4 * 8];
    compose(&mut threaded, &reassemble(&results, expected).unwrap());
    assert_eq!(single, threaded);
    // Visible pixel 4 sits at total index 6, half a period in: dark.
    assert_eq!(single[16], 0);
    assert_eq!(single[0], 255);
}

#[test]
fn chunk_total_indices_skip_blanking() {
    let g = small();
    let chunk = Chunk { ordinal: 1, start: 2, end: 7 };
    assert_eq!(total_indices(&g, chunk), vec![2, 3, 6, 7, 8]);
}

#[test]
fn grays_of_levels() {
    assert_eq!(grays_of(&vec![-32768, 0, 32768, -16384]), vec![0, 128, 255, 64]);
}
