use pixel_modulator::{
    IntSignal, Interpolation, Linear, Nearest, Pcm, PcmError, PcmFormat, PcmLoader,
    PreintegratedLoader, Signal, Signed16Le, Unsigned8, FULL_SCALE,
};

#[test]
fn unsigned8_decodes_around_128() {
    let samples = Unsigned8::from_bytes(&[0, 128, 255]);
    let levels: Vec<i32> = samples.iter().map(|s| s.amplitude()).collect();
    assert_eq!(levels, vec![-FULL_SCALE, 0, 32512]);
    assert_eq!(Unsigned8::bytes(), 1);
}

#[test]
fn signed16le_decodes_little_endian() {
    let samples = Signed16Le::from_bytes(&[0x00, 0x80, 0xff, 0x7f, 0x01, 0x00, 0xff, 0xff, 0x42]);
    let levels: Vec<i32> = samples.iter().map(|s| s.amplitude()).collect();
    assert_eq!(levels, vec![-32768, 32767, 1, -1]);
    assert_eq!(Signed16Le::bytes(), 2);
}

#[test]
fn loader_window_size_from_rates() {
    // 44100 / 60 = 735 samples per frame.
    let loader: PcmLoader<Signed16Le> = PcmLoader::new(44100, 60, 2034160);
    assert_eq!(loader.window_bytes(), 1470);
    // 100 / 60 = 1.67, rounded to 2.
    let loader: PcmLoader<Unsigned8> = PcmLoader::new(100, 60, 10);
    assert_eq!(loader.window_bytes(), 2);
}

#[test]
fn loader_refuses_incomplete_window() {
    let mut loader: PcmLoader<Signed16Le> = PcmLoader::new(4, 1, 8);
    assert_eq!(
        loader.next_frame(&[1, 2, 3]),
        Err(PcmError::IncompleteWindow { expected: 8, received: 3 })
    );
    assert_eq!(loader.pcm().samples.len(), 0);
    assert_eq!(loader.next_frame(&[0; 8]), Ok(()));
    assert_eq!(loader.pcm().samples.len(), 4);
    assert_eq!(
        loader.next_frame(&[0; 10]),
        Err(PcmError::IncompleteWindow { expected: 8, received: 10 })
    );
    assert_eq!(loader.pcm().samples.len(), 4);
}

#[test]
fn nearest_holds_each_sample_over_its_window() {
    let pcm = Pcm {
        samples: Unsigned8::from_bytes(&[128, 192, 64]),
        sample_rate: 3,
        samples_per_frame: 3,
        frame_pixels: 7,
    };
    let signal = Nearest(pcm);
    // Sample k owns pixels i with floor(i * 3 / 7) == k.
    let levels: Vec<i32> = (0..7).map(|i| signal.sample(i)).collect();
    assert_eq!(levels, vec![0, 0, 0, 16384, 16384, -16384, -16384]);
}

#[test]
fn linear_interpolates_between_samples() {
    let pcm = Pcm {
        samples: Unsigned8::from_bytes(&[128, 192, 64]),
        sample_rate: 3,
        samples_per_frame: 3,
        frame_pixels: 6,
    };
    let signal = Linear(pcm);
    assert_eq!(signal.sample(0), 0);
    assert_eq!(signal.sample(1), 8192);
    assert_eq!(signal.sample(2), 16384);
    assert_eq!(signal.sample(3), 0);
    // Rounded down towards minus infinity.
    let pcm = Pcm {
        samples: Unsigned8::from_bytes(&[128, 127]),
        sample_rate: 2,
        samples_per_frame: 2,
        frame_pixels: 6,
    };
    assert_eq!(Linear(pcm).sample(1), -86);
}

fn deviation_of(level: i64, spf: i64, rate: i64, pixels: i64) -> u32 {
    let numerator = level * spf;
    let denominator = 32768 * rate * pixels;
    let units = (2 * numerator.abs() as i128 * 4294967296 + denominator as i128)
        / (2 * denominator as i128);
    let signed = if numerator < 0 { -units } else { units };
    signed.rem_euclid(4294967296) as u32
}

#[test]
fn preintegrated_matches_sequential_accumulation() {
    // Five samples over thirteen pixels: windows of uneven length.
    let mut loader: PcmLoader<Signed16Le> = PcmLoader::new(5, 1, 13);
    let values: [i16; 5] = [16384, -32768, 1000, 32767, -7];
    let mut bytes = Vec::new();
    for v in values {
        bytes.extend_from_slice(&v.to_le_bytes());
    }
    loader.next_frame(&bytes).unwrap();
    let mut integrated = PreintegratedLoader::new(loader);
    let table = integrated.samples();
    let mut phase: u32 = 0;
    for i in 0..13u32 {
        assert_eq!(table.sample(i).0, phase, "pixel {}", i);
        let owner = (i as usize * 5) / 13;
        phase = phase.wrapping_add(deviation_of(values[owner] as i64, 5, 5, 13));
    }
    assert_eq!(table.0.final_phase().0, phase);
}

#[test]
fn preintegration_carries_phase_between_frames() {
    let mut loader: PcmLoader<Unsigned8> = PcmLoader::new(2, 1, 4);
    loader.next_frame(&[255, 255]).unwrap();
    let mut integrated = PreintegratedLoader::new(loader);
    let first = integrated.samples();
    let end = first.0.final_phase();
    assert_ne!(end.0, 0);
    integrated.next_frame(&[128, 128]).unwrap();
    let second = integrated.samples();
    assert_eq!(second.sample(0), end);
    // Silent samples add no phase.
    assert_eq!(second.sample(3), end);
    assert_eq!(second.0.final_phase(), end);
}

#[test]
fn interpolation_default_is_nearest() {
    let mut loader: PcmLoader<Unsigned8> = PcmLoader::new(2, 1, 4);
    loader.next_frame(&[0, 255]).unwrap();
    let nearest = loader.samples();
    assert_eq!(nearest.sample(1), -FULL_SCALE);
    loader.set_interp(Interpolation::Linear);
    let linear = loader.samples();
    assert_eq!(linear.sample(1), -128);
}

#[test]
fn empty_window_ends_at_its_starting_angle() {
    let loader: PcmLoader<Unsigned8> = PcmLoader::new(2, 1, 4);
    let mut integrated = PreintegratedLoader::new(loader);
    let table = integrated.samples();
    assert_eq!(table.0.final_phase(), pixel_modulator::Phase(0));
}

#[test]
fn end_phase_is_sum_of_windows() {
    // Two samples over four pixels: each window two pixels long.
    let mut loader: PcmLoader<Unsigned8> = PcmLoader::new(2, 1, 4);
    loader.next_frame(&[255, 0]).unwrap();
    let mut integrated = PreintegratedLoader::new(loader);
    let table = integrated.samples();
    let d0 = deviation_of(32512, 2, 2, 4);
    let d1 = deviation_of(-32768, 2, 2, 4);
    let end = d0.wrapping_mul(2).wrapping_add(d1.wrapping_mul(2));
    assert_eq!(table.0.final_phase().0, end);
    integrated.next_frame(&[128, 128]).unwrap();
    assert_eq!(integrated.samples().sample(0).0, end);
}
