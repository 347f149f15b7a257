use pixel_modulator::{
    modulate_amplitude, AmplitudeModulator, FrequencyModulator, IntSignal, Interpolation, PcmLoader,
    FmCarrier, PcmSignal, Phase, PreintegratedLoader, Signal, Signed16Le, Sine, Square, Unsigned8, FULL_SCALE,
    MAX_DEVIATION,
};

#[test]
fn am_level_values() {
    // Full-scale information passes the carrier through.
    assert_eq!(modulate_amplitude(32768, 32768), 32768);
    assert_eq!(modulate_amplitude(32768, -32768), -32768);
    // Silent information halves it.
    assert_eq!(modulate_amplitude(0, 32768), 16384);
    // Minimum information mutes it.
    assert_eq!(modulate_amplitude(-32768, 32768), 0);
    // Rounded down.
    assert_eq!(modulate_amplitude(1, -1), -1);
}

#[test]
fn am_stays_in_range() {
    let carrier = Square::from_freq(1000, 100000);
    let information = Square::from_freq(10, 100000);
    let am = AmplitudeModulator { carrier, information };
    for i in 0..20000u32 {
        let v = am.sample(i);
        assert!(-FULL_SCALE <= v && v <= FULL_SCALE);
    }
    assert_eq!(am.sample(0), FULL_SCALE);
    assert_eq!(am.sample(60), -FULL_SCALE);
    assert_eq!(am.sample(5000), 0);
}

#[test]
fn am_over_pcm_information() {
    let mut loader: PcmLoader<Unsigned8> = PcmLoader::new(4, 1, 8);
    loader.next_frame(&[128, 255, 0, 192]).unwrap();
    let information = loader.samples();
    let carrier = Square::from_freq(1, 16);
    let am = AmplitudeModulator { carrier, information };
    // Pixel 0: information 0, carrier +1: envelope one half.
    assert_eq!(am.sample(0), 16384);
    // Pixel 4: information -1: muted.
    assert_eq!(am.sample(4), 0);
}

#[test]
fn fm_with_square_carrier_follows_deviation() {
    // Four samples over eight pixels, each pixel one sample per second...
    let mut loader: PcmLoader<Signed16Le> = PcmLoader::new(4, 1, 8);
    let bytes = [0x00, 0x40, 0x00, 0x40, 0x00, 0x40, 0x00, 0x40];
    loader.next_frame(&bytes).unwrap();
    let mut integrated = PreintegratedLoader::new(loader);
    let information = integrated.samples();
    let carrier = Square::from_freq(0, 8);
    let fm = FrequencyModulator { carrier, information };
    for i in 0..8u32 {
        let deviation = fm.deviation(i);
        assert_eq!(deviation, IntSignal::sample(&fm.information, i).mul(MAX_DEVIATION));
        let expected = if deviation.is_first_half() { FULL_SCALE } else { -FULL_SCALE };
        assert_eq!(fm.sample(i), expected);
    }
}

#[test]
fn pcm_signal_follows_interpolation_setting() {
    let mut loader: PcmLoader<Unsigned8> = PcmLoader::new(4, 1, 8);
    loader.next_frame(&[128, 255, 0, 192]).unwrap();
    assert!(matches!(loader.samples(), PcmSignal::Nearest(_)));
    loader.set_interp(Interpolation::Linear);
    assert!(matches!(loader.samples(), PcmSignal::Linear(_)));
    assert_eq!(loader.samples().sample(1), 16256);
}

#[test]
fn fm_phase_with_sine_carrier() {
    let mut loader: PcmLoader<Unsigned8> = PcmLoader::new(2, 1, 4);
    loader.next_frame(&[255, 0]).unwrap();
    let mut integrated = PreintegratedLoader::new(loader);
    let information = integrated.samples();
    let carrier = Sine::from_freq(1, 4);
    let fm = FrequencyModulator { carrier, information };
    for i in 0..4u32 {
        let deviation = IntSignal::sample(&fm.information, i).mul(MAX_DEVIATION);
        assert_eq!(fm.phase(i), carrier.phase_at(i).add(deviation));
        assert_eq!(fm.phase(i), FmCarrier::phase_with_deviation(&carrier, i, deviation));
    }
    // The first sample raises the phase; the deviation is not zero past it.
    assert_ne!(fm.deviation(1), Phase(0));
    assert_eq!(fm.deviation(0), Phase(0));
}
