use utterly::audio::{
    energy, frame_count, mix_frame, mix_frame_u16, pick_device, pick_input_config, Capture,
    InputChoice, InputRange, Level, Ring, SampleFormat, CHUNK, LEVEL_METER, LEVEL_SILENCE,
    LEVEL_ZERO, RING_CAP, TARGET_RATE,
};

fn rms(chunk: &[i16]) -> f32 {
    if chunk.is_empty() {
        return 0.0;
    }
    (energy(chunk) as f64 / chunk.len() as f64).sqrt() as f32
}

#[test]
fn ring_overwrites_oldest_and_stays_bounded() {
    let mut r = Ring::new();
    for i in 0..(RING_CAP + 500) {
        r.push((i % 32767) as i16);
    }
    assert_eq!(r.len(), RING_CAP);
    let mut out = [0i16; CHUNK];
    let n = r.drain(&mut out);
    assert_eq!(n, CHUNK);
    // First surviving sample is #500.
    assert_eq!(out[0], 500);
}

#[test]
fn rms_silence_is_zero() {
    assert_eq!(rms(&[0i16; 64]), 0.0);
    assert_eq!(rms(&[]), 0.0);
}

#[test]
fn rms_full_scale_sine_ballpark() {
    // ±1000 square wave => RMS == 1000.
    let mut v = [0i16; 100];
    for (i, s) in v.iter_mut().enumerate() {
        *s = if i % 2 == 0 { 1000 } else { -1000 };
    }
    let r = rms(&v);
    assert!((r - 1000.0).abs() < 1.0, "rms={r}");
}

#[test]
fn energy_is_the_sum_of_squares() {
    assert_eq!(energy(&[3, -4]), 25);
    assert_eq!(energy(&[i16::MIN, i16::MIN]), 2 * 32768 * 32768);
    assert_eq!(energy(&[0, 0, 1]), 1);
}

#[test]
fn level_thresholds_are_the_documented_floats() {
    assert_eq!(LEVEL_ZERO, 0.0f32.to_bits());
    assert_eq!(LEVEL_SILENCE, 120.0f32.to_bits());
    assert_eq!(LEVEL_METER, 200.0f32.to_bits());
    let at = |v: f32| Level { bits: v.to_bits() };
    assert!(at(120.0).is_audible());
    assert!(!at(119.9).is_audible());
    assert!(at(200.1).moves_meter());
    assert!(!at(200.0).moves_meter());
    assert!(Level::zero().is_zero());
    assert!(!at(0.01).is_zero());
    assert!(at(32768.0).is_audible());
}

#[test]
fn ring_drains_in_order_across_the_wrap() {
    let mut r = Ring::new();
    r.push_slice(&vec![7i16; RING_CAP - 2]);
    let mut sink = vec![0i16; RING_CAP - 2];
    assert_eq!(r.drain(&mut sink), RING_CAP - 2);
    assert_eq!(r.len(), 0);
    r.push_slice(&[1, 2, 3, 4, 5]);
    let mut out = [0i16; 3];
    assert_eq!(r.drain(&mut out), 3);
    assert_eq!(out, [1, 2, 3]);
    let mut rest = [9i16; 4];
    assert_eq!(r.drain(&mut rest), 2);
    assert_eq!(rest, [4, 5, 9, 9]);
    r.push(8);
    r.clear();
    assert_eq!(r.len(), 0);
    assert_eq!(r.drain(&mut rest), 0);
}

#[test]
fn capture_hands_out_whole_chunks_only() {
    let mut c = Capture::new();
    assert!(c.take_chunk().is_none());
    let mut out: Vec<i16> = vec![2; CHUNK - 1];
    assert_eq!(c.flush_out(&mut out), 0);
    assert_eq!(out.len(), CHUNK - 1);
    assert!(c.take_chunk().is_none());
    out.push(5);
    out.push(6);
    assert_eq!(c.flush_out(&mut out), 1);
    assert_eq!(out, vec![6]);
    let (chunk, e) = c.take_chunk().unwrap();
    assert_eq!(chunk[0], 2);
    assert_eq!(chunk[CHUNK - 1], 5);
    assert_eq!(e, 4 * (CHUNK as u64 - 1) + 25);
    assert!(c.take_chunk().is_none());
}

#[test]
fn capture_keeps_the_newest_and_bounds_its_signals() {
    let mut c = Capture::new();
    for i in 0..(RING_CAP / CHUNK + 3) {
        let mut out = vec![i as i16; CHUNK];
        c.flush_out(&mut out);
    }
    let mut taken: Vec<i16> = Vec::new();
    while let Some((chunk, _)) = c.take_chunk() {
        taken.push(chunk[0]);
    }
    assert_eq!(taken.len(), RING_CAP / CHUNK);
    assert_eq!(taken[0], 3);
    assert_eq!(taken[taken.len() - 1], (RING_CAP / CHUNK + 2) as i16);
}

#[test]
fn cleared_capture_has_no_old_audio() {
    let mut c = Capture::new();
    let mut out = vec![1i16; 3 * CHUNK];
    assert_eq!(c.flush_out(&mut out), 3);
    c.clear();
    assert!(c.take_chunk().is_none());
    let mut out = vec![4i16; CHUNK];
    c.flush_out(&mut out);
    assert_eq!(c.take_chunk().unwrap().0[0], 4);
}

#[test]
fn frames_are_mixed_by_channel() {
    assert_eq!(frame_count(7, 2), 3);
    assert_eq!(frame_count(7, 0), 7);
    assert_eq!(mix_frame(&[1, 2, 3, -4], 2, 0), 3);
    assert_eq!(mix_frame(&[1, 2, 3, -4], 2, 1), -1);
    assert_eq!(mix_frame(&[-32768; 8], 8, 0), -262144);
    assert_eq!(mix_frame_u16(&[0, 65535, 32768, 32770], 2, 0), -1);
    assert_eq!(mix_frame_u16(&[0, 65535, 32768, 32770], 2, 1), 2);
}

fn range(channels: u16, min_rate: u32, max_rate: u32, format: SampleFormat) -> InputRange {
    InputRange { channels, min_rate, max_rate, format }
}

#[test]
fn mono_wins_then_rate_then_format() {
    let ranges = [
        range(2, 16_000, 48_000, SampleFormat::I16),
        range(1, 44_100, 48_000, SampleFormat::I16),
        range(1, 8_000, 48_000, SampleFormat::F32),
        range(1, 8_000, 48_000, SampleFormat::I16),
        range(1, 8_000, 48_000, SampleFormat::I16),
    ];
    assert_eq!(pick_input_config(&ranges), Some(InputChoice { index: 3, rate: TARGET_RATE }));
    assert_eq!(pick_input_config(&ranges[..2]), Some(InputChoice { index: 1, rate: 44_100 }));
    assert_eq!(pick_input_config(&ranges[..1]), Some(InputChoice { index: 0, rate: 16_000 }));
}

#[test]
fn closest_rate_counts_to_the_hertz() {
    let ranges = [
        range(1, 16_500, 16_500, SampleFormat::I16),
        range(1, 16_000, 16_000, SampleFormat::F32),
    ];
    assert_eq!(pick_input_config(&ranges), Some(InputChoice { index: 1, rate: 16_000 }));
    let far = [
        range(2, 16_000, 16_000, SampleFormat::I16),
        range(1, 2_000_000, 2_000_000, SampleFormat::U16),
    ];
    assert_eq!(pick_input_config(&far), Some(InputChoice { index: 1, rate: 2_000_000 }));
    let apart = [
        range(1, 15_999, 15_999, SampleFormat::U16),
        range(1, 16_001, 16_001, SampleFormat::F32),
    ];
    assert_eq!(pick_input_config(&apart), Some(InputChoice { index: 1, rate: 16_001 }));
}

#[test]
fn unusable_configs_are_skipped() {
    let ranges = [
        range(0, 16_000, 16_000, SampleFormat::I16),
        range(9, 16_000, 16_000, SampleFormat::I16),
        range(1, 16_000, 16_000, SampleFormat::Other),
    ];
    assert_eq!(pick_input_config(&ranges), None);
    let low = [range(1, 8_000, 11_025, SampleFormat::U16)];
    assert_eq!(pick_input_config(&low), Some(InputChoice { index: 0, rate: 11_025 }));
}

#[test]
fn device_is_found_by_part_of_its_name() {
    let names = vec![None, Some("USB Mic".to_string()), Some("MacBook Pro Microphone".to_string())];
    assert_eq!(pick_device(&names, "Mic"), Some(1));
    assert_eq!(pick_device(&names, "MacBook"), Some(2));
    assert_eq!(pick_device(&names, "Webcam"), None);
    assert_eq!(pick_device(&names, ""), None);
}
