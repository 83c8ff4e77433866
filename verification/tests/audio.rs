use dictee::audio::dsp::{
    gcd_u64, resample_plan, speech_span, tap_window, ResamplePlan, SpeechFrames, MIN_VOICED_FRAMES,
};
use dictee::audio::{append_capped, capture_sizes, pick_device, AudioError, DeviceChoice};

#[test]
fn gcd_values() {
    assert_eq!(gcd_u64(48_000, 16_000), 16_000);
    assert_eq!(gcd_u64(44_100, 16_000), 100);
    assert_eq!(gcd_u64(0, 7), 7);
    assert_eq!(gcd_u64(7, 0), 7);
    assert_eq!(gcd_u64(0, 0), 0);
    assert_eq!(gcd_u64(17, 5), 1);
}

#[test]
fn resample_length_matches_ratio() {
    let p = resample_plan(48_000, 48_000, 16_000).expect("plan");
    assert_eq!(p, ResamplePlan { up: 1, down: 3, phases: 1, out_len: 16_000 });
    let p = resample_plan(44_100, 44_100, 16_000).expect("plan");
    assert_eq!(p.up, 160);
    assert_eq!(p.down, 441);
    assert_eq!(p.phases, 160);
    assert_eq!(p.out_len, 16_000);
}

#[test]
fn resample_same_rate_is_copy() {
    assert_eq!(resample_plan(3, 16_000, 16_000), None);
    assert_eq!(resample_plan(0, 48_000, 16_000), None);
    assert_eq!(resample_plan(10, 0, 16_000), None);
    assert_eq!(resample_plan(10, 16_000, 0), None);
}

#[test]
fn upsampling_caps_phases() {
    let p = resample_plan(1, 1, 5_000).expect("plan");
    assert_eq!(p.up, 5_000);
    assert_eq!(p.phases, 1024);
    assert_eq!(p.out_len, 5_000);
}

#[test]
fn tap_window_clips_to_the_input() {
    let p = resample_plan(100, 48_000, 16_000).expect("plan");
    let reach = 51;
    let taps = 2 * reach as usize + 2;
    let w = tap_window(&p, 0, reach, taps, 100);
    assert_eq!(w.phase, 0);
    assert_eq!(w.first, -51);
    assert_eq!(w.lo, 51);
    assert_eq!(w.hi, taps);
    assert_eq!(p.out_len, 33);
    let w = tap_window(&p, 32, reach, taps, 100);
    assert_eq!(w.first, 96 - 51);
    assert_eq!(w.lo, 0);
    assert_eq!(w.hi, 55);
    let w = tap_window(&p, 20, reach, taps, 100);
    assert_eq!(w.first, 9);
    assert_eq!((w.lo, w.hi), (0, 91));
}

#[test]
fn tap_window_phase_follows_fraction() {
    let p = resample_plan(100, 44_100, 16_000).expect("plan");
    let w = tap_window(&p, 1, 10, 22, 100);
    assert_eq!(w.phase, ((441u64 % 160) * 160 / 160) as usize);
    assert_eq!(w.first, 441 / 160 - 10);
}

fn frames(pattern: &[(bool, usize)]) -> Vec<bool> {
    let mut v = Vec::new();
    for &(b, n) in pattern {
        v.extend(std::iter::repeat(b).take(n));
    }
    v
}

#[test]
fn speech_between_silences_is_padded() {
    let v = frames(&[(false, 34), (true, 33), (false, 34)]);
    let span = speech_span(&v, 480, 4_800, 48_000).expect("speech");
    assert_eq!(span, SpeechFrames { start: 34 * 480 - 4_800, end: 67 * 480 + 4_800, voiced: 33 });
}

#[test]
fn too_few_voiced_frames_is_no_speech() {
    let v = frames(&[(false, 10), (true, MIN_VOICED_FRAMES - 1), (false, 10)]);
    assert_eq!(speech_span(&v, 480, 4_800, 48_000), None);
    assert_eq!(speech_span(&Vec::new(), 480, 4_800, 0), None);
    let v = frames(&[(true, MIN_VOICED_FRAMES)]);
    assert_eq!(
        speech_span(&v, 480, 4_800, 9 * 480),
        Some(SpeechFrames { start: 0, end: 9 * 480, voiced: 9 })
    );
}

#[test]
fn scattered_voiced_frames_span_first_to_last() {
    let v = frames(&[(true, 1), (false, 20), (true, 8), (false, 3)]);
    let span = speech_span(&v, 10, 5, 320).expect("speech");
    assert_eq!(span, SpeechFrames { start: 0, end: 29 * 10 + 5, voiced: 9 });
}

#[test]
fn device_choice() {
    let names = vec!["Micro A".to_string(), "USB".to_string(), "USB".to_string()];
    assert_eq!(pick_device(&names, Some("USB")), DeviceChoice::Listed(1));
    assert_eq!(pick_device(&names, Some("Absent")), DeviceChoice::Default);
    assert_eq!(pick_device(&names, None), DeviceChoice::Default);
    assert_eq!(pick_device(&Vec::new(), Some("USB")), DeviceChoice::Default);
}

#[test]
fn capture_buffer_sizes() {
    assert_eq!(capture_sizes(48_000, 120), (48_000 * 120, 48_000 * 30));
    assert_eq!(capture_sizes(48_000, 5), (48_000 * 5, 48_000 * 5));
}

#[test]
fn capture_stops_growing_at_the_limit() {
    let mut out = vec![1, 2];
    append_capped(&mut out, &[3, 4, 5], 4);
    assert_eq!(out, vec![1, 2, 3, 4]);
    append_capped(&mut out, &[6], 4);
    assert_eq!(out, vec![1, 2, 3, 4]);
    let mut small = vec![1];
    append_capped(&mut small, &[2, 3], 10);
    assert_eq!(small, vec![1, 2, 3]);
}

#[test]
fn audio_error_messages() {
    assert_eq!(AudioError::NoInputDevice.message(), "aucun micro disponible");
    assert_eq!(AudioError::Device("x".into()).message(), "micro inaccessible : x");
    assert_eq!(
        AudioError::UnsupportedFormat("I24".into()).message(),
        "format audio non pris en charge : I24"
    );
    assert_eq!(
        AudioError::CaptureThreadDied.message(),
        "le thread de capture s'est arrêté de façon inattendue"
    );
}

#[test]
fn speech_always_lies_within_the_take() {
    let n = 1_000;
    let frame = 30;
    let count = (n + frame - 1) / frame;
    let mut v = vec![false; count];
    for i in count - MIN_VOICED_FRAMES..count {
        v[i] = true;
    }
    let span = speech_span(&v, frame, 500, n).expect("speech");
    assert!(span.start < span.end && span.end <= n);
    assert_eq!(span.end, n);
    assert_eq!(span.start, (count - MIN_VOICED_FRAMES) * frame - 500);
}

#[test]
fn tap_window_phase_for_each_fraction() {
    let p = resample_plan(1_000, 44_100, 16_000).expect("plan");
    for n in [0u64, 1, 2, 7, 159, 160, 361] {
        let w = tap_window(&p, n, 17, 36, 1_000);
        assert_eq!(w.phase as u64, (n * p.down % p.up) * p.phases / p.up);
    }
    assert_eq!(tap_window(&p, 2, 17, 36, 1_000).phase, 882 % 160);
}
