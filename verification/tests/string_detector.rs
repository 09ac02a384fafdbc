use steel_capture::string_detector::Observation;
use steel_capture::string_detector::StringDetector;
use steel_capture::string_detector::StringLevel;

const QUIET: StringLevel = StringLevel::Measured { above_onset: false, below_release: true };
const BETWEEN: StringLevel = StringLevel::Measured { above_onset: false, below_release: false };
const LOUD: StringLevel = StringLevel::Measured { above_onset: true, below_release: false };

fn sine_wave(freq_hz: f64, amp: f64, sr: u32, ms: u32) -> Vec<f32> {
    let n = (sr as u64 * ms as u64 / 1000) as usize;
    (0..n)
        .map(|i| (amp * (2.0 * std::f64::consts::PI * freq_hz * i as f64 / sr as f64).sin()) as f32)
        .collect()
}

/// Levels with the given strings loud and all others quiet.
fn levels(loud: &[usize]) -> Observation {
    let mut l = [QUIET; 10];
    for &s in loud {
        l[s] = LOUD;
    }
    Observation::Levels(l)
}

/// Feed audio and run detection, returning (active, attacks).
fn feed_and_detect(
    det: &mut StringDetector<f32>,
    samples: &[f32],
    observation: Observation,
) -> ([bool; 10], [bool; 10]) {
    det.push_audio(samples);
    assert!(det.ready(), "100 ms of audio fill the window and the interval");
    det.detect(&observation)
}

#[test]
fn test_detects_single_string() {
    let mut det = StringDetector::new();
    let samples = sine_wave(493.88, 0.7, 48000, 100);
    let (active, attacks) = feed_and_detect(&mut det, &samples, levels(&[2]));
    assert!(active[2], "string 3 should be detected as active");
    assert!(attacks[2], "should register as attack on first detection");
    let other_active: usize = active.iter().enumerate().filter(|&(i, &a)| i != 2 && a).count();
    assert_eq!(other_active, 0);
}

#[test]
fn test_detects_three_string_grip() {
    let mut det = StringDetector::new();
    let samples = sine_wave(392.0, 0.17, 48000, 100);
    let (active, attacks) = feed_and_detect(&mut det, &samples, levels(&[2, 3, 4]));
    assert_eq!(active, [false, false, true, true, true, false, false, false, false, false]);
    assert_eq!(attacks, active);
}

#[test]
fn test_silence_all_inactive() {
    let mut det = StringDetector::new();
    let samples = vec![0.0f32; 4800]; // 100ms of silence
    let (active, attacks) = feed_and_detect(&mut det, &samples, Observation::Silence);
    assert!(active.iter().all(|&a| !a), "all strings should be inactive during silence");
    assert!(attacks.iter().all(|&a| !a), "no attacks during silence");
}

#[test]
fn test_no_bar_all_inactive() {
    let mut det = StringDetector::new();
    let samples = sine_wave(440.0, 0.7, 48000, 100);
    let (active, attacks) = feed_and_detect(&mut det, &samples, Observation::BarUnknown);
    assert!(active.iter().all(|&a| !a), "all inactive when bar position unknown");
    assert!(attacks.iter().all(|&a| !a));
}

#[test]
fn test_attack_only_on_onset() {
    let mut det = StringDetector::new();
    let samples = sine_wave(392.0, 0.7, 48000, 100);

    // First detection: should have attack
    let (_, attacks1) = feed_and_detect(&mut det, &samples, levels(&[3]));
    assert!(attacks1[3], "first detection should be an attack");

    // Second detection with same signal: NO new attack
    let (active2, attacks2) = feed_and_detect(&mut det, &samples, levels(&[3]));
    assert!(active2[3], "still active");
    assert!(!attacks2[3], "no new attack — string was already active");
}

#[test]
fn test_release_then_reattack() {
    let mut det = StringDetector::new();
    let samples = sine_wave(392.0, 0.7, 48000, 100);

    // Attack
    let (_, attacks1) = feed_and_detect(&mut det, &samples, levels(&[3]));
    assert!(attacks1[3]);

    // Release (silence)
    let silence = vec![0.0f32; 4800];
    for _ in 0..3 {
        feed_and_detect(&mut det, &silence, Observation::Silence);
    }
    assert!(!det.active()[3], "should be released after silence");

    // Re-attack
    let (_, attacks3) = feed_and_detect(&mut det, &samples, levels(&[3]));
    assert!(attacks3[3], "should register as new attack after release");
}

#[test]
fn test_detector_not_ready_repeats_state_without_attacks() {
    let mut det = StringDetector::<f32>::new();
    // no audio at all: the observation is not consulted
    let (active, attacks) = det.detect(&levels(&[0, 1, 2]));
    assert_eq!(active, [false; 10]);
    assert_eq!(attacks, [false; 10]);

    // make string 5 ring, then starve the detector of new audio
    let samples = vec![0.25f32; 4800];
    let (active, _) = feed_and_detect(&mut det, &samples, levels(&[5]));
    assert!(active[5]);
    det.push_audio(&samples[..100]);
    assert!(!det.ready());
    let (active, attacks) = det.detect(&Observation::Silence);
    assert!(active[5], "previous state is retained while no analysis is due");
    assert_eq!(attacks, [false; 10]);
    assert_eq!(det.samples_since_analysis(), 100, "the pending interval keeps counting");
}

#[test]
fn test_detector_schedule_needs_window_and_interval() {
    let mut det = StringDetector::<i16>::new();
    det.push_audio(&vec![0i16; 4095]);
    assert!(!det.ready(), "one sample short of a window");
    det.push_audio(&[0i16]);
    assert!(det.ready());
    det.detect(&Observation::Silence);
    assert_eq!(det.samples_since_analysis(), 0);
    det.push_audio(&vec![0i16; 2047]);
    assert!(!det.ready(), "one sample short of an interval");
    det.push_audio(&[0i16]);
    assert!(det.ready());
}

#[test]
fn test_detector_custom_schedule() {
    let mut det = StringDetector::<u8>::with_schedule(8, 4);
    det.push_audio(&[1, 2, 3, 4, 5, 6, 7]);
    assert!(!det.ready());
    det.push_audio(&[8, 9]);
    assert!(det.ready());
    assert_eq!(det.recent(), &[2u8, 3, 4, 5, 6, 7, 8, 9][..]);
}

#[test]
fn test_hysteresis_holds_between_thresholds() {
    let mut det = StringDetector::<f32>::new();
    let audio = vec![0.1f32; 4800];
    let mut between = [QUIET; 10];
    between[1] = BETWEEN;
    between[6] = BETWEEN;

    // between the thresholds an inactive string stays inactive
    let (active, attacks) = feed_and_detect(&mut det, &audio, Observation::Levels(between));
    assert_eq!(active, [false; 10]);
    assert_eq!(attacks, [false; 10]);

    // string 6 starts ringing
    let (active, attacks) = feed_and_detect(&mut det, &audio, levels(&[6]));
    assert!(active[6] && attacks[6]);

    // between the thresholds a ringing string keeps ringing, without attack
    let (active, attacks) = feed_and_detect(&mut det, &audio, Observation::Levels(between));
    assert!(active[6]);
    assert!(!active[1]);
    assert_eq!(attacks, [false; 10]);

    // below release it stops
    let (active, attacks) = feed_and_detect(&mut det, &audio, levels(&[]));
    assert_eq!(active, [false; 10]);
    assert_eq!(attacks, [false; 10]);
}

#[test]
fn test_out_of_range_string_is_inactive() {
    let mut det = StringDetector::<f32>::new();
    let audio = vec![0.1f32; 4800];
    feed_and_detect(&mut det, &audio, levels(&[0, 9]));
    let mut l = [LOUD; 10];
    l[9] = StringLevel::OutOfRange;
    let (active, attacks) = feed_and_detect(&mut det, &audio, Observation::Levels(l));
    assert!(!active[9], "a string that cannot be measured does not ring");
    assert!(active[0] && !attacks[0], "string 1 rang already");
    assert!(active[4] && attacks[4], "string 5 is new");
}

#[test]
fn test_misconfigured_thresholds_follow_the_rule() {
    // release above onset: both comparisons can hold at once
    let both = StringLevel::Measured { above_onset: true, below_release: true };
    let mut det = StringDetector::<f32>::new();
    let audio = vec![0.1f32; 4800];
    let (active, attacks) = feed_and_detect(&mut det, &audio, Observation::Levels([both; 10]));
    assert_eq!(active, [true; 10]);
    assert_eq!(attacks, [true; 10]);
    let (active, attacks) = feed_and_detect(&mut det, &audio, Observation::Levels([both; 10]));
    assert_eq!(active, [false; 10]);
    assert_eq!(attacks, [false; 10]);
}

#[test]
fn test_steady_note_attacks_exactly_once() {
    let mut det = StringDetector::<f32>::new();
    let audio = vec![0.1f32; 2048];
    det.push_audio(&audio);
    let mut attack_count = 0;
    for pass in 0..50 {
        det.push_audio(&audio);
        let (active, attacks) = det.detect(&levels(&[3]));
        assert!(active[3], "pass {}", pass);
        if attacks[3] {
            attack_count += 1;
            assert_eq!(pass, 0);
        }
    }
    assert_eq!(attack_count, 1);
}

#[test]
fn test_attack_implies_active_for_all_level_patterns() {
    let choices = [StringLevel::OutOfRange, QUIET, BETWEEN, LOUD];
    let audio = vec![0.1f32; 4096];
    let mut det = StringDetector::<f32>::new();
    let mut seed: u32 = 12345;
    for _ in 0..500 {
        let mut l = [QUIET; 10];
        for level in l.iter_mut() {
            seed = seed.wrapping_mul(1664525).wrapping_add(1013904223);
            *level = choices[(seed >> 24) as usize % 4];
        }
        let before = det.active();
        let (active, attacks) = feed_and_detect(&mut det, &audio, Observation::Levels(l));
        for i in 0..10 {
            assert_eq!(attacks[i], !before[i] && active[i]);
            assert!(!attacks[i] || active[i]);
        }
    }
}

#[test]
fn test_reset_forgets_everything() {
    let mut det = StringDetector::<f32>::new();
    let audio = vec![0.1f32; 4800];
    feed_and_detect(&mut det, &audio, levels(&[1, 2]));
    det.push_audio(&audio);
    det.reset();
    assert_eq!(det.active(), [false; 10]);
    assert_eq!(det.samples_since_analysis(), 0);
    assert!(!det.ready());
    assert_eq!(det.recent().len(), 0);
}
