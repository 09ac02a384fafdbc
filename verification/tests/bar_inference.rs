use steel_capture::bar_inference::fuse;
use steel_capture::bar_inference::BarEvidence;
use steel_capture::bar_inference::BarInference;
use steel_capture::types::BarSource;

fn evidence(sensor: bool, audio: bool, agree: bool) -> BarEvidence {
    BarEvidence { sensor, audio, agree }
}

fn feed_and_infer(
    inf: &mut BarInference<f32>,
    samples: &[f32],
    ev: BarEvidence,
) -> BarSource {
    inf.push_audio(samples);
    assert!(inf.ready());
    inf.infer(ev).source
}

#[test]
fn test_sensor_only_during_silence() {
    let mut inf = BarInference::<f32>::new();
    // Bar at fret 3, but no audio (silence)
    let r = inf.infer(evidence(true, false, false));
    assert_ne!(r.source, BarSource::Unknown, "sensor should detect bar during silence");
    assert_eq!(r.source, BarSource::Sensor);
    assert!(!r.continues, "first position starts the smoother");
}

#[test]
fn test_fused_with_audio() {
    let mut inf = BarInference::new();
    let samples = vec![0.3f32; 4800];
    let source = feed_and_infer(&mut inf, &samples, evidence(true, true, true));
    assert_eq!(source, BarSource::Fused);
}

#[test]
fn test_silence_with_no_bar() {
    let mut inf = BarInference::<f32>::new();
    let r = inf.infer(evidence(false, false, false));
    assert_eq!(r.source, BarSource::Unknown);
    assert!(!r.continues);
    assert!(!inf.tracking());
}

#[test]
fn test_bar_lifted_returns_none() {
    let mut inf = BarInference::<f32>::new();
    // First place bar
    let _ = inf.infer(evidence(true, false, false));
    assert!(inf.tracking());
    // Then lift it (all sensors zero, no audio)
    let r = inf.infer(evidence(false, false, false));
    assert_eq!(r.source, BarSource::Unknown);
    assert!(!inf.tracking(), "the smoother is cleared");
    // Putting it back starts afresh
    let r = inf.infer(evidence(true, false, false));
    assert!(!r.continues);
    let r = inf.infer(evidence(true, false, false));
    assert!(r.continues);
}

#[test]
fn test_octave_alias_guard() {
    // audio says fret 17, the sensors say fret 5: they disagree
    let mut inf = BarInference::new();
    let samples = vec![0.3f32; 4800];
    let source = feed_and_infer(&mut inf, &samples, evidence(true, true, false));
    assert_eq!(source, BarSource::Sensor);
}

#[test]
fn test_audio_only() {
    let mut inf = BarInference::new();
    let samples = vec![0.3f32; 4800];
    let source = feed_and_infer(&mut inf, &samples, evidence(false, true, false));
    assert_eq!(source, BarSource::Audio);
    assert!(inf.tracking());
}

#[test]
fn test_audio_estimate_needs_a_due_analysis() {
    let mut inf = BarInference::<f32>::new();
    // the front end claims an audio estimate, but no analysis was due
    let r = inf.infer(evidence(false, true, true));
    assert_eq!(r.source, BarSource::Unknown);
    let r = inf.infer(evidence(true, true, true));
    assert_eq!(r.source, BarSource::Sensor);
}

#[test]
fn test_infer_consumes_the_analysis_slot() {
    let mut inf = BarInference::<f32>::new();
    inf.push_audio(&vec![0.0f32; 4096]);
    assert!(inf.ready());
    assert_eq!(inf.samples_since_analysis(), 4096);
    // silence: the analysis ran and found nothing
    let r = inf.infer(evidence(true, false, false));
    assert_eq!(r.source, BarSource::Sensor);
    assert_eq!(inf.samples_since_analysis(), 0);
    assert!(!inf.ready());
    inf.push_audio(&vec![0.0f32; 2048]);
    assert!(inf.ready());
}

#[test]
fn test_fuse_table() {
    assert_eq!(fuse(true, true, true), BarSource::Fused);
    assert_eq!(fuse(true, true, false), BarSource::Sensor);
    assert_eq!(fuse(true, false, false), BarSource::Sensor);
    assert_eq!(fuse(true, false, true), BarSource::Sensor);
    assert_eq!(fuse(false, true, false), BarSource::Audio);
    assert_eq!(fuse(false, true, true), BarSource::Audio);
    assert_eq!(fuse(false, false, false), BarSource::Unknown);
    assert_eq!(fuse(false, false, true), BarSource::Unknown);
}

#[test]
fn test_sensor_always_gives_a_known_non_audio_source() {
    for audio in [false, true] {
        for agree in [false, true] {
            let s = fuse(true, audio, agree);
            assert_ne!(s, BarSource::Unknown);
            assert_ne!(s, BarSource::Audio);
        }
    }
}

#[test]
fn test_inference_recent_window() {
    let mut inf = BarInference::<u16>::with_schedule(4, 2);
    inf.push_audio(&[1, 2, 3]);
    assert_eq!(inf.recent(), &[1u16, 2, 3][..]);
    inf.push_audio(&[4, 5, 6, 7, 8, 9, 10]);
    // capacity is 8: the two oldest are gone, the window is the newest 4
    assert_eq!(inf.recent(), &[7u16, 8, 9, 10][..]);
}
