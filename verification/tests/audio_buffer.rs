use steel_capture::audio_buffer::AudioBuffer;
use steel_capture::audio_buffer::ANALYSIS_INTERVAL;
use steel_capture::audio_buffer::ANALYSIS_WINDOW;

#[test]
fn test_buffer_defaults() {
    assert_eq!(ANALYSIS_WINDOW, 4096);
    assert_eq!(ANALYSIS_INTERVAL, 2048);
}

#[test]
fn test_buffer_starts_empty() {
    let b = AudioBuffer::<f32>::new(ANALYSIS_WINDOW, ANALYSIS_INTERVAL);
    assert_eq!(b.len(), 0);
    assert_eq!(b.samples_since_analysis(), 0);
    assert!(!b.ready());
    assert!(b.recent().is_empty());
}

#[test]
fn test_buffer_is_capped_at_twice_the_window() {
    let mut b = AudioBuffer::<u32>::new(4, 2);
    let all: Vec<u32> = (0..20).collect();
    for chunk in all.chunks(3) {
        b.push(chunk);
        assert!(b.len() <= 8);
    }
    assert_eq!(b.len(), 8);
    assert_eq!(b.recent(), &[16u32, 17, 18, 19][..]);
    assert_eq!(b.samples_since_analysis(), 20);
}

#[test]
fn test_buffer_one_big_chunk_keeps_newest() {
    let mut b = AudioBuffer::<u32>::new(3, 1);
    let all: Vec<u32> = (0..100).collect();
    b.push(&all);
    assert_eq!(b.len(), 6);
    assert_eq!(b.recent(), &[97u32, 98, 99][..]);
}

#[test]
fn test_buffer_exactly_at_capacity_drops_nothing() {
    let mut b = AudioBuffer::<u8>::new(2, 1);
    b.push(&[1, 2, 3, 4]);
    assert_eq!(b.len(), 4);
    b.push(&[5]);
    assert_eq!(b.len(), 4);
    assert_eq!(b.recent(), &[4u8, 5][..]);
}

#[test]
fn test_buffer_ready_needs_both_conditions() {
    let mut b = AudioBuffer::<i16>::new(10, 4);
    b.push(&[0; 9]);
    assert!(!b.ready(), "window not full");
    b.push(&[0; 1]);
    assert!(b.ready());
    assert!(b.begin_analysis());
    assert!(!b.ready(), "interval restarted");
    assert!(!b.begin_analysis());
    b.push(&[0; 3]);
    assert!(!b.ready());
    assert_eq!(b.samples_since_analysis(), 3);
    b.push(&[0; 1]);
    assert!(b.ready());
}

#[test]
fn test_buffer_begin_analysis_keeps_samples() {
    let mut b = AudioBuffer::<u8>::new(2, 2);
    b.push(&[7, 8, 9]);
    assert!(b.begin_analysis());
    assert_eq!(b.len(), 3);
    assert_eq!(b.recent(), &[8u8, 9][..]);
    assert_eq!(b.samples_since_analysis(), 0);
}

#[test]
fn test_buffer_recent_before_window_is_full() {
    let mut b = AudioBuffer::<u8>::new(5, 1);
    b.push(&[1, 2]);
    assert_eq!(b.recent(), &[1u8, 2][..]);
}

#[test]
fn test_buffer_clear() {
    let mut b = AudioBuffer::<u8>::new(2, 1);
    b.push(&[1, 2, 3]);
    b.clear();
    assert_eq!(b.len(), 0);
    assert_eq!(b.samples_since_analysis(), 0);
    assert!(!b.ready());
    b.push(&[4, 5]);
    assert!(b.ready());
}

#[test]
fn test_buffer_zero_window_is_always_full() {
    let mut b = AudioBuffer::<u8>::new(0, 0);
    assert!(b.ready());
    b.push(&[1, 2, 3]);
    assert_eq!(b.len(), 0);
    assert!(b.recent().is_empty());
}

#[test]
fn test_buffer_empty_chunk_changes_nothing() {
    let mut b = AudioBuffer::<u8>::new(2, 1);
    b.push(&[1]);
    b.push(&[]);
    assert_eq!(b.len(), 1);
    assert_eq!(b.samples_since_analysis(), 1);
}

#[test]
fn test_buffer_chunking_does_not_matter() {
    let all: Vec<u32> = (0..1000).collect();
    let mut whole = AudioBuffer::<u32>::new(64, 32);
    whole.push(&all);
    for piece in [1usize, 7, 48, 64, 129, 500] {
        let mut pieces = AudioBuffer::<u32>::new(64, 32);
        for chunk in all.chunks(piece) {
            pieces.push(chunk);
        }
        assert_eq!(pieces.len(), whole.len());
        assert_eq!(pieces.recent(), whole.recent());
        assert_eq!(pieces.samples_since_analysis(), 1000);
    }
}
