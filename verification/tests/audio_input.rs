use steel_capture::audio_input::ChunkAccumulator;
use steel_capture::audio_input::CHUNK_SIZE;

#[test]
fn test_chunk_size() {
    assert_eq!(CHUNK_SIZE, 1024);
}

#[test]
fn test_accumulator_holds_back_a_partial_chunk() {
    let mut acc = ChunkAccumulator::<f32>::new(CHUNK_SIZE);
    assert!(acc.next_chunk().is_none());
    acc.push(&vec![0.5f32; 1023]);
    assert!(acc.next_chunk().is_none());
    assert_eq!(acc.len(), 1023);
    acc.push(&[0.25]);
    let chunk = acc.next_chunk().unwrap();
    assert_eq!(chunk.len(), 1024);
    assert_eq!(chunk[1022], 0.5);
    assert_eq!(chunk[1023], 0.25);
    assert_eq!(acc.len(), 0);
    assert!(acc.next_chunk().is_none());
}

#[test]
fn test_accumulator_keeps_order_and_loses_nothing() {
    let all: Vec<u32> = (0..5000).collect();
    let mut acc = ChunkAccumulator::<u32>::new(CHUNK_SIZE);
    let mut out: Vec<u32> = Vec::new();
    for piece in all.chunks(480) {
        acc.push(piece);
        while let Some(chunk) = acc.next_chunk() {
            assert_eq!(chunk.len(), CHUNK_SIZE);
            out.extend_from_slice(&chunk);
        }
    }
    assert_eq!(out.len(), 4096);
    assert_eq!(&out[..], &all[..4096]);
    assert_eq!(acc.len(), 5000 - 4096);
}

#[test]
fn test_accumulator_one_large_delivery() {
    let all: Vec<i16> = (0..3000).map(|i| i as i16).collect();
    let mut acc = ChunkAccumulator::<i16>::new(CHUNK_SIZE);
    acc.push(&all);
    let first = acc.next_chunk().unwrap();
    let second = acc.next_chunk().unwrap();
    assert!(acc.next_chunk().is_none());
    assert_eq!(first[0], 0);
    assert_eq!(second[0], 1024);
    assert_eq!(second[1023], 2047);
    assert_eq!(acc.len(), 3000 - 2048);
}

#[test]
fn test_accumulator_other_chunk_sizes() {
    let mut acc = ChunkAccumulator::<u8>::new(3);
    acc.push(&[1, 2, 3, 4, 5, 6, 7]);
    assert_eq!(acc.next_chunk(), Some(vec![1, 2, 3]));
    assert_eq!(acc.next_chunk(), Some(vec![4, 5, 6]));
    assert_eq!(acc.next_chunk(), None);
    assert_eq!(acc.len(), 1);
    let mut one = ChunkAccumulator::<u8>::new(1);
    one.push(&[9]);
    assert_eq!(one.next_chunk(), Some(vec![9]));
    assert_eq!(one.next_chunk(), None);
}
