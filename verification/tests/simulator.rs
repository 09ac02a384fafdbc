use steel_capture::simulator::chord_fret;
use steel_capture::simulator::pick_next_chord;
use steel_capture::simulator::Rng;
use steel_capture::simulator::CHORD_COUNT;

fn reference_step(x: u64) -> u64 {
    let mut x = x;
    x ^= x << 13;
    x ^= x >> 7;
    x ^= x << 17;
    x
}

#[test]
fn test_rng_first_value() {
    let mut rng = Rng::new(1);
    assert_eq!(rng.next(), 0x4082_2041);
}

#[test]
fn test_rng_zero_seed_is_replaced() {
    let mut a = Rng::new(0);
    let mut b = Rng::new(1);
    for _ in 0..10 {
        assert_eq!(a.next(), b.next());
    }
}

#[test]
fn test_rng_follows_xorshift() {
    let mut rng = Rng::new(0xc0ffee);
    let mut x: u64 = 0xc0ffee;
    for _ in 0..1000 {
        x = reference_step(x);
        assert_eq!(rng.next(), x);
        assert_ne!(x, 0);
    }
}

#[test]
fn test_rng_range_is_inclusive() {
    let mut rng = Rng::new(7);
    let mut seen = [false; 6];
    for _ in 0..500 {
        let v = rng.range(8, 13);
        assert!((8..=13).contains(&v));
        seen[(v - 8) as usize] = true;
    }
    assert_eq!(seen, [true; 6]);
}

#[test]
fn test_rng_range_exact_value() {
    let mut rng = Rng::new(1);
    // 0x40822041 % 6 == 3
    assert_eq!(rng.range(10, 15), 10 + (0x4082_2041u64 % 6) as u32);
    let mut rng = Rng::new(1);
    assert_eq!(rng.range(5, 5), 5);
}

#[test]
fn test_rng_one_in() {
    let mut rng = Rng::new(1);
    assert_eq!(rng.one_in(3), 0x4082_2041u64 % 3 == 0);
    let mut rng = Rng::new(99);
    for _ in 0..20 {
        assert!(rng.one_in(1));
    }
    let mut rng = Rng::new(99);
    let hits = (0..6000).filter(|_| rng.one_in(6)).count();
    assert!(hits > 800 && hits < 1200, "about one in six, got {}", hits);
}

#[test]
fn test_chord_frets() {
    let frets: Vec<u8> = (0..CHORD_COUNT).map(chord_fret).collect();
    assert_eq!(frets, vec![0, 0, 0, 0, 0, 0, 5, 5, 5, 7, 7, 7, 7, 7, 9, 9, 9]);
}

#[test]
fn test_pick_next_chord_never_repeats() {
    let mut rng = Rng::new(0xc0ffee);
    let mut cur = 0usize;
    for _ in 0..2000 {
        let next = pick_next_chord(cur, &mut rng);
        assert!(next < CHORD_COUNT);
        assert_ne!(next, cur);
        cur = next;
    }
}

/// The chord into whose share `draw` falls, the shares laid side by side.
fn chord_for_draw(weights: &[u32; 17], draw: u32) -> usize {
    let mut acc = 0;
    for (i, w) in weights.iter().enumerate() {
        if draw < acc + w {
            return i;
        }
        acc += w;
    }
    unreachable!()
}

#[test]
fn test_pick_next_chord_exact() {
    // after chord 0 (fret 0): the five other chords at the nut weigh 3,
    // every chord further up is more than four frets away and weighs 1
    let weights = [0u32, 3, 3, 3, 3, 3, 1, 1, 1, 1, 1, 1, 1, 1, 1, 1, 1];
    let draw = (0x4082_2041u64 % 26) as u32;
    let mut rng = Rng::new(1);
    assert_eq!(pick_next_chord(0, &mut rng), chord_for_draw(&weights, draw));
    // exactly one draw was used
    assert_eq!(rng.next(), reference_step(0x4082_2041));
}

#[test]
fn test_pick_next_chord_exact_mid_neck() {
    // after chord 7 (fret 5): nut 5 away (1), same fret (3), frets 7 and 9
    // within four (2)
    let weights = [1u32, 1, 1, 1, 1, 1, 3, 0, 3, 2, 2, 2, 2, 2, 2, 2, 2];
    let total: u32 = weights.iter().sum();
    assert_eq!(total, 28);
    let mut seed = 3u64;
    for _ in 0..200 {
        let draw = (reference_step(seed) % 28) as u32;
        let mut rng = Rng::new(seed);
        assert_eq!(pick_next_chord(7, &mut rng), chord_for_draw(&weights, draw));
        seed = reference_step(seed);
    }
}

#[test]
fn test_pick_next_chord_prefers_near_frets() {
    let mut rng = Rng::new(42);
    let mut same = 0;
    let mut far = 0;
    for _ in 0..5000 {
        let next = pick_next_chord(15, &mut rng);
        if chord_fret(next) == 9 {
            same += 1;
        }
        if chord_fret(next) == 0 {
            far += 1;
        }
    }
    // after a chord at fret 9: two others there (weight 3 each), six at the nut (1 each)
    assert!(same > far / 2, "same fret {} vs far {}", same, far);
}
