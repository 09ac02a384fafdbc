//! Deterministic choices of the performance simulator: a small pseudo-random
//! generator and the weighted walk over the chord vocabulary.

use vstd::prelude::*;

verus! {

/// One step of the xorshift64 generator with shifts 13, 7 and 17.
pub open spec fn xorshift64(x: u64) -> u64 {
    let a = x ^ (x << 13);
    let b = a ^ (a >> 7);
    b ^ (b << 17)
}

/// Zero is the one state the generator cannot leave, and no other state
/// leads into it. That is why a zero seed is replaced.
pub proof fn law_only_zero_sticks(x: u64)
    ensures
        xorshift64(0) == 0,
        x != 0 ==> xorshift64(x) != 0,
{
    assert(xorshift64(0) == 0) by (bit_vector);
    let a = x ^ (x << 13);
    let b = a ^ (a >> 7);
    assert(x != 0 ==> (x ^ (x << 13)) != 0) by (bit_vector);
    assert(a != 0 ==> (a ^ (a >> 7)) != 0) by (bit_vector);
    assert(b != 0 ==> (b ^ (b << 17)) != 0) by (bit_vector);
}

/// Xorshift64 pseudo-random generator.
pub struct Rng {
    state: u64,
}

impl Rng {
    /// The generator's current state; also the value it returned last.
    pub closed spec fn state(&self) -> u64 {
        self.state
    }

    /// A generator seeded with `seed`; a zero seed, from which xorshift
    /// would never leave, is replaced by 1.
    pub fn new(seed: u64) -> (rng: Rng)
        ensures
            rng.state() == if seed == 0 {
                1
            } else {
                seed
            },
    {
        if seed == 0 {
            Rng { state: 1 }
        } else {
            Rng { state: seed }
        }
    }

    /// Advances the generator and returns its new state.
    pub fn next(&mut self) -> (value: u64)
        ensures
            value == xorshift64(old(self).state()),
            final(self).state() == value,
    {
        let mut x: u64 = self.state;
        x = x ^ (x << 13);
        x = x ^ (x >> 7);
        x = x ^ (x << 17);
        self.state = x;
        x
    }

    /// The next value reduced to `lo ..= hi`.
    pub fn range(&mut self, lo: u32, hi: u32) -> (value: u32)
        requires
            lo <= hi,
            hi - lo < u32::MAX,
        ensures
            final(self).state() == xorshift64(old(self).state()),
            value == lo + xorshift64(old(self).state()) % ((hi - lo + 1) as u64),
            lo <= value <= hi,
    {
        let span: u64 = (hi - lo + 1) as u64;
        let r: u64 = self.next() % span;
        lo + (r as u32)
    }

    /// Whether the next value is a multiple of `n`, which happens about
    /// once in `n` draws.
    pub fn one_in(&mut self, n: u64) -> (hit: bool)
        requires
            n > 0,
        ensures
            final(self).state() == xorshift64(old(self).state()),
            hit == (xorshift64(old(self).state()) % n == 0),
    {
        self.next() % n == 0
    }
}

/// Number of chords in the vocabulary.
pub const CHORD_COUNT: usize = 17;

/// The fret at which chord `i` of the vocabulary is played: six chords at
/// the nut, three at fret 5, five at fret 7, three at fret 9.
pub open spec fn chord_fret_spec(i: int) -> int {
    if i < 6 {
        0
    } else if i < 9 {
        5
    } else if i < 14 {
        7
    } else {
        9
    }
}

/// The fret at which chord `i` of the vocabulary is played.
pub fn chord_fret(i: usize) -> (fret: u8)
    requires
        i < CHORD_COUNT,
    ensures
        fret == chord_fret_spec(i as int),
{
    if i < 6 {
        0
    } else if i < 9 {
        5
    } else if i < 14 {
        7
    } else {
        9
    }
}

/// How strongly chord `i` is favoured after chord `cur`: never the same
/// chord again; 3 for a chord at the same fret, 2 within four frets, 1
/// beyond.
pub open spec fn chord_weight(cur: int, i: int) -> int {
    let d = if chord_fret_spec(i) >= chord_fret_spec(cur) {
        chord_fret_spec(i) - chord_fret_spec(cur)
    } else {
        chord_fret_spec(cur) - chord_fret_spec(i)
    };
    if i == cur {
        0
    } else if d == 0 {
        3
    } else if d <= 4 {
        2
    } else {
        1
    }
}

/// Sum of the weights of chords `0 .. n` after chord `cur`.
pub open spec fn weight_before(cur: int, n: int) -> int
    decreases n,
{
    if n <= 0 {
        0
    } else {
        weight_before(cur, n - 1) + chord_weight(cur, n - 1)
    }
}

/// Whether the draw `pick` falls into the share of chord `i`, the chords'
/// shares being laid side by side in order, each as wide as its weight.
pub open spec fn draws_chord(cur: int, pick: int, i: int) -> bool {
    0 <= i < CHORD_COUNT && weight_before(cur, i) <= pick < weight_before(cur, i + 1)
}

proof fn lemma_weights_bounded(cur: int, n: int)
    requires
        0 <= n,
    ensures
        0 <= weight_before(cur, n) <= 3 * n,
        n > cur >= 0 ==> weight_before(cur, n) >= n - 1,
        !(n > cur >= 0) ==> weight_before(cur, n) >= n,
    decreases n,
{
    if n > 0 {
        lemma_weights_bounded(cur, n - 1);
    }
}

/// Picks the chord to follow chord `cur`: one draw from `rng`, reduced
/// modulo the total weight, selects the chord into whose share it falls.
/// That is never `cur` itself.
pub fn pick_next_chord(cur: usize, rng: &mut Rng) -> (next: usize)
    requires
        cur < CHORD_COUNT,
    ensures
        final(rng).state() == xorshift64(old(rng).state()),
        draws_chord(
            cur as int,
            (xorshift64(old(rng).state()) % (weight_before(cur as int, 17) as u64)) as int,
            next as int,
        ),
        next != cur,
{
    let cur_fret: u8 = chord_fret(cur);
    let mut weights: [u32; 17] = [0u32;17];
    let mut total: u32 = 0;
    let mut i: usize = 0;
    while i < CHORD_COUNT
        invariant
            i <= CHORD_COUNT,
            cur < CHORD_COUNT,
            cur_fret == chord_fret_spec(cur as int),
            total == weight_before(cur as int, i as int),
            forall|k: int| 0 <= k < i ==> #[trigger] weights[k] == chord_weight(cur as int, k),
        decreases CHORD_COUNT - i,
    {
        let fret: u8 = chord_fret(i);
        let d: u8 = if fret >= cur_fret {
            fret - cur_fret
        } else {
            cur_fret - fret
        };
        let w: u32 = if i == cur {
            0
        } else if d == 0 {
            3
        } else if d <= 4 {
            2
        } else {
            1
        };
        proof {
            lemma_weights_bounded(cur as int, i as int);
        }
        weights[i] = w;
        total = total + w;
        i = i + 1;
    }
    proof {
        lemma_weights_bounded(cur as int, 17);
    }
    let draw: u64 = rng.next() % (total as u64);
    let mut pick: u32 = draw as u32;
    let mut k: usize = 0;
    while k < CHORD_COUNT
        invariant
            k <= CHORD_COUNT,
            cur < CHORD_COUNT,
            total == weight_before(cur as int, 17),
            draw < total,
            rng.state() == xorshift64(old(rng).state()),
            draw == xorshift64(old(rng).state()) % (total as u64),
            pick == draw - weight_before(cur as int, k as int),
            weight_before(cur as int, k as int) <= draw,
            forall|j: int| 0 <= j < 17 ==> #[trigger] weights[j] == chord_weight(cur as int, j),
        decreases CHORD_COUNT - k,
    {
        if pick < weights[k] {
            return k;
        }
        pick = pick - weights[k];
        k = k + 1;
    }
    0
}

} // verus!
