//! Bounded buffer of recent audio with an analysis schedule.
//!
//! Audio arrives in small chunks, far more often than it is worth analysing.
//! The buffer keeps at most twice the analysis window, discarding the oldest
//! samples, and counts the samples that arrived since the last analysis. An
//! analysis is due once a full window is buffered and a full interval of new
//! samples has come in.

use vstd::prelude::*;

verus! {

/// Samples analysed at a time by default (about 85 ms at 48 kHz).
pub const ANALYSIS_WINDOW: usize = 4096;

/// New samples between two analyses by default (about 42 ms at 48 kHz).
pub const ANALYSIS_INTERVAL: usize = 2048;

/// The last `n` elements of `s`, or all of `s` if it is shorter.
pub open spec fn newest<T>(s: Seq<T>, n: nat) -> Seq<T> {
    if s.len() <= n {
        s
    } else {
        s.skip(s.len() - n)
    }
}

/// Recent samples of type `T` together with the analysis schedule.
pub struct AudioBuffer<T> {
    samples: Vec<T>,
    window: usize,
    interval: usize,
    since_analysis: usize,
}

impl<T> AudioBuffer<T> {
    /// The buffer never holds more than twice its window, and that bound is
    /// a machine-sized number.
    #[verifier::type_invariant]
    spec fn bounded(&self) -> bool {
        &&& 2 * self.window <= usize::MAX
        &&& self.samples@.len() <= 2 * self.window
    }
}

impl<T: Copy> AudioBuffer<T> {
    /// The buffered samples, oldest first.
    pub closed spec fn samples(&self) -> Seq<T> {
        self.samples@
    }

    /// Number of samples one analysis looks at.
    pub closed spec fn window(&self) -> nat {
        self.window as nat
    }

    /// Number of new samples that must arrive between two analyses.
    pub closed spec fn interval(&self) -> nat {
        self.interval as nat
    }

    /// Number of samples pushed since the last analysis.
    pub closed spec fn since_analysis(&self) -> nat {
        self.since_analysis as nat
    }

    /// Most samples the buffer holds after a push.
    pub open spec fn capacity(&self) -> nat {
        2 * self.window()
    }

    /// Whether an analysis is due.
    pub open spec fn is_ready(&self) -> bool {
        self.samples().len() >= self.window() && self.since_analysis() >= self.interval()
    }

    /// The samples an analysis looks at: the newest `window` of them.
    pub open spec fn recent_samples(&self) -> Seq<T> {
        newest(self.samples(), self.window())
    }

    /// Whether this buffer is empty, with nothing counted, on the given
    /// schedule.
    pub open spec fn fresh(&self, window: nat, interval: nat) -> bool {
        &&& self.samples() == Seq::<T>::empty()
        &&& self.window() == window
        &&& self.interval() == interval
        &&& self.since_analysis() == 0
    }

    /// Whether this buffer is `before` with an analysis started if one was
    /// due: the samples stay, the count of new samples restarts.
    pub open spec fn began_analysis_of(&self, before: &Self) -> bool {
        &&& self.samples() == before.samples()
        &&& self.window() == before.window()
        &&& self.interval() == before.interval()
        &&& self.since_analysis() == if before.is_ready() {
            0
        } else {
            before.since_analysis()
        }
    }

    /// Whether this buffer is `before` with `chunk` pushed.
    pub open spec fn pushed_onto(&self, before: &Self, chunk: Seq<T>) -> bool {
        &&& self.samples() == newest(before.samples() + chunk, before.capacity())
        &&& self.window() == before.window()
        &&& self.interval() == before.interval()
        &&& self.since_analysis() == before.since_analysis() + chunk.len()
    }

    /// Whether this buffer is `before` emptied.
    pub open spec fn cleared_from(&self, before: &Self) -> bool {
        &&& self.samples() == Seq::<T>::empty()
        &&& self.window() == before.window()
        &&& self.interval() == before.interval()
        &&& self.since_analysis() == 0
    }

    /// An empty buffer that analyses `window` samples every `interval` new
    /// samples.
    pub fn new(window: usize, interval: usize) -> (b: Self)
        requires
            2 * window <= usize::MAX,
        ensures
            b.fresh(window as nat, interval as nat),
    {
        AudioBuffer { samples: Vec::new(), window, interval, since_analysis: 0 }
    }

    /// Appends `chunk`, then discards the oldest samples beyond the capacity.
    pub fn push(&mut self, chunk: &[T])
        requires
            old(self).since_analysis() + chunk@.len() <= usize::MAX,
        ensures
            final(self).pushed_onto(old(self), chunk@),
            final(self).samples().len() <= final(self).capacity(),
    {
        proof {
            use_type_invariant(&*self);
        }
        let mut joined: Vec<T> = Vec::new();
        core::mem::swap(&mut joined, &mut self.samples);
        let mut i: usize = 0;
        while i < chunk.len()
            invariant
                i <= chunk@.len(),
                joined@ == old(self).samples@ + chunk@.take(i as int),
            decreases chunk@.len() - i,
        {
            let x: T = chunk[i];
            joined.push(x);
            proof {
                assert(chunk@.take(i + 1) == chunk@.take(i as int).push(x));
            }
            i = i + 1;
        }
        proof {
            assert(chunk@.take(chunk@.len() as int) == chunk@);
        }
        let max_len: usize = self.window * 2;
        if joined.len() > max_len {
            let excess: usize = joined.len() - max_len;
            let kept = joined.split_off(excess);
            joined = kept;
        }
        self.samples = joined;
        self.since_analysis = self.since_analysis + chunk.len();
    }

    /// Whether an analysis is due: a full window is buffered and a full
    /// interval of new samples has arrived.
    pub fn ready(&self) -> (r: bool)
        ensures
            r == self.is_ready(),
    {
        self.samples.len() >= self.window && self.since_analysis >= self.interval
    }

    /// The newest `window` samples (all of them while fewer are buffered).
    pub fn recent(&self) -> (r: &[T])
        ensures
            r@ == self.recent_samples(),
    {
        let len: usize = self.samples.len();
        let start: usize = if len > self.window {
            len - self.window
        } else {
            0
        };
        let r = &self.samples.as_slice()[start..len];
        proof {
            assert(r@ == self.samples@.subrange(start as int, len as int));
            assert(self.samples@.subrange(0, len as int) == self.samples@);
        }
        r
    }

    /// Starts an analysis if one is due, which restarts the count of new
    /// samples. Returns whether it did.
    pub fn begin_analysis(&mut self) -> (due: bool)
        ensures
            due == old(self).is_ready(),
            final(self).began_analysis_of(old(self)),
    {
        proof {
            use_type_invariant(&*self);
        }
        if self.ready() {
            self.since_analysis = 0;
            true
        } else {
            false
        }
    }

    /// Forgets all samples and restarts the schedule.
    pub fn clear(&mut self)
        ensures
            final(self).cleared_from(old(self)),
    {
        proof {
            use_type_invariant(&*self);
        }
        self.samples = Vec::new();
        self.since_analysis = 0;
    }

    /// Number of buffered samples.
    pub fn len(&self) -> (n: usize)
        ensures
            n == self.samples().len(),
    {
        self.samples.len()
    }

    /// Number of samples pushed since the last analysis.
    pub fn samples_since_analysis(&self) -> (n: usize)
        ensures
            n == self.since_analysis(),
    {
        self.since_analysis
    }
}

/// How the audio is cut into chunks does not matter: pushing two chunks one
/// after the other leaves the samples that pushing both at once leaves.
pub proof fn law_chunking_does_not_matter<T>(held: Seq<T>, first: Seq<T>, second: Seq<T>, cap: nat)
    ensures
        newest(newest(held + first, cap) + second, cap) == newest(held + first + second, cap),
{
    let once = held + first + second;
    let step = newest(held + first, cap) + second;
    if (held + first).len() <= cap {
        assert(step =~= once);
    } else {
        let cut = (held + first).len() - cap;
        assert(step =~= once.skip(cut));
        assert(step.len() == cap + second.len());
        if step.len() <= cap {
            assert(second.len() == 0);
            assert(newest(step, cap) =~= newest(once, cap));
        } else {
            assert(step.skip(step.len() - cap) =~= once.skip(once.len() - cap));
        }
    }
}

} // verus!
