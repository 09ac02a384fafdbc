//! Per-string onset and release decisions.
//!
//! For every string the spectral front end measures the energy at the one
//! frequency the string can sound at, given the pedals, levers and bar. It
//! reports how that energy compares with the string's two thresholds. This
//! module turns those comparisons into the ringing state of the ten strings
//! and into attack flags, with hysteresis: a silent string starts ringing
//! when its energy rises above the onset threshold, and a ringing string
//! stops when its energy falls below the lower release threshold.
//!
//! ```text
//!      energy > onset
//! inactive ─────────────→ active     (attack on this transition only)
//!    ↑                       │
//!    │    energy < release   │
//!    └───────────────────────┘
//! ```

use crate::audio_buffer::AudioBuffer;
use crate::audio_buffer::ANALYSIS_INTERVAL;
use crate::audio_buffer::ANALYSIS_WINDOW;
use vstd::prelude::*;

verus! {

/// How one string's smoothed energy compares with its thresholds.
#[derive(Clone, Copy, Debug, PartialEq, Eq, Structural)]
pub enum StringLevel {
    /// The string's expected frequency is below the audible range or above
    /// the Nyquist frequency, so it was not measured.
    OutOfRange,
    /// The energy was measured and compared.
    Measured {
        /// The energy is strictly above the onset threshold.
        above_onset: bool,
        /// The energy is strictly below the release threshold.
        below_release: bool,
    },
}

/// What one analysis pass found.
#[derive(Clone, Copy, Debug)]
pub enum Observation {
    /// The bar position is unknown, so no frequency can be predicted.
    BarUnknown,
    /// The window is silent as a whole.
    Silence,
    /// Each string's level, by string index.
    Levels([StringLevel; 10]),
}

/// The hysteresis rule for one string: whether it rings after an analysis
/// that found `level`, given whether it rang before.
pub open spec fn next_active(was_active: bool, level: StringLevel) -> bool {
    match level {
        StringLevel::OutOfRange => false,
        StringLevel::Measured { above_onset, below_release } => if was_active {
            !below_release
        } else {
            above_onset
        },
    }
}

/// Whether string `i` rings after an analysis that observed `obs`. With the
/// bar unknown or the window silent, no string rings.
pub open spec fn observed_active(was_active: bool, obs: Observation, i: int) -> bool {
    match obs {
        Observation::BarUnknown => false,
        Observation::Silence => false,
        Observation::Levels(levels) => next_active(was_active, levels[i]),
    }
}

/// Whether string `i` rings after a run of analyses, one per element of
/// `run`, starting from `start`.
pub open spec fn active_after(start: bool, run: Seq<Observation>, i: int) -> bool
    decreases run.len(),
{
    if run.len() == 0 {
        start
    } else {
        observed_active(active_after(start, run.drop_last(), i), run.last(), i)
    }
}

/// Whether analysis number `k` of `run` (counting from 0) reports an attack
/// on string `i`: the string did not ring before it and rings after it.
pub open spec fn attack_at(start: bool, run: Seq<Observation>, i: int, k: int) -> bool {
    !active_after(start, run.take(k), i) && active_after(start, run.take(k + 1), i)
}

/// Whether `obs` lets a ringing string `i` go on ringing: the string was
/// measured and its energy is not below the release threshold.
pub open spec fn sustains(obs: Observation, i: int) -> bool {
    obs matches Observation::Levels(levels) && levels[i] matches StringLevel::Measured {
        below_release: false,
        ..
    }
}

/// Whether `obs` starts a silent string `i`: the string was measured and its
/// energy is above the onset threshold.
pub open spec fn excites(obs: Observation, i: int) -> bool {
    obs matches Observation::Levels(levels) && levels[i] matches StringLevel::Measured {
        above_onset: true,
        ..
    }
}

/// A steady note attacks once. If every analysis of a run finds string `i`
/// above its onset threshold and not below its release threshold, then,
/// starting from silence, the string rings after every analysis, the first
/// analysis reports an attack, and no later one does.
pub proof fn law_steady_note_attacks_once(run: Seq<Observation>, i: int)
    requires
        0 <= i < 10,
        forall|k: int| 0 <= k < run.len() ==> excites(#[trigger] run[k], i) && sustains(run[k], i),
    ensures
        forall|k: int| 1 <= k <= run.len() ==> active_after(false, #[trigger] run.take(k), i),
        run.len() >= 1 ==> attack_at(false, run, i, 0),
        forall|k: int| 1 <= k < run.len() ==> !#[trigger] attack_at(false, run, i, k),
{
    assert forall|k: int| 1 <= k <= run.len() implies active_after(
        false,
        #[trigger] run.take(k),
        i,
    ) by {
        lemma_steady_prefix(run, i, k);
    }
    if run.len() >= 1 {
        assert(run.take(0).len() == 0);
    }
}

proof fn lemma_steady_prefix(run: Seq<Observation>, i: int, k: int)
    requires
        0 <= i < 10,
        1 <= k <= run.len(),
        forall|j: int| 0 <= j < run.len() ==> excites(#[trigger] run[j], i) && sustains(run[j], i),
    ensures
        active_after(false, run.take(k), i),
    decreases k,
{
    let prefix = run.take(k);
    assert(prefix.last() == run[k - 1]);
    assert(prefix.drop_last() == run.take(k - 1));
    if k > 1 {
        lemma_steady_prefix(run, i, k - 1);
    }
}

/// A ringing string is not attacked again before it falls silent. If string
/// `i` rings before analysis `k` of a run and every analysis from `k` up to
/// but not including `m` sustains it, then it still rings before analysis
/// `m` and none of those analyses reports an attack on it.
pub proof fn law_no_attack_while_sustained(
    start: bool,
    run: Seq<Observation>,
    i: int,
    k: int,
    m: int,
)
    requires
        0 <= i < 10,
        0 <= k <= m <= run.len(),
        active_after(start, run.take(k), i),
        forall|j: int| k <= j < m ==> sustains(#[trigger] run[j], i),
    ensures
        active_after(start, run.take(m), i),
        forall|j: int| k <= j < m ==> !#[trigger] attack_at(start, run, i, j),
    decreases m - k,
{
    if k < m {
        law_no_attack_while_sustained(start, run, i, k, m - 1);
        let prefix = run.take(m);
        assert(prefix.last() == run[m - 1]);
        assert(prefix.drop_last() == run.take(m - 1));
    }
}

/// Ringing state of the ten strings, with the audio the spectral front end
/// analyses. `T` is the sample type.
pub struct StringDetector<T> {
    active: [bool; 10],
    audio: AudioBuffer<T>,
}

impl<T: Copy> StringDetector<T> {
    /// Which strings ring, by string index.
    pub closed spec fn active_flags(&self) -> [bool; 10] {
        self.active
    }

    /// The buffered audio and its analysis schedule.
    pub closed spec fn audio_state(&self) -> AudioBuffer<T> {
        self.audio
    }

    /// Whether an analysis is due.
    pub open spec fn is_ready(&self) -> bool {
        self.audio_state().is_ready()
    }

    /// Whether no string rings and no audio is buffered, on the given
    /// analysis schedule.
    pub open spec fn fresh(&self, window: nat, interval: nat) -> bool {
        &&& forall|i: int| 0 <= i < 10 ==> !#[trigger] self.active_flags()[i]
        &&& self.audio_state().fresh(window, interval)
    }

    /// Whether this detector is `before` after a call of `detect` with
    /// `obs`: a due analysis was started and applied to every string.
    pub open spec fn detected_from(&self, before: &Self, obs: Observation) -> bool {
        &&& self.audio_state().began_analysis_of(&before.audio_state())
        &&& forall|i: int|
            0 <= i < 10 ==> #[trigger] self.active_flags()[i] == if before.is_ready() {
                observed_active(before.active_flags()[i], obs, i)
            } else {
                before.active_flags()[i]
            }
    }

    /// A detector with no string ringing and no audio, analysing
    /// `ANALYSIS_WINDOW` samples every `ANALYSIS_INTERVAL` new samples.
    pub fn new() -> (d: Self)
        ensures
            d.fresh(ANALYSIS_WINDOW as nat, ANALYSIS_INTERVAL as nat),
    {
        StringDetector { active: [false;10], audio: AudioBuffer::new(ANALYSIS_WINDOW, ANALYSIS_INTERVAL) }
    }

    /// A detector with no string ringing and no audio, analysing `window`
    /// samples every `interval` new samples.
    pub fn with_schedule(window: usize, interval: usize) -> (d: Self)
        requires
            2 * window <= usize::MAX,
        ensures
            d.fresh(window as nat, interval as nat),
    {
        StringDetector { active: [false;10], audio: AudioBuffer::new(window, interval) }
    }

    /// Buffers a chunk of audio for later analysis.
    pub fn push_audio(&mut self, samples: &[T])
        requires
            old(self).audio_state().since_analysis() + samples@.len() <= usize::MAX,
        ensures
            final(self).audio_state().pushed_onto(&old(self).audio_state(), samples@),
            final(self).active_flags() == old(self).active_flags(),
    {
        self.audio.push(samples);
    }

    /// Whether enough audio has accumulated for the next analysis.
    pub fn ready(&self) -> (r: bool)
        ensures
            r == self.is_ready(),
    {
        self.audio.ready()
    }

    /// The samples the next analysis looks at.
    pub fn recent(&self) -> (r: &[T])
        ensures
            r@ == self.audio_state().recent_samples(),
    {
        self.audio.recent()
    }

    /// Which strings ring, by string index.
    pub fn active(&self) -> (a: [bool; 10])
        ensures
            a == self.active_flags(),
    {
        self.active
    }

    /// Number of samples pushed since the last analysis.
    pub fn samples_since_analysis(&self) -> (n: usize)
        ensures
            n == self.audio_state().since_analysis(),
    {
        self.audio.samples_since_analysis()
    }

    /// Applies one analysis, if one is due, and reports `(active, attacks)`.
    ///
    /// While no analysis is due the observation is ignored, the state stays
    /// as it is and no attack is reported. Otherwise the count of new samples
    /// restarts and every string follows the hysteresis rule. An attack is
    /// reported for exactly the strings that did not ring before the call and
    /// ring after it.
    pub fn detect(&mut self, observation: &Observation) -> (r: ([bool; 10], [bool; 10]))
        ensures
            final(self).detected_from(old(self), *observation),
            r.0 == final(self).active_flags(),
            forall|i: int|
                0 <= i < 10 ==> #[trigger] r.1[i] == (!old(self).active_flags()[i]
                    && final(self).active_flags()[i]),
    {
        let mut attacks: [bool; 10] = [false;10];
        if !self.audio.begin_analysis() {
            return (self.active, attacks);
        }
        match observation {
            Observation::BarUnknown => {
                self.active = [false;10];
            },
            Observation::Silence => {
                self.active = [false;10];
            },
            Observation::Levels(levels) => {
                let mut i: usize = 0;
                while i < 10
                    invariant
                        i <= 10,
                        self.audio_state().began_analysis_of(&old(self).audio_state()),
                        forall|k: int|
                            0 <= k < i ==> #[trigger] self.active[k] == next_active(
                                old(self).active[k],
                                levels[k],
                            ),
                        forall|k: int| i <= k < 10 ==> #[trigger] self.active[k] == old(self).active[k],
                        forall|k: int|
                            0 <= k < i ==> #[trigger] attacks[k] == (!old(self).active[k]
                                && self.active[k]),
                        forall|k: int| i <= k < 10 ==> !#[trigger] attacks[k],
                    decreases 10 - i,
                {
                    let was: bool = self.active[i];
                    let now: bool = match levels[i] {
                        StringLevel::OutOfRange => false,
                        StringLevel::Measured { above_onset, below_release } => if was {
                            !below_release
                        } else {
                            above_onset
                        },
                    };
                    self.active[i] = now;
                    attacks[i] = !was && now;
                    i = i + 1;
                }
            },
        }
        (self.active, attacks)
    }

    /// Forgets the ringing state and the buffered audio.
    pub fn reset(&mut self)
        ensures
            forall|i: int| 0 <= i < 10 ==> !#[trigger] final(self).active_flags()[i],
            final(self).audio_state().cleared_from(&old(self).audio_state()),
    {
        self.active = [false;10];
        self.audio.clear();
    }
}

} // verus!
