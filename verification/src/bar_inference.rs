//! Fusion of the two bar estimators.
//!
//! The Hall sensor array gives a coarse bar position that also works in
//! silence. Spectral matching against the audio gives a finer one, but only
//! while strings sound, and it can lock onto a harmonic alias an octave off.
//! This module decides which of the two to believe:
//!
//! | sensor | audio | within 2 frets | result                          |
//! |--------|-------|----------------|---------------------------------|
//! | yes    | yes   | yes            | blend both (`Fused`)            |
//! | yes    | yes   | no             | distrust audio (`Sensor`)       |
//! | yes    | no    |                | `Sensor`                        |
//! | no     | yes   |                | `Audio`                         |
//! | no     | no    |                | unknown                         |
//!
//! It also owns the audio buffer of the spectral estimator and keeps track
//! of whether the position smoother has a previous value to start from.

use crate::audio_buffer::AudioBuffer;
use crate::audio_buffer::ANALYSIS_INTERVAL;
use crate::audio_buffer::ANALYSIS_WINDOW;
use crate::types::BarSource;
use vstd::prelude::*;

verus! {

/// What the two estimators delivered for one sensor frame.
#[derive(Clone, Copy, Debug, PartialEq, Eq, Structural)]
pub struct BarEvidence {
    /// The Hall sensors see the bar.
    pub sensor: bool,
    /// Spectral matching produced an estimate.
    pub audio: bool,
    /// Both estimates exist and lie less than two frets apart.
    pub agree: bool,
}

/// The outcome of fusing one frame's evidence.
#[derive(Clone, Copy, Debug, PartialEq, Eq, Structural)]
pub struct Fusion {
    /// Which estimate, or blend, gives the bar position.
    pub source: BarSource,
    /// Whether the position continues a known one and is to be smoothed
    /// against it, rather than starting afresh.
    pub continues: bool,
}

/// The fusion rule.
pub open spec fn fuse_spec(sensor: bool, audio: bool, agree: bool) -> BarSource {
    if sensor && audio {
        if agree {
            BarSource::Fused
        } else {
            BarSource::Sensor
        }
    } else if sensor {
        BarSource::Sensor
    } else if audio {
        BarSource::Audio
    } else {
        BarSource::Unknown
    }
}

/// Chooses the source of the bar position from what the two estimators
/// delivered. `agree` matters only when both delivered.
pub fn fuse(sensor: bool, audio: bool, agree: bool) -> (source: BarSource)
    ensures
        source == fuse_spec(sensor, audio, agree),
{
    match (sensor, audio) {
        (true, true) => if agree {
            BarSource::Fused
        } else {
            BarSource::Sensor
        },
        (true, false) => BarSource::Sensor,
        (false, true) => BarSource::Audio,
        (false, false) => BarSource::Unknown,
    }
}

/// The sensors guard against harmonic aliases. While they see the bar, the
/// position is known and never comes from audio alone, and an audio estimate
/// that disagrees with them is set aside.
pub proof fn law_sensor_guards_fusion(audio: bool, agree: bool)
    ensures
        fuse_spec(true, audio, agree) != BarSource::Unknown,
        fuse_spec(true, audio, agree) != BarSource::Audio,
        !agree ==> fuse_spec(true, audio, agree) == BarSource::Sensor,
{
}

/// Fusion state: the spectral estimator's audio and whether a bar position
/// is being tracked. `T` is the sample type.
pub struct BarInference<T> {
    audio: AudioBuffer<T>,
    tracking: bool,
}

impl<T: Copy> BarInference<T> {
    /// The buffered audio and its analysis schedule.
    pub closed spec fn audio_state(&self) -> AudioBuffer<T> {
        self.audio
    }

    /// Whether the previous frame had a known bar position.
    pub closed spec fn is_tracking(&self) -> bool {
        self.tracking
    }

    /// Whether a spectral analysis is due.
    pub open spec fn is_ready(&self) -> bool {
        self.audio_state().is_ready()
    }

    /// The source that fusing `evidence` gives in this state. An audio
    /// estimate counts only when an analysis was due.
    pub open spec fn source_for(&self, evidence: BarEvidence) -> BarSource {
        fuse_spec(evidence.sensor, evidence.audio && self.is_ready(), evidence.agree)
    }

    /// Whether no bar is tracked and no audio is buffered, on the given
    /// analysis schedule.
    pub open spec fn fresh(&self, window: nat, interval: nat) -> bool {
        &&& !self.is_tracking()
        &&& self.audio_state().fresh(window, interval)
    }

    /// Whether this state is `before` after a call of `infer` with
    /// `evidence`: a due analysis was started, and a position is tracked
    /// exactly if the fused source is known.
    pub open spec fn inferred_from(&self, before: &Self, evidence: BarEvidence) -> bool {
        &&& self.is_tracking() == (before.source_for(evidence) != BarSource::Unknown)
        &&& self.audio_state().began_analysis_of(&before.audio_state())
    }

    /// Fusion state with no audio and no bar tracked, analysing
    /// `ANALYSIS_WINDOW` samples every `ANALYSIS_INTERVAL` new samples.
    pub fn new() -> (b: Self)
        ensures
            b.fresh(ANALYSIS_WINDOW as nat, ANALYSIS_INTERVAL as nat),
    {
        BarInference { audio: AudioBuffer::new(ANALYSIS_WINDOW, ANALYSIS_INTERVAL), tracking: false }
    }

    /// Fusion state with no audio and no bar tracked, analysing `window`
    /// samples every `interval` new samples.
    pub fn with_schedule(window: usize, interval: usize) -> (b: Self)
        requires
            2 * window <= usize::MAX,
        ensures
            b.fresh(window as nat, interval as nat),
    {
        BarInference { audio: AudioBuffer::new(window, interval), tracking: false }
    }

    /// Buffers a chunk of audio for later analysis.
    pub fn push_audio(&mut self, samples: &[T])
        requires
            old(self).audio_state().since_analysis() + samples@.len() <= usize::MAX,
        ensures
            final(self).audio_state().pushed_onto(&old(self).audio_state(), samples@),
            final(self).is_tracking() == old(self).is_tracking(),
    {
        self.audio.push(samples);
    }

    /// Whether enough audio has accumulated for the next spectral analysis.
    pub fn ready(&self) -> (r: bool)
        ensures
            r == self.is_ready(),
    {
        self.audio.ready()
    }

    /// The samples the next spectral analysis looks at.
    pub fn recent(&self) -> (r: &[T])
        ensures
            r@ == self.audio_state().recent_samples(),
    {
        self.audio.recent()
    }

    /// Whether the previous frame had a known bar position.
    pub fn tracking(&self) -> (t: bool)
        ensures
            t == self.is_tracking(),
    {
        self.tracking
    }

    /// Number of samples pushed since the last analysis.
    pub fn samples_since_analysis(&self) -> (n: usize)
        ensures
            n == self.audio_state().since_analysis(),
    {
        self.audio.samples_since_analysis()
    }

    /// The fusion that `infer` is about to report for `evidence`, without
    /// consuming anything. The measuring front end needs it ahead of time:
    /// the bar position decides what the strings are measured against.
    pub fn preview(&self, evidence: BarEvidence) -> (f: Fusion)
        ensures
            f.source == self.source_for(evidence),
            f.continues == (self.is_tracking() && f.source != BarSource::Unknown),
    {
        let source = fuse(evidence.sensor, evidence.audio && self.audio.ready(), evidence.agree);
        Fusion { source, continues: self.tracking && source.is_known() }
    }

    /// Fuses the evidence of one sensor frame.
    ///
    /// A due spectral analysis is consumed, whatever it found. The audio
    /// estimate counts only if an analysis was due. The result names the
    /// source and says whether the position continues the previous frame's.
    /// Afterwards a position is tracked exactly if the source is known.
    pub fn infer(&mut self, evidence: BarEvidence) -> (f: Fusion)
        ensures
            f.source == old(self).source_for(evidence),
            f.continues == (old(self).is_tracking() && f.source != BarSource::Unknown),
            final(self).inferred_from(old(self), evidence),
    {
        let analysed: bool = self.audio.begin_analysis();
        let source = fuse(evidence.sensor, evidence.audio && analysed, evidence.agree);
        let known: bool = source.is_known();
        let continues: bool = self.tracking && known;
        self.tracking = known;
        Fusion { source, continues }
    }
}

} // verus!
