//! Per-frame decisions of the capture pipeline.
//!
//! Audio chunks feed the buffers of the bar estimator and the string
//! detector. For every sensor frame the coordinator fuses the bar evidence,
//! lets the string detector apply the frame's spectral observation, settles
//! which strings count as ringing, and computes the attacks: new notes from
//! a pick, and notes re-voiced because a pedal or knee lever crossed its
//! half-way point under a ringing string.

use crate::audio_buffer::ANALYSIS_INTERVAL;
use crate::audio_buffer::ANALYSIS_WINDOW;
use crate::bar_inference::BarEvidence;
use crate::bar_inference::BarInference;
use crate::string_detector::Observation;
use crate::string_detector::StringDetector;
use crate::types::BarSource;
use vstd::prelude::*;

verus! {

/// Whether pedal `pedal` of the E9 reference setup re-pitches string
/// `string` (both counted from 0): A moves strings 5 and 10, B strings 3
/// and 6, C strings 4 and 5.
pub open spec fn e9_pedal_affects(pedal: int, string: int) -> bool {
    if pedal == 0 {
        string == 4 || string == 9
    } else if pedal == 1 {
        string == 2 || string == 5
    } else if pedal == 2 {
        string == 3 || string == 4
    } else {
        false
    }
}

/// Whether knee lever `lever` of the E9 reference setup re-pitches string
/// `string` (both counted from 0): LKL moves strings 4 and 8, LKR strings
/// 4, 5 and 8, LKV strings 5 and 10, RKL strings 2 and 6, RKR strings 2
/// and 9.
pub open spec fn e9_lever_affects(lever: int, string: int) -> bool {
    if lever == 0 {
        string == 3 || string == 7
    } else if lever == 1 {
        string == 3 || string == 4 || string == 7
    } else if lever == 2 {
        string == 4 || string == 9
    } else if lever == 3 {
        string == 1 || string == 5
    } else if lever == 4 {
        string == 1 || string == 8
    } else {
        false
    }
}

/// The strings each pedal of the E9 reference setup affects.
pub fn pedal_string_map() -> (map: [[bool; 10]; 3])
    ensures
        forall|j: int, i: int|
            0 <= j < 3 && 0 <= i < 10 ==> #[trigger] map[j][i] == e9_pedal_affects(j, i),
{
    [
        [false, false, false, false, true, false, false, false, false, true],
        [false, false, true, false, false, true, false, false, false, false],
        [false, false, false, true, true, false, false, false, false, false],
    ]
}

/// The strings each knee lever of the E9 reference setup affects.
pub fn lever_string_map() -> (map: [[bool; 10]; 5])
    ensures
        forall|j: int, i: int|
            0 <= j < 5 && 0 <= i < 10 ==> #[trigger] map[j][i] == e9_lever_affects(j, i),
{
    [
        [false, false, false, true, false, false, false, true, false, false],
        [false, false, false, true, true, false, false, true, false, false],
        [false, false, false, false, true, false, false, false, false, true],
        [false, true, false, false, false, true, false, false, false, false],
        [false, true, false, false, false, false, false, false, true, false],
    ]
}

/// One row of an affect map from the list of string indices on which a
/// control has a non-zero pitch change. Indices that name no string are
/// ignored.
pub fn affect_row(strings: &[usize]) -> (row: [bool; 10])
    ensures
        forall|i: int| 0 <= i < 10 ==> #[trigger] row[i] == strings@.contains(i as usize),
{
    let mut row: [bool; 10] = [false;10];
    let mut k: usize = 0;
    while k < strings.len()
        invariant
            k <= strings@.len(),
            forall|i: int|
                0 <= i < 10 ==> #[trigger] row[i] == strings@.take(k as int).contains(i as usize),
        decreases strings@.len() - k,
    {
        let s: usize = strings[k];
        let ghost before = row;
        if s < 10 {
            row[s] = true;
        }
        proof {
            let head = strings@.take(k as int);
            let next = strings@.take(k + 1);
            assert(next == head.push(s));
            assert forall|i: int| 0 <= i < 10 implies #[trigger] row[i] == next.contains(
                i as usize,
            ) by {
                if head.contains(i as usize) {
                    let w = choose|w: int| 0 <= w < head.len() && head[w] == i as usize;
                    assert(next[w] == i as usize);
                } else if i as usize == s {
                    assert(next[k as int] == s);
                } else {
                    assert(before[i] == false);
                    if next.contains(i as usize) {
                        let w = choose|w: int| 0 <= w < next.len() && next[w] == i as usize;
                        if w < k {
                            assert(head[w] == i as usize);
                        }
                    }
                }
            }
        }
        k = k + 1;
    }
    proof {
        assert(strings@.take(strings@.len() as int) == strings@);
    }
    row
}

/// Whether control `j` is engaged in exactly one of two frames.
pub open spec fn crossed(prev: Seq<bool>, now: Seq<bool>, j: int) -> bool {
    prev[j] != now[j]
}

/// Whether one of the first `upto` controls crossed between two frames and
/// affects string `i`.
pub open spec fn revoiced(
    prev: Seq<bool>,
    now: Seq<bool>,
    map: Seq<[bool; 10]>,
    upto: int,
    i: int,
) -> bool {
    exists|j: int| 0 <= j < upto && #[trigger] crossed(prev, now, j) && map[j][i]
}

/// Marks an attack on every ringing string that a crossed control affects.
fn mark_crossings<const N: usize>(
    attacks: &mut [bool; 10],
    active: &[bool; 10],
    prev: &[bool; N],
    now: &[bool; N],
    map: &[[bool; 10]; N],
)
    ensures
        forall|i: int|
            0 <= i < 10 ==> #[trigger] final(attacks)[i] == (old(attacks)[i] || (active[i]
                && revoiced(prev@, now@, map@, N as int, i))),
{
    let mut j: usize = 0;
    while j < N
        invariant
            j <= N,
            forall|i: int|
                0 <= i < 10 ==> #[trigger] attacks[i] == (old(attacks)[i] || (active[i] && revoiced(
                    prev@,
                    now@,
                    map@,
                    j as int,
                    i,
                ))),
        decreases N - j,
    {
        let ghost at_j = *attacks;
        if prev[j] != now[j] {
            let mut i: usize = 0;
            while i < 10
                invariant
                    i <= 10,
                    j < N,
                    forall|k: int|
                        0 <= k < i ==> #[trigger] attacks[k] == (at_j[k] || (active[k]
                            && map[j as int][k])),
                    forall|k: int| i <= k < 10 ==> #[trigger] attacks[k] == at_j[k],
                decreases 10 - i,
            {
                if active[i] && map[j][i] {
                    attacks[i] = true;
                }
                i = i + 1;
            }
        }
        proof {
            assert forall|i: int| 0 <= i < 10 implies #[trigger] attacks[i] == (old(attacks)[i]
                || (active[i] && revoiced(prev@, now@, map@, j + 1, i))) by {
                if revoiced(prev@, now@, map@, j + 1, i) {
                    let w = choose|w: int|
                        0 <= w < j + 1 && #[trigger] crossed(prev@, now@, w) && map@[w][i];
                    if w < j {
                        assert(revoiced(prev@, now@, map@, j as int, i));
                    }
                }
                if revoiced(prev@, now@, map@, j as int, i) {
                    let w = choose|w: int|
                        0 <= w < j && #[trigger] crossed(prev@, now@, w) && map@[w][i];
                    assert(0 <= w < j + 1 && crossed(prev@, now@, w) && map@[w][i]);
                }
                if crossed(prev@, now@, j as int) && map@[j as int][i] {
                    assert(revoiced(prev@, now@, map@, j + 1, i));
                }
            }
        }
        j = j + 1;
    }
}

/// What the measuring front end reports for one sensor frame.
#[derive(Clone, Copy, Debug)]
pub struct SensorEvent {
    /// Which strings ring according to the sensor source itself (the
    /// simulator knows; real hardware reports all false).
    pub string_active: [bool; 10],
    /// Which pedals are more than half engaged.
    pub pedal_engaged: [bool; 3],
    /// Which knee levers are more than half engaged.
    pub lever_engaged: [bool; 5],
    /// What the two bar estimators delivered.
    pub bar: BarEvidence,
    /// What the spectral analysis of the strings found, given a known bar.
    pub strings: Observation,
}

/// The decisions taken for one sensor frame.
#[derive(Clone, Copy, Debug)]
pub struct FrameFlags {
    /// Which estimate gives the bar position.
    pub bar_source: BarSource,
    /// Whether the bar position is to be smoothed against the previous one.
    pub bar_continues: bool,
    /// Which strings count as ringing.
    pub string_active: [bool; 10],
    /// Which strings start a new note in this frame.
    pub attacks: [bool; 10],
}

/// The observation the string detector is given: without a bar position
/// there is nothing to measure, whatever the front end reported.
pub open spec fn effective_observation(source: BarSource, strings: Observation) -> Observation {
    if source == BarSource::Unknown {
        Observation::BarUnknown
    } else {
        strings
    }
}

/// The attack of a string before control crossings are considered. With
/// audio detection it is the detector's onset; otherwise it is the rising
/// edge of the sensor source's own flag.
pub open spec fn pick_attack(
    use_audio_detection: bool,
    onset: bool,
    sensed: bool,
    sensed_before: bool,
) -> bool {
    if use_audio_detection {
        onset
    } else {
        sensed && !sensed_before
    }
}

/// Decision state of the pipeline. `T` is the audio sample type.
pub struct Coordinator<T> {
    use_audio_detection: bool,
    prev_active: [bool; 10],
    prev_pedal_engaged: [bool; 3],
    prev_lever_engaged: [bool; 5],
    pedal_strings: [[bool; 10]; 3],
    lever_strings: [[bool; 10]; 5],
    inference: BarInference<T>,
    string_detector: StringDetector<T>,
}

impl<T: Copy> Coordinator<T> {
    /// Whether the ringing strings are taken from audio detection rather
    /// than from the sensor source's own flags.
    pub closed spec fn uses_audio_detection(&self) -> bool {
        self.use_audio_detection
    }

    /// The strings that counted as ringing in the previous frame.
    pub closed spec fn prev_active(&self) -> [bool; 10] {
        self.prev_active
    }

    /// The pedals that were engaged in the previous frame.
    pub closed spec fn prev_pedals(&self) -> [bool; 3] {
        self.prev_pedal_engaged
    }

    /// The knee levers that were engaged in the previous frame.
    pub closed spec fn prev_levers(&self) -> [bool; 5] {
        self.prev_lever_engaged
    }

    /// The strings each pedal affects.
    pub closed spec fn pedal_map(&self) -> [[bool; 10]; 3] {
        self.pedal_strings
    }

    /// The strings each knee lever affects.
    pub closed spec fn lever_map(&self) -> [[bool; 10]; 5] {
        self.lever_strings
    }

    /// The bar fusion state.
    pub closed spec fn inference_state(&self) -> BarInference<T> {
        self.inference
    }

    /// The string detector.
    pub closed spec fn detector_state(&self) -> StringDetector<T> {
        self.string_detector
    }

    /// Whether string `i` is re-voiced by `event`: a pedal or knee lever
    /// that affects it is engaged in exactly one of the previous frame and
    /// this one.
    pub open spec fn revoices(&self, event: SensorEvent, i: int) -> bool {
        ||| revoiced(self.prev_pedals()@, event.pedal_engaged@, self.pedal_map()@, 3, i)
        ||| revoiced(self.prev_levers()@, event.lever_engaged@, self.lever_map()@, 5, i)
    }

    /// Whether string `i` counts as ringing in the frame of `event`, where
    /// `detected` is the detector's verdict after the frame's analysis.
    pub open spec fn rings(&self, event: SensorEvent, detected: bool, i: int) -> bool {
        if self.uses_audio_detection() {
            detected
        } else {
            event.string_active[i]
        }
    }

    /// Whether string `i` is attacked in the frame of `event`, where
    /// `detected_before` and `detected` are the detector's verdicts before
    /// and after the frame's analysis: the string is picked, or it rings
    /// and is re-voiced.
    pub open spec fn attacked(
        &self,
        event: SensorEvent,
        detected_before: bool,
        detected: bool,
        i: int,
    ) -> bool {
        ||| pick_attack(
            self.uses_audio_detection(),
            !detected_before && detected,
            event.string_active[i],
            self.prev_active()[i],
        )
        ||| (self.rings(event, detected, i) && self.revoices(event, i))
    }

    /// Whether this state is `before` after the sensor frame `event`, for
    /// which `flags` was decided.
    pub open spec fn stepped_from(&self, before: &Self, event: SensorEvent, flags: FrameFlags) -> bool {
        &&& self.uses_audio_detection() == before.uses_audio_detection()
        &&& self.pedal_map() == before.pedal_map()
        &&& self.lever_map() == before.lever_map()
        &&& self.inference_state().inferred_from(&before.inference_state(), event.bar)
        &&& self.detector_state().detected_from(
            &before.detector_state(),
            effective_observation(flags.bar_source, event.strings),
        )
        &&& self.prev_active() == flags.string_active
        &&& self.prev_pedals() == event.pedal_engaged
        &&& self.prev_levers() == event.lever_engaged
    }

    /// A coordinator at the start of a session: nothing rang, no control
    /// was engaged, no audio is buffered, and the sensor source's own flags
    /// decide which strings ring.
    pub fn new(pedal_strings: [[bool; 10]; 3], lever_strings: [[bool; 10]; 5]) -> (c: Self)
        ensures
            !c.uses_audio_detection(),
            c.pedal_map() == pedal_strings,
            c.lever_map() == lever_strings,
            forall|i: int| 0 <= i < 10 ==> !#[trigger] c.prev_active()[i],
            forall|j: int| 0 <= j < 3 ==> !#[trigger] c.prev_pedals()[j],
            forall|j: int| 0 <= j < 5 ==> !#[trigger] c.prev_levers()[j],
            c.inference_state().fresh(ANALYSIS_WINDOW as nat, ANALYSIS_INTERVAL as nat),
            c.detector_state().fresh(ANALYSIS_WINDOW as nat, ANALYSIS_INTERVAL as nat),
    {
        Coordinator {
            use_audio_detection: false,
            prev_active: [false;10],
            prev_pedal_engaged: [false;3],
            prev_lever_engaged: [false;5],
            pedal_strings,
            lever_strings,
            inference: BarInference::new(),
            string_detector: StringDetector::new(),
        }
    }

    /// Chooses where the ringing strings come from: audio detection
    /// (`true`, for real hardware) or the sensor source's own flags.
    pub fn with_audio_detection(self, enabled: bool) -> (c: Self)
        ensures
            c.uses_audio_detection() == enabled,
            c.pedal_map() == self.pedal_map(),
            c.lever_map() == self.lever_map(),
            c.prev_active() == self.prev_active(),
            c.prev_pedals() == self.prev_pedals(),
            c.prev_levers() == self.prev_levers(),
            c.inference_state() == self.inference_state(),
            c.detector_state() == self.detector_state(),
    {
        let mut c = self;
        c.use_audio_detection = enabled;
        c
    }

    /// Whether the ringing strings are taken from audio detection.
    pub fn use_audio_detection(&self) -> (on: bool)
        ensures
            on == self.uses_audio_detection(),
    {
        self.use_audio_detection
    }

    /// The bar fusion state, for reading.
    pub fn inference(&self) -> (b: &BarInference<T>)
        ensures
            *b == self.inference_state(),
    {
        &self.inference
    }

    /// The string detector, for reading.
    pub fn string_detector(&self) -> (d: &StringDetector<T>)
        ensures
            *d == self.detector_state(),
    {
        &self.string_detector
    }

    /// Takes in one chunk of audio: it is buffered for both the bar
    /// estimator and the string detector; nothing else changes.
    pub fn on_audio(&mut self, samples: &[T])
        requires
            old(self).inference_state().audio_state().since_analysis() + samples@.len()
                <= usize::MAX,
            old(self).detector_state().audio_state().since_analysis() + samples@.len()
                <= usize::MAX,
        ensures
            final(self).inference_state().audio_state().pushed_onto(
                &old(self).inference_state().audio_state(),
                samples@,
            ),
            final(self).inference_state().is_tracking() == old(self).inference_state().is_tracking(),
            final(self).detector_state().audio_state().pushed_onto(
                &old(self).detector_state().audio_state(),
                samples@,
            ),
            final(self).detector_state().active_flags() == old(
                self,
            ).detector_state().active_flags(),
            final(self).uses_audio_detection() == old(self).uses_audio_detection(),
            final(self).pedal_map() == old(self).pedal_map(),
            final(self).lever_map() == old(self).lever_map(),
            final(self).prev_active() == old(self).prev_active(),
            final(self).prev_pedals() == old(self).prev_pedals(),
            final(self).prev_levers() == old(self).prev_levers(),
    {
        self.inference.push_audio(samples);
        self.string_detector.push_audio(samples);
    }

    /// Decides one sensor frame.
    ///
    /// The bar evidence is fused. The string detector applies the spectral
    /// observation, or notes that the bar is unknown. The ringing strings
    /// are the detector's under audio detection and the sensor source's own
    /// otherwise. A string is attacked if it is picked, or if it rings and
    /// a pedal or knee lever that affects it crossed its half-way point
    /// since the previous frame. An attacked string always rings.
    pub fn on_sensor(&mut self, event: &SensorEvent) -> (flags: FrameFlags)
        ensures
            flags.bar_source == old(self).inference_state().source_for(event.bar),
            flags.bar_continues == (old(self).inference_state().is_tracking() && flags.bar_source
                != BarSource::Unknown),
            final(self).stepped_from(old(self), *event, flags),
            forall|i: int|
                0 <= i < 10 ==> #[trigger] flags.string_active[i] == old(self).rings(
                    *event,
                    final(self).detector_state().active_flags()[i],
                    i,
                ),
            forall|i: int|
                0 <= i < 10 ==> #[trigger] flags.attacks[i] == old(self).attacked(
                    *event,
                    old(self).detector_state().active_flags()[i],
                    final(self).detector_state().active_flags()[i],
                    i,
                ),
            forall|i: int| 0 <= i < 10 ==> (#[trigger] flags.attacks[i] ==> flags.string_active[i]),
    {
        let fusion = self.inference.infer(event.bar);
        let observation = if fusion.source.is_known() {
            event.strings
        } else {
            Observation::BarUnknown
        };
        let (detected, onsets) = self.string_detector.detect(&observation);
        let string_active: [bool; 10] = if self.use_audio_detection {
            detected
        } else {
            event.string_active
        };
        let mut attacks: [bool; 10] = [false;10];
        if self.use_audio_detection {
            attacks = onsets;
        } else {
            let mut i: usize = 0;
            while i < 10
                invariant
                    i <= 10,
                    forall|k: int|
                        0 <= k < i ==> #[trigger] attacks[k] == (string_active[k]
                            && !self.prev_active[k]),
                    forall|k: int| i <= k < 10 ==> !#[trigger] attacks[k],
                decreases 10 - i,
            {
                if string_active[i] && !self.prev_active[i] {
                    attacks[i] = true;
                }
                i = i + 1;
            }
        }
        mark_crossings(
            &mut attacks,
            &string_active,
            &self.prev_pedal_engaged,
            &event.pedal_engaged,
            &self.pedal_strings,
        );
        mark_crossings(
            &mut attacks,
            &string_active,
            &self.prev_lever_engaged,
            &event.lever_engaged,
            &self.lever_strings,
        );
        self.prev_pedal_engaged = event.pedal_engaged;
        self.prev_lever_engaged = event.lever_engaged;
        self.prev_active = string_active;
        FrameFlags {
            bar_source: fusion.source,
            bar_continues: fusion.continues,
            string_active,
            attacks,
        }
    }

    /// A crossing attacks what it re-voices: when pedal `j` is engaged in
    /// exactly one of the previous frame and this one, every string that
    /// rings in this frame and that the pedal affects is attacked.
    pub proof fn law_pedal_crossing_attacks(
        &self,
        event: SensorEvent,
        j: int,
        detected_before: bool,
        detected: bool,
        i: int,
    )
        requires
            0 <= j < 3,
            0 <= i < 10,
            self.prev_pedals()[j] != event.pedal_engaged[j],
            self.pedal_map()[j][i],
            self.rings(event, detected, i),
        ensures
            self.attacked(event, detected_before, detected, i),
    {
        assert(crossed(self.prev_pedals()@, event.pedal_engaged@, j));
    }

    /// A crossing attacks what it re-voices: when knee lever `j` is engaged
    /// in exactly one of the previous frame and this one, every string that
    /// rings in this frame and that the lever affects is attacked.
    pub proof fn law_lever_crossing_attacks(
        &self,
        event: SensorEvent,
        j: int,
        detected_before: bool,
        detected: bool,
        i: int,
    )
        requires
            0 <= j < 5,
            0 <= i < 10,
            self.prev_levers()[j] != event.lever_engaged[j],
            self.lever_map()[j][i],
            self.rings(event, detected, i),
        ensures
            self.attacked(event, detected_before, detected, i),
    {
        assert(crossed(self.prev_levers()@, event.lever_engaged@, j));
    }

    /// A crossing attacks nothing else: in a frame in which string `i` is
    /// not picked, the string is attacked only if it rings and some pedal or
    /// knee lever that affects it crossed.
    pub proof fn law_attack_without_pick_is_crossing(
        &self,
        event: SensorEvent,
        detected_before: bool,
        detected: bool,
        i: int,
    )
        requires
            0 <= i < 10,
            self.attacked(event, detected_before, detected, i),
            !pick_attack(
                self.uses_audio_detection(),
                !detected_before && detected,
                event.string_active[i],
                self.prev_active()[i],
            ),
        ensures
            self.rings(event, detected, i),
            (exists|j: int|
                0 <= j < 3 && self.prev_pedals()[j] != event.pedal_engaged[j]
                    && #[trigger] self.pedal_map()[j][i]) || (exists|j: int|
                0 <= j < 5 && self.prev_levers()[j] != event.lever_engaged[j]
                    && #[trigger] self.lever_map()[j][i]),
    {
        if revoiced(self.prev_pedals()@, event.pedal_engaged@, self.pedal_map()@, 3, i) {
            let j = choose|j: int|
                0 <= j < 3 && #[trigger] crossed(self.prev_pedals()@, event.pedal_engaged@, j)
                    && self.pedal_map()@[j][i];
            assert(self.prev_pedals()[j] != event.pedal_engaged[j] && self.pedal_map()[j][i]);
        } else {
            let j = choose|j: int|
                0 <= j < 5 && #[trigger] crossed(self.prev_levers()@, event.lever_engaged@, j)
                    && self.lever_map()@[j][i];
            assert(self.prev_levers()[j] != event.lever_engaged[j] && self.lever_map()[j][i]);
        }
    }

    /// An attacked string rings, in every frame and in either mode.
    pub proof fn law_attack_implies_active(
        &self,
        event: SensorEvent,
        detected_before: bool,
        detected: bool,
        i: int,
    )
        requires
            0 <= i < 10,
            self.attacked(event, detected_before, detected, i),
        ensures
            self.rings(event, detected, i),
    {
    }
}

} // verus!
