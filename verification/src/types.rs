//! Shared vocabulary: how a bar position was obtained, the fixed geometry
//! of the instrument, and the session clock.

use std::time::Duration;
use std::time::Instant;
use vstd::prelude::*;

verus! {

/// Number of strings.
pub const NUM_STRINGS: usize = 10;

/// Number of floor pedals (A, B, C).
pub const NUM_PEDALS: usize = 3;

/// Number of knee levers (LKL, LKR, LKV, RKL, RKR).
pub const NUM_LEVERS: usize = 5;

/// How the bar position of a frame was determined.
#[derive(Clone, Copy, Debug, PartialEq, Eq, Structural)]
pub enum BarSource {
    /// No bar detected; written `None` on the wire.
    Unknown,
    /// Hall sensor array only.
    Sensor,
    /// Audio pitch matching only.
    Audio,
    /// Sensor and audio blended.
    Fused,
}

impl BarSource {
    /// The number that stands for this source on numeric channels:
    /// 0 none, 1 sensor, 2 audio, 3 fused.
    pub open spec fn spec_code(self) -> u8 {
        match self {
            BarSource::Unknown => 0,
            BarSource::Sensor => 1,
            BarSource::Audio => 2,
            BarSource::Fused => 3,
        }
    }

    /// The number that stands for this source on numeric channels.
    pub fn code(self) -> (c: u8)
        ensures
            c == self.spec_code(),
    {
        match self {
            BarSource::Unknown => 0,
            BarSource::Sensor => 1,
            BarSource::Audio => 2,
            BarSource::Fused => 3,
        }
    }

    /// Whether this source carries a bar position at all.
    pub fn is_known(self) -> (k: bool)
        ensures
            k == (self != BarSource::Unknown),
    {
        !matches!(self, BarSource::Unknown)
    }
}

#[verifier::external_type_specification]
#[verifier::external_body]
pub struct ExInstant(Instant);

/// `Instant::now`: the current reading of the monotonic clock. Nothing is
/// claimed of it.
#[verifier::external_body]
fn instant_now() -> Instant {
    Instant::now()
}

/// `Instant::elapsed`: the time since `start` on the monotonic clock.
/// Nothing is claimed of it.
#[verifier::external_body]
fn instant_elapsed(start: &Instant) -> Duration {
    start.elapsed()
}

/// `Duration::as_micros`: the whole microseconds in `d`. Nothing is claimed
/// of it.
#[verifier::external_body]
fn duration_as_micros(d: &Duration) -> u128 {
    d.as_micros()
}

/// Monotonic clock for one capture session.
pub struct SessionClock {
    start: Instant,
}

impl SessionClock {
    /// A clock that starts counting now.
    pub fn new() -> SessionClock {
        SessionClock { start: instant_now() }
    }

    /// The time since the clock was created, as `timestamp_from_micros` makes it a timestamp.
    pub fn now_us(&self) -> u64 {
        let elapsed: Duration = instant_elapsed(&self.start);
        let micros: u128 = duration_as_micros(&elapsed);
        timestamp_from_micros(micros)
    }
}

/// The timestamp that stands for an elapsed time of `micros` microseconds:
/// the count itself while it fits 64 bits, which it does for more than half
/// a million years, and the count reduced modulo 2^64 beyond.
pub open spec fn timestamp_of(micros: u128) -> u64 {
    (micros % 0x1_0000_0000_0000_0000) as u64
}

/// The timestamp that stands for an elapsed time of `micros` microseconds.
pub fn timestamp_from_micros(micros: u128) -> (t: u64)
    ensures
        t == timestamp_of(micros),
        micros <= u64::MAX ==> t == micros,
{
    let low: u128 = micros & 0xFFFF_FFFF_FFFF_FFFF;
    assert(low == micros % 0x1_0000_0000_0000_0000) by (bit_vector)
        requires
            low == micros & 0xFFFF_FFFF_FFFF_FFFF,
    ;
    low as u64
}

impl Clone for SessionClock {
    /// A second handle on the same clock: both count from the same start.
    fn clone(&self) -> (c: SessionClock)
        ensures
            c == *self,
    {
        SessionClock { start: self.start }
    }
}

impl Default for SessionClock {
    fn default() -> SessionClock {
        SessionClock::new()
    }
}

} // verus!
