//! The OSC address space of a frame.
//!
//! Every frame goes out as 26 messages of one number each, always in the
//! same order: the three pedals, the five knee levers, the volume, the bar's
//! position, confidence and source, the four bar sensors, and the ten string
//! pitches.

use crate::text::string_push;
use crate::types::NUM_LEVERS;
use crate::types::NUM_PEDALS;
use crate::types::NUM_STRINGS;
use vstd::prelude::*;
use vstd::string::StringExecFns;

verus! {

/// Number of bar sensors.
pub const NUM_BAR_SENSORS: usize = 4;

/// Number of messages per frame.
pub const MESSAGES_PER_FRAME: usize = 26;

/// One value of a frame that is sent as a message of its own.
#[derive(Clone, Copy, Debug, PartialEq, Eq, Structural)]
pub enum OscChannel {
    /// Engagement of a pedal, 0 = A.
    Pedal(usize),
    /// Engagement of a knee lever, 0 = LKL.
    Knee(usize),
    /// Position of the volume pedal.
    Volume,
    /// Bar position in frets; −1 when unknown.
    BarPosition,
    /// Confidence in the bar position.
    BarConfidence,
    /// Code of the bar position's source.
    BarSource,
    /// Reading of a bar sensor.
    BarSensor(usize),
    /// Pitch of a string in Hz, 0 = string 1.
    Pitch(usize),
}

impl OscChannel {
    /// Whether the channel exists: its index is within the instrument.
    pub open spec fn valid(self) -> bool {
        match self {
            OscChannel::Pedal(i) => i < NUM_PEDALS,
            OscChannel::Knee(i) => i < NUM_LEVERS,
            OscChannel::BarSensor(i) => i < NUM_BAR_SENSORS,
            OscChannel::Pitch(i) => i < NUM_STRINGS,
            _ => true,
        }
    }

    /// The address of the channel: pedals are lettered `a` to `c`, all
    /// other indexed channels numbered from 0.
    pub open spec fn address_spec(self) -> Seq<char> {
        match self {
            OscChannel::Pedal(i) => "/steel/pedal/"@.push(((0x61 + i) as u8) as char),
            OscChannel::Knee(i) => "/steel/knee/"@.push(((0x30 + i) as u8) as char),
            OscChannel::Volume => "/steel/volume"@,
            OscChannel::BarPosition => "/steel/bar/pos"@,
            OscChannel::BarConfidence => "/steel/bar/confidence"@,
            OscChannel::BarSource => "/steel/bar/source"@,
            OscChannel::BarSensor(i) => "/steel/bar/sensor/"@.push(((0x30 + i) as u8) as char),
            OscChannel::Pitch(i) => "/steel/pitch/"@.push(((0x30 + i) as u8) as char),
        }
    }

    /// The address of the channel.
    pub fn address(self) -> (text: String)
        requires
            self.valid(),
        ensures
            text@ == self.address_spec(),
    {
        match self {
            OscChannel::Pedal(i) => indexed("/steel/pedal/", 0x61, i),
            OscChannel::Knee(i) => indexed("/steel/knee/", 0x30, i),
            OscChannel::Volume => String::from_str("/steel/volume"),
            OscChannel::BarPosition => String::from_str("/steel/bar/pos"),
            OscChannel::BarConfidence => String::from_str("/steel/bar/confidence"),
            OscChannel::BarSource => String::from_str("/steel/bar/source"),
            OscChannel::BarSensor(i) => indexed("/steel/bar/sensor/", 0x30, i),
            OscChannel::Pitch(i) => indexed("/steel/pitch/", 0x30, i),
        }
    }
}

fn indexed(prefix: &str, first: u8, i: usize) -> (text: String)
    requires
        i < 10,
        first <= 0x61,
    ensures
        text@ == prefix@.push(((first + i) as u8) as char),
{
    let mut text = String::from_str(prefix);
    string_push(&mut text, (first + i as u8) as char);
    text
}

/// The channel sent as message number `k` of a frame.
pub open spec fn channel_at(k: int) -> OscChannel {
    if k < 3 {
        OscChannel::Pedal(k as usize)
    } else if k < 8 {
        OscChannel::Knee((k - 3) as usize)
    } else if k == 8 {
        OscChannel::Volume
    } else if k == 9 {
        OscChannel::BarPosition
    } else if k == 10 {
        OscChannel::BarConfidence
    } else if k == 11 {
        OscChannel::BarSource
    } else if k < 16 {
        OscChannel::BarSensor((k - 12) as usize)
    } else {
        OscChannel::Pitch((k - 16) as usize)
    }
}

/// The channels of a frame in the order in which they are sent.
pub fn frame_channels() -> (channels: Vec<OscChannel>)
    ensures
        channels@.len() == MESSAGES_PER_FRAME,
        forall|k: int| 0 <= k < MESSAGES_PER_FRAME ==> #[trigger] channels@[k] == channel_at(k),
        forall|k: int| 0 <= k < MESSAGES_PER_FRAME ==> (#[trigger] channels@[k]).valid(),
{
    let mut channels: Vec<OscChannel> = Vec::new();
    let mut k: usize = 0;
    while k < MESSAGES_PER_FRAME
        invariant
            k <= MESSAGES_PER_FRAME,
            channels@.len() == k,
            forall|j: int| 0 <= j < k ==> #[trigger] channels@[j] == channel_at(j),
        decreases MESSAGES_PER_FRAME - k,
    {
        let channel = if k < 3 {
            OscChannel::Pedal(k)
        } else if k < 8 {
            OscChannel::Knee(k - 3)
        } else if k == 8 {
            OscChannel::Volume
        } else if k == 9 {
            OscChannel::BarPosition
        } else if k == 10 {
            OscChannel::BarConfidence
        } else if k == 11 {
            OscChannel::BarSource
        } else if k < 16 {
            OscChannel::BarSensor(k - 12)
        } else {
            OscChannel::Pitch(k - 16)
        };
        channels.push(channel);
        k = k + 1;
    }
    channels
}

} // verus!
