//! MIDI messages with their sample timestamps.

use vstd::prelude::*;

verus! {

/// A channel MIDI message.
#[derive(Clone, Debug)]
pub enum MidiMessage {
    NoteOn { channel: u8, note: u8, velocity: u8 },
    NoteOff { channel: u8, note: u8, velocity: u8 },
    ControlChange { channel: u8, controller: u8, value: u8 },
    PitchBend { channel: u8, value: i16 },
}

/// A MIDI message stamped with the sample at which it takes effect.
#[derive(Clone, Debug)]
pub struct MidiEvent {
    pub timestamp_samples: u64,
    pub message: MidiMessage,
}

} // verus!
