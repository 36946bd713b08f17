//! Events reported by the real-time audio thread.

use vstd::prelude::*;

verus! {

/// Diagnostic event emitted by the real-time thread.
#[derive(Copy, Clone, Debug)]
pub enum RtEvent {
    Xrun { count: u32 },
    EngineLoad { pct: u16 },
    MaxBlockMicros { us: u32 },
}

/// Numeric tag of each event kind, as carried over the wire.
pub open spec fn spec_kind_id(event: RtEvent) -> u8 {
    match event {
        RtEvent::Xrun { .. } => 1,
        RtEvent::EngineLoad { .. } => 2,
        RtEvent::MaxBlockMicros { .. } => 3,
    }
}

impl RtEvent {
    /// Returns the numeric tag of this event's kind.
    pub fn kind_id(&self) -> (id: u8)
        ensures
            id == spec_kind_id(*self),
    {
        match self {
            RtEvent::Xrun { .. } => 1,
            RtEvent::EngineLoad { .. } => 2,
            RtEvent::MaxBlockMicros { .. } => 3,
        }
    }
}

} // verus!
