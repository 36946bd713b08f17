//! References from rack channels to entries of the plugin database.

use vstd::prelude::*;

use crate::rack::pattern::{
    Pattern, PianoRoll, PianoRollNote, StepSeq, DEFAULT_LANES, DEFAULT_STEPS, default_steps,
};

verus! {

/// Plugin formats a rack channel can reference.
#[derive(Debug, Clone, Copy, PartialEq, Eq, Structural)]
pub enum PluginFormat {
    Clap,
    Vst3,
    Harmoniq,
}

/// A reference to a plugin entry stored in the plugin database.
#[derive(Debug, Clone)]
pub struct PluginRef {
    pub id: String,
    pub format: PluginFormat,
    pub path: String,
}

/// Bit pattern of the `f32` value `1.0`: a colour component at full intensity.
pub const COLOR_FULL: u32 = 0x3F80_0000;

/// Number of insert slots of a channel.
pub const INSERT_SLOTS: usize = 10;

/// A channel of the rack: its instrument, grid and piano roll.
#[derive(Debug, Clone)]
pub struct Channel {
    pub id: u32,
    pub name: String,
    /// Bit patterns of the `f32` RGBA components.
    pub color_bits: [u32; 4],
    pub is_instrument: bool,
    pub plugin_ref: Option<PluginRef>,
    pub mixer_track: u32,
    pub steps: StepSeq,
    pub piano_roll: PianoRoll,
    pub inserts: [Option<PluginRef>; 10],
}

impl Channel {
    /// A white instrument channel on the master track, with a default grid, an
    /// empty piano roll, no plugin and empty inserts.
    pub fn new(id: u32, name: String) -> (c: Self)
        ensures
            c.id == id,
            c.name@ == name@,
            c.color_bits@ == seq![COLOR_FULL, COLOR_FULL, COLOR_FULL, COLOR_FULL],
            c.is_instrument,
            c.plugin_ref is None,
            c.mixer_track == 0,
            c.steps.steps_per_lane == DEFAULT_STEPS,
            c.steps.lanes@.len() == DEFAULT_LANES,
            forall|i: int| 0 <= i < DEFAULT_LANES ==> (#[trigger] c.steps.lanes@[i]).steps@
                == default_steps(DEFAULT_STEPS as nat),
            c.piano_roll.notes@ == Seq::<PianoRollNote>::empty(),
            forall|i: int| 0 <= i < INSERT_SLOTS ==> (#[trigger] c.inserts@[i]) is None,
    {
        Channel {
            id,
            name,
            color_bits: [COLOR_FULL, COLOR_FULL, COLOR_FULL, COLOR_FULL],
            is_instrument: true,
            plugin_ref: None,
            mixer_track: 0,
            steps: StepSeq::default_grid(),
            piano_roll: PianoRoll::default(),
            inserts: [None, None, None, None, None, None, None, None, None, None],
        }
    }
}

/// The rack: swing, channels and patterns.
#[derive(Debug, Clone)]
pub struct Rack {
    /// Bit pattern of the `f32` swing amount.
    pub swing_bits: u32,
    pub channels: Vec<Channel>,
    pub patterns: Vec<Pattern>,
}

/// Position of the first channel of `channels` with identifier `id`, if any.
pub open spec fn channel_position(channels: Seq<Channel>, id: u32) -> Option<int> {
    if exists|i: int| 0 <= i < channels.len() && channels[i].id == id {
        Some(
            choose|i: int|
                0 <= i < channels.len() && channels[i].id == id && forall|j: int|
                    0 <= j < i ==> channels[j].id != id,
        )
    } else {
        None
    }
}

/// Position of the first pattern of `patterns` with identifier `id`, if any.
pub open spec fn pattern_position(patterns: Seq<Pattern>, id: u32) -> Option<int> {
    if exists|i: int| 0 <= i < patterns.len() && patterns[i].id == id {
        Some(
            choose|i: int|
                0 <= i < patterns.len() && patterns[i].id == id && forall|j: int|
                    0 <= j < i ==> patterns[j].id != id,
        )
    } else {
        None
    }
}

/// The first channel of `channels` with identifier `id`, if any.
pub open spec fn channel_with_id(channels: Seq<Channel>, id: u32) -> Option<Channel> {
    match channel_position(channels, id) {
        Some(i) => Some(channels[i]),
        None => None,
    }
}

/// The first pattern of `patterns` with identifier `id`, if any.
pub open spec fn pattern_with_id(patterns: Seq<Pattern>, id: u32) -> Option<Pattern> {
    match pattern_position(patterns, id) {
        Some(i) => Some(patterns[i]),
        None => None,
    }
}

impl Rack {
    /// An empty rack without swing.
    pub fn new() -> (r: Self)
        ensures
            r.swing_bits == 0,
            r.channels@.len() == 0,
            r.patterns@.len() == 0,
    {
        Rack { swing_bits: 0, channels: Vec::new(), patterns: Vec::new() }
    }

    /// The first channel with identifier `id`, if any.
    pub fn find_channel(&self, id: u32) -> (r: Option<&Channel>)
        ensures
            match r {
                Some(c) => channel_with_id(self.channels@, id) == Some(*c),
                None => channel_with_id(self.channels@, id) is None,
            },
    {
        let mut i: usize = 0;
        while i < self.channels.len()
            invariant
                i <= self.channels@.len(),
                forall|j: int| 0 <= j < i ==> self.channels@[j].id != id,
            decreases self.channels@.len() - i,
        {
            if self.channels[i].id == id {
                proof {
                    let w = i as int;
                    assert(0 <= w < self.channels@.len() && self.channels@[w].id == id);
                    let k = choose|k: int|
                        0 <= k < self.channels@.len() && self.channels@[k].id == id && forall|j: int|
                            0 <= j < k ==> self.channels@[j].id != id;
                    assert(forall|j: int| 0 <= j < w ==> self.channels@[j].id != id);
                    if k < w {
                    } else if k > w {
                        assert(self.channels@[w].id != id);
                    }
                    assert(k == w);
                }
                return Some(&self.channels[i]);
            }
            i += 1;
        }
        None
    }

    /// The first pattern with identifier `id`, if any.
    pub fn find_pattern(&self, id: u32) -> (r: Option<&Pattern>)
        ensures
            match r {
                Some(p) => pattern_with_id(self.patterns@, id) == Some(*p),
                None => pattern_with_id(self.patterns@, id) is None,
            },
    {
        let mut i: usize = 0;
        while i < self.patterns.len()
            invariant
                i <= self.patterns@.len(),
                forall|j: int| 0 <= j < i ==> self.patterns@[j].id != id,
            decreases self.patterns@.len() - i,
        {
            if self.patterns[i].id == id {
                proof {
                    let w = i as int;
                    assert(0 <= w < self.patterns@.len() && self.patterns@[w].id == id);
                    let k = choose|k: int|
                        0 <= k < self.patterns@.len() && self.patterns@[k].id == id && forall|j: int|
                            0 <= j < k ==> self.patterns@[j].id != id;
                    assert(forall|j: int| 0 <= j < w ==> self.patterns@[j].id != id);
                    if k < w {
                    } else if k > w {
                        assert(self.patterns@[w].id != id);
                    }
                    assert(k == w);
                }
                return Some(&self.patterns[i]);
            }
            i += 1;
        }
        None
    }
}

} // verus!
