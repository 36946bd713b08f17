//! Step grids, piano rolls and patterns of the channel rack.
//!
//! Velocities are stored as the bit pattern of their `f32` value, so a step or
//! note can be compared and copied exactly; `VELOCITY_FULL` is the bit pattern of
//! `1.0`.

use std::collections::BTreeMap;
use vstd::prelude::*;

use crate::sorting::{keys_ordered, law_sorted_by_key, sort_by_key, sorted_by_key, SampleKeyed};

verus! {

/// Bit pattern of the `f32` velocity `1.0`.
pub const VELOCITY_FULL: u32 = 0x3F80_0000;

/// Number of lanes of a default grid.
pub const DEFAULT_LANES: usize = 4;

/// Number of steps of a default lane.
pub const DEFAULT_STEPS: usize = 16;

/// One step of a lane.
#[derive(Debug, Clone, Copy, PartialEq, Eq, Structural)]
pub struct Step {
    pub active: bool,
    /// Bit pattern of the step's `f32` velocity.
    pub velocity_bits: u32,
}

/// The default step: off, at full velocity.
pub open spec fn default_step() -> Step {
    Step { active: false, velocity_bits: VELOCITY_FULL }
}

impl Step {
    /// An active step with the given velocity.
    pub fn with_velocity(velocity_bits: u32) -> (s: Self)
        ensures
            s == (Step { active: true, velocity_bits }),
    {
        Step { active: true, velocity_bits }
    }
}

impl Default for Step {
    fn default() -> (s: Self)
        ensures
            s == default_step(),
    {
        Step { active: false, velocity_bits: VELOCITY_FULL }
    }
}

/// `n` default steps.
pub open spec fn default_steps(n: nat) -> Seq<Step> {
    Seq::new(n, |k: int| default_step())
}

fn default_step_vec(n: usize) -> (v: Vec<Step>)
    ensures
        v@ == default_steps(n as nat),
{
    let mut v: Vec<Step> = Vec::new();
    let mut i: usize = 0;
    while i < n
        invariant
            i <= n,
            v@ == default_steps(i as nat),
        decreases n - i,
    {
        v.push(Step { active: false, velocity_bits: VELOCITY_FULL });
        i += 1;
        assert(v@ =~= default_steps(i as nat));
    }
    v
}

/// A lane of steps.
#[derive(Debug, Clone)]
pub struct StepLane {
    pub steps: Vec<Step>,
}

impl StepLane {
    /// The step at `index`, if the lane has one there.
    pub fn step(&self, index: usize) -> (r: Option<&Step>)
        ensures
            r == (if index < self.steps@.len() {
                Some(&self.steps@[index as int])
            } else {
                None
            }),
    {
        if index < self.steps.len() {
            Some(&self.steps[index])
        } else {
            None
        }
    }
}

impl Default for StepLane {
    fn default() -> (l: Self)
        ensures
            l.steps@ == default_steps(DEFAULT_STEPS as nat),
    {
        StepLane { steps: default_step_vec(DEFAULT_STEPS) }
    }
}

/// A grid of step lanes.
#[derive(Debug, Clone)]
pub struct StepSeq {
    pub lanes: Vec<StepLane>,
    pub steps_per_lane: usize,
}

impl StepSeq {
    /// Four default lanes of sixteen steps.
    pub fn default_grid() -> (g: Self)
        ensures
            g.steps_per_lane == DEFAULT_STEPS,
            g.lanes@.len() == DEFAULT_LANES,
            forall|i: int| 0 <= i < DEFAULT_LANES ==> (#[trigger] g.lanes@[i]).steps@
                == default_steps(DEFAULT_STEPS as nat),
    {
        let mut lanes: Vec<StepLane> = Vec::new();
        let mut i: usize = 0;
        while i < DEFAULT_LANES
            invariant
                i <= DEFAULT_LANES,
                lanes@.len() == i,
                forall|k: int| 0 <= k < i ==> (#[trigger] lanes@[k]).steps@ == default_steps(
                    DEFAULT_STEPS as nat,
                ),
            decreases DEFAULT_LANES - i,
        {
            lanes.push(StepLane::default());
            i += 1;
        }
        StepSeq { lanes, steps_per_lane: DEFAULT_STEPS }
    }

    /// The lane at `index`, if the grid has one there.
    pub fn lane(&self, index: usize) -> (r: Option<&StepLane>)
        ensures
            r == (if index < self.lanes@.len() {
                Some(&self.lanes@[index as int])
            } else {
                None
            }),
    {
        if index < self.lanes.len() {
            Some(&self.lanes[index])
        } else {
            None
        }
    }
}

/// A note of a piano roll, placed in samples.
#[derive(Debug, Clone, Copy, PartialEq, Eq, Structural)]
pub struct PianoRollNote {
    pub pitch: u8,
    pub start_samples: u64,
    pub length_samples: u64,
    /// Bit pattern of the note's `f32` velocity.
    pub velocity_bits: u32,
}

impl SampleKeyed for PianoRollNote {
    open spec fn spec_key(&self) -> u64 {
        self.start_samples
    }

    fn key(&self) -> (k: u64) {
        self.start_samples
    }
}

/// The notes of a channel, kept in order of their start.
#[derive(Debug, Clone)]
pub struct PianoRoll {
    pub notes: Vec<PianoRollNote>,
}

impl PianoRoll {
    /// An empty piano roll.
    pub fn default() -> (r: Self)
        ensures
            r.notes@ == Seq::<PianoRollNote>::empty(),
    {
        PianoRoll { notes: Vec::new() }
    }

    /// Adds `note` and reorders the notes stably by start: the new note goes after
    /// every note that starts at or before it.
    pub fn add_note(&mut self, note: PianoRollNote)
        ensures
            final(self).notes@ == sorted_by_key(old(self).notes@.push(note)),
            keys_ordered(final(self).notes@),
            final(self).notes@.to_multiset() == old(self).notes@.to_multiset().insert(note),
    {
        proof {
            law_sorted_by_key(self.notes@.push(note));
            broadcast use vstd::seq_lib::group_to_multiset_ensures;
        }
        self.notes.push(note);
        sort_by_key(&mut self.notes);
    }
}

/// Per-step changes that a pattern makes to a channel's lane.
#[derive(Debug, Clone, Copy, PartialEq, Eq, Structural)]
pub struct StepOverride {
    pub active: Option<bool>,
    /// Bit pattern of the overriding `f32` velocity.
    pub velocity_bits: Option<u32>,
}

/// A pattern's reference to a channel, with its step overrides.
#[derive(Debug, Clone)]
pub struct PatternLaneRef {
    pub channel_id: u32,
    pub steps: BTreeMap<usize, StepOverride>,
}

impl PatternLaneRef {
    /// A reference to channel `channel_id` with no overrides.
    pub fn new(channel_id: u32) -> (r: Self)
        ensures
            r.channel_id == channel_id,
            r.steps@ == Map::<usize, StepOverride>::empty(),
    {
        PatternLaneRef { channel_id, steps: BTreeMap::new() }
    }
}

/// A pattern: the channels it plays.
#[derive(Debug, Clone)]
pub struct Pattern {
    pub id: u32,
    pub name: String,
    pub lanes: Vec<PatternLaneRef>,
}

impl Pattern {
    /// An empty pattern.
    pub fn new(id: u32, name: String) -> (p: Self)
        ensures
            p.id == id,
            p.name@ == name@,
            p.lanes@.len() == 0,
    {
        Pattern { id, name, lanes: Vec::new() }
    }
}

} // verus!
