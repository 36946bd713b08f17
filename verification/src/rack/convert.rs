//! Conversion of step lanes to a simple MIDI clip (kept UI-side; the engine
//! bridge schedules the clip later).

use vstd::prelude::*;

use crate::rack::state::{
    channel_ids, find_channel_index, is_first_index, ChannelId, ChannelKind, PatternId, RackState, Step,
};

verus! {

/// A note of a MIDI clip, in ticks.
#[derive(Clone, Copy, Debug, PartialEq, Eq, Structural)]
pub struct MidiNote {
    pub start_ticks: u32,
    pub length_ticks: u32,
    pub key: i8,
    pub velocity: u8,
}

/// A MIDI clip: its resolution in ticks per quarter note and its notes.
#[derive(Clone, Debug)]
pub struct MidiClip {
    pub ppq: u32,
    pub notes: Vec<MidiNote>,
}

impl Default for MidiClip {
    fn default() -> (c: Self)
        ensures
            c.ppq == 0,
            c.notes@.len() == 0,
    {
        MidiClip { ppq: 0, notes: Vec::new() }
    }
}

/// Resolution of generated clips, in ticks per quarter note.
pub const CLIP_PPQ: u32 = 480;

/// Ticks of one step when a bar of four quarter notes is split into `div` steps:
/// 1920 / `div` rounded to the nearest integer, halves rounded up.
pub open spec fn step_ticks_for(div: nat) -> nat
    recommends
        div > 0,
{
    (3840 + div) / (2 * div)
}

/// A step velocity brought into the MIDI note-on range 1..=127.
pub open spec fn clamp_velocity(v: u8) -> u8 {
    if v > 127 {
        127
    } else if v < 1 {
        1
    } else {
        v
    }
}

/// The note generated for an active step at position `i`: it starts at
/// `i * step_ticks`, lasts at least a thirty-second note (60 ticks), and plays
/// middle C (key 60).
pub open spec fn step_note(i: int, st: Step, step_ticks: nat) -> MidiNote {
    MidiNote {
        start_ticks: (i * step_ticks) as u32,
        length_ticks: (if step_ticks > 60 { step_ticks } else { 60 }) as u32,
        key: 60,
        velocity: clamp_velocity(st.velocity),
    }
}

/// The notes generated for a lane: one per active step, in step order.
pub open spec fn lane_notes(steps: Seq<Step>, step_ticks: nat) -> Seq<MidiNote>
    decreases steps.len(),
{
    if steps.len() == 0 {
        Seq::empty()
    } else {
        let prev = lane_notes(steps.drop_last(), step_ticks);
        if steps.last().on {
            prev.push(step_note(steps.len() - 1, steps.last(), step_ticks))
        } else {
            prev
        }
    }
}

/// Every active step of the lane starts within the range of `u32` ticks.
pub open spec fn lane_fits(steps: Seq<Step>, step_ticks: nat) -> bool {
    forall|i: int| 0 <= i < steps.len() && #[trigger] steps[i].on ==> i * step_ticks <= u32::MAX
}

/// The steps-per-bar count used for the grid: at least one.
pub open spec fn grid_division(steps_per_bar: u32) -> nat {
    if steps_per_bar > 1 { steps_per_bar as nat } else { 1 }
}

fn clamp_note_velocity(v: u8) -> (r: u8)
    ensures
        r == clamp_velocity(v),
{
    let capped = if v < 127 { v } else { 127 };
    if capped > 1 { capped } else { 1 }
}

/// Builds a one-bar clip (480 ticks per quarter note) from the step lane of pattern
/// `pat` of the first channel with identifier `ch`: one middle-C note per active
/// step, on a grid of `steps_per_bar` steps (at least one) per bar.
/// Gives `None` when there is no such channel, when it is an automation channel,
/// or when it has no lane for `pat`.
pub fn steps_to_midi(state: &RackState, pat: PatternId, ch: ChannelId) -> (r: Option<MidiClip>)
    requires
        forall|i: int|
            #![trigger is_first_index(channel_ids(state.channels@), ch, i)]
            is_first_index(channel_ids(state.channels@), ch, i) && state.channels@[i].steps@.contains_key(pat)
                ==> lane_fits(
                state.channels@[i].steps@[pat]@,
                step_ticks_for(grid_division(state.channels@[i].steps_per_bar)),
            ),
    ensures
        (forall|j: int| 0 <= j < state.channels@.len() ==> state.channels@[j].id != ch) ==> r is None,
        forall|i: int|
            #![trigger is_first_index(channel_ids(state.channels@), ch, i)]
            is_first_index(channel_ids(state.channels@), ch, i) ==> {
                let c = state.channels@[i];
                if c.kind == ChannelKind::Automation || !c.steps@.contains_key(pat) {
                    r is None
                } else {
                    &&& r matches Some(clip)
                    &&& clip.ppq == 480
                    &&& clip.notes@ == lane_notes(
                        c.steps@[pat]@,
                        step_ticks_for(grid_division(c.steps_per_bar)),
                    )
                }
            },
{
    let i = match find_channel_index(&state.channels, ch) {
        Some(i) => i,
        None => {
            return None;
        },
    };
    proof {
        assert(channel_ids(state.channels@)[i as int] == ch);
        assert forall|k: int| is_first_index(channel_ids(state.channels@), ch, k) implies k == i by {}
    }
    let chref = &state.channels[i];
    if !(chref.kind == ChannelKind::Instrument || chref.kind == ChannelKind::Sample) {
        return None;
    }
    let steps = match chref.steps.get(&pat) {
        Some(steps) => steps,
        None => {
            return None;
        },
    };
    let div: u32 = if chref.steps_per_bar > 1 { chref.steps_per_bar } else { 1 };
    let ppq: u32 = CLIP_PPQ;
    let bar_ticks: u64 = 4 * (ppq as u64);
    let quotient: u64 = (2 * bar_ticks + div as u64) / (2 * div as u64);
    assert(quotient <= 1920) by (nonlinear_arith)
        requires
            div >= 1,
            bar_ticks == 1920,
            quotient as int == (2 * bar_ticks + div as int) / (2 * div as int),
    ;
    let step_ticks: u32 = quotient as u32;
    assert(step_ticks == step_ticks_for(div as nat));
    let min_len: u32 = ppq / 8;
    let mut notes: Vec<MidiNote> = Vec::new();
    let mut k: usize = 0;
    while k < steps.len()
        invariant
            k <= steps@.len(),
            min_len == 60,
            lane_fits(steps@, step_ticks as nat),
            notes@ == lane_notes(steps@.take(k as int), step_ticks as nat),
        decreases steps@.len() - k,
    {
        proof {
            assert(steps@.take(k + 1).drop_last() == steps@.take(k as int));
            assert(steps@.take(k + 1).last() == steps@[k as int]);
        }
        let st = steps[k];
        if st.on {
            assert(steps@[k as int].on);
            assert(k * step_ticks <= u32::MAX);
            let start: u32 = if step_ticks == 0 {
                assert(k * step_ticks == 0) by (nonlinear_arith)
                    requires
                        step_ticks == 0,
                ;
                0
            } else {
                assert(k <= u32::MAX) by (nonlinear_arith)
                    requires
                        k * step_ticks <= u32::MAX,
                        step_ticks >= 1,
                ;
                let kk: u32 = k as u32;
                assert(kk == k);
                kk * step_ticks
            };
            assert(0 <= k * step_ticks <= u32::MAX) by (nonlinear_arith)
                requires
                    k * step_ticks <= u32::MAX,
            ;
            assert(start as int == k * step_ticks);
            assert(start == (k * step_ticks) as u32);
            let len: u32 = if step_ticks > min_len { step_ticks } else { min_len };
            notes.push(MidiNote { start_ticks: start, length_ticks: len, key: 60, velocity: clamp_note_velocity(st.velocity) });
        }
        k += 1;
    }
    assert(steps@.take(steps@.len() as int) == steps@);
    Some(MidiClip { ppq, notes })
}

} // verus!
