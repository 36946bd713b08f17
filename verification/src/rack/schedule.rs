//! Turning a pattern of the rack into note events placed in samples.
//!
//! The length of a step in samples and the swing delay of odd steps come from the
//! tempo, the sample rate and the swing amount; the scheduler takes both as whole
//! numbers of samples.

use vstd::prelude::*;

use crate::rack::channel::{channel_with_id, pattern_with_id, Channel, Rack};
use crate::rack::pattern::{PianoRollNote, Step, StepLane, StepSeq};
use crate::sorting::{keys_ordered, law_sorted_by_key, sort_by_key, sorted_by_key, SampleKeyed};

verus! {

/// Pitch of the notes that grid steps play.
pub const STEP_PITCH: u8 = 60;

/// A note event at a sample position.
#[derive(Debug, Clone, Copy, PartialEq, Eq, Structural)]
pub enum ScheduledEvent {
    NoteOn {
        channel_id: u32,
        pitch: u8,
        /// Bit pattern of the `f32` velocity.
        velocity_bits: u32,
        sample: u64,
    },
    NoteOff { channel_id: u32, pitch: u8, sample: u64 },
}

impl SampleKeyed for ScheduledEvent {
    open spec fn spec_key(&self) -> u64 {
        match self {
            ScheduledEvent::NoteOn { sample, .. } => *sample,
            ScheduledEvent::NoteOff { sample, .. } => *sample,
        }
    }

    fn key(&self) -> (k: u64) {
        match self {
            ScheduledEvent::NoteOn { sample, .. } => *sample,
            ScheduledEvent::NoteOff { sample, .. } => *sample,
        }
    }
}

/// The steps of all lanes, lane after lane.
pub open spec fn flat_steps(lanes: Seq<StepLane>) -> Seq<Step>
    decreases lanes.len(),
{
    if lanes.len() == 0 {
        Seq::empty()
    } else {
        flat_steps(lanes.drop_last()) + lanes.last().steps@
    }
}

/// Swing delay of the step at `index`: odd steps are delayed, even ones are not.
pub open spec fn swing_offset(index: int, odd_step_offset: u64) -> int {
    if index % 2 == 1 {
        odd_step_offset as int
    } else {
        0
    }
}

/// Sample at which the step at `index` starts.
pub open spec fn step_start(index: int, step_duration: u64, odd_step_offset: u64) -> int {
    index * step_duration + swing_offset(index, odd_step_offset)
}

/// The events of the grid steps `steps` of channel `id`, in step order: each active
/// step plays the step pitch for one step length.
pub open spec fn step_events(
    id: u32,
    steps: Seq<Step>,
    step_duration: u64,
    odd_step_offset: u64,
) -> Seq<ScheduledEvent>
    decreases steps.len(),
{
    if steps.len() == 0 {
        Seq::empty()
    } else {
        let i = steps.len() - 1;
        let prev = step_events(id, steps.drop_last(), step_duration, odd_step_offset);
        let step = steps.last();
        if step.active {
            let start = step_start(i, step_duration, odd_step_offset);
            prev + seq![
                ScheduledEvent::NoteOn {
                    channel_id: id,
                    pitch: STEP_PITCH,
                    velocity_bits: step.velocity_bits,
                    sample: start as u64,
                },
                ScheduledEvent::NoteOff {
                    channel_id: id,
                    pitch: STEP_PITCH,
                    sample: (start + step_duration) as u64,
                },
            ]
        } else {
            prev
        }
    }
}

/// The events of the piano-roll notes `notes` of channel `id`, in note order.
pub open spec fn note_events(id: u32, notes: Seq<PianoRollNote>) -> Seq<ScheduledEvent>
    decreases notes.len(),
{
    if notes.len() == 0 {
        Seq::empty()
    } else {
        let note = notes.last();
        note_events(id, notes.drop_last()) + seq![
            ScheduledEvent::NoteOn {
                channel_id: id,
                pitch: note.pitch,
                velocity_bits: note.velocity_bits,
                sample: note.start_samples,
            },
            ScheduledEvent::NoteOff {
                channel_id: id,
                pitch: note.pitch,
                sample: (note.start_samples + note.length_samples) as u64,
            },
        ]
    }
}

/// The events of channel `c`: its grid, then its piano roll.
pub open spec fn channel_events(c: Channel, step_duration: u64, odd_step_offset: u64) -> Seq<
    ScheduledEvent,
> {
    step_events(c.id, flat_steps(c.steps.lanes@), step_duration, odd_step_offset) + note_events(
        c.id,
        c.piano_roll.notes@,
    )
}

/// The events of the pattern lanes `lanes`, lane after lane; a lane whose channel
/// the rack does not hold adds none.
pub open spec fn lane_events(
    channels: Seq<Channel>,
    lanes: Seq<crate::rack::pattern::PatternLaneRef>,
    step_duration: u64,
    odd_step_offset: u64,
) -> Seq<ScheduledEvent>
    decreases lanes.len(),
{
    if lanes.len() == 0 {
        Seq::empty()
    } else {
        lane_events(channels, lanes.drop_last(), step_duration, odd_step_offset) + match channel_with_id(
            channels,
            lanes.last().channel_id,
        ) {
            Some(c) => channel_events(c, step_duration, odd_step_offset),
            None => Seq::empty(),
        }
    }
}

/// The events of pattern `pattern_id` of `rack`, in stable order of their sample:
/// none when the rack has no such pattern.
pub open spec fn pattern_events(
    rack: Rack,
    pattern_id: u32,
    step_duration: u64,
    odd_step_offset: u64,
) -> Seq<ScheduledEvent> {
    match pattern_with_id(rack.patterns@, pattern_id) {
        Some(p) => sorted_by_key(lane_events(rack.channels@, p.lanes@, step_duration, odd_step_offset)),
        None => Seq::empty(),
    }
}

/// The sample positions of the grid `steps` fit in 64 bits.
pub open spec fn steps_fit(steps: Seq<Step>, step_duration: u64, odd_step_offset: u64) -> bool {
    &&& steps.len() <= usize::MAX
    &&& forall|i: int|
        0 <= i < steps.len() && (#[trigger] steps[i]).active ==> step_start(
            i,
            step_duration,
            odd_step_offset,
        ) + step_duration <= u64::MAX
}

/// The ends of the notes fit in 64 bits.
pub open spec fn notes_fit(notes: Seq<PianoRollNote>) -> bool {
    forall|i: int|
        0 <= i < notes.len() ==> (#[trigger] notes[i]).start_samples + notes[i].length_samples
            <= u64::MAX
}

/// The sample positions of channel `c`'s events fit in 64 bits.
pub open spec fn channel_fits(c: Channel, step_duration: u64, odd_step_offset: u64) -> bool {
    &&& steps_fit(flat_steps(c.steps.lanes@), step_duration, odd_step_offset)
    &&& notes_fit(c.piano_roll.notes@)
}

/// The sample positions of every event of pattern `pattern_id` fit in 64 bits.
pub open spec fn schedule_fits(
    rack: Rack,
    pattern_id: u32,
    step_duration: u64,
    odd_step_offset: u64,
) -> bool {
    match pattern_with_id(rack.patterns@, pattern_id) {
        Some(p) => forall|l: int|
            0 <= l < p.lanes@.len() ==> match channel_with_id(
                rack.channels@,
                (#[trigger] p.lanes@[l]).channel_id,
            ) {
                Some(c) => channel_fits(c, step_duration, odd_step_offset),
                None => true,
            },
        None => true,
    }
}

proof fn lemma_flat_step(lanes: Seq<StepLane>, l: int)
    requires
        0 <= l < lanes.len(),
    ensures
        flat_steps(lanes.take(l + 1)) == flat_steps(lanes.take(l)) + lanes[l].steps@,
{
    assert(lanes.take(l + 1).drop_last() =~= lanes.take(l));
}

proof fn lemma_flat_prefix(lanes: Seq<StepLane>, m: int)
    requires
        0 <= m <= lanes.len(),
    ensures
        flat_steps(lanes.take(m)).len() <= flat_steps(lanes).len(),
        forall|i: int|
            0 <= i < flat_steps(lanes.take(m)).len() ==> #[trigger] flat_steps(lanes.take(m))[i]
                == flat_steps(lanes)[i],
    decreases lanes.len(),
{
    if m == lanes.len() {
        assert(lanes.take(m) =~= lanes);
    } else {
        let rest = lanes.drop_last();
        assert(rest.take(m) =~= lanes.take(m));
        lemma_flat_prefix(rest, m);
    }
}

proof fn lemma_step_events_push(
    id: u32,
    steps: Seq<Step>,
    x: Step,
    step_duration: u64,
    odd_step_offset: u64,
)
    ensures
        step_events(id, steps.push(x), step_duration, odd_step_offset) == step_events(
            id,
            steps,
            step_duration,
            odd_step_offset,
        ) + (if x.active {
            let start = step_start(steps.len() as int, step_duration, odd_step_offset);
            seq![
                ScheduledEvent::NoteOn {
                    channel_id: id,
                    pitch: STEP_PITCH,
                    velocity_bits: x.velocity_bits,
                    sample: start as u64,
                },
                ScheduledEvent::NoteOff {
                    channel_id: id,
                    pitch: STEP_PITCH,
                    sample: (start + step_duration) as u64,
                },
            ]
        } else {
            Seq::empty()
        }),
{
    assert(steps.push(x).drop_last() =~= steps);
    if !x.active {
        assert(step_events(id, steps, step_duration, odd_step_offset) + Seq::<ScheduledEvent>::empty()
            =~= step_events(id, steps, step_duration, odd_step_offset));
    }
}

/// Appends the events of the piano-roll notes of `channel`, in note order.
fn collect_notes(channel: &Channel, out: &mut Vec<ScheduledEvent>)
    requires
        notes_fit(channel.piano_roll.notes@),
    ensures
        final(out)@ == old(out)@ + note_events(channel.id, channel.piano_roll.notes@),
{
    let ghost start = out@;
    let ghost notes = channel.piano_roll.notes@;
    let mut k: usize = 0;
    while k < channel.piano_roll.notes.len()
        invariant
            notes == channel.piano_roll.notes@,
            notes_fit(notes),
            k <= notes.len(),
            out@ == start + note_events(channel.id, notes.take(k as int)),
        decreases notes.len() - k,
    {
        let note = channel.piano_roll.notes[k];
        proof {
            assert(notes[k as int] == note);
            assert(notes.take(k + 1).drop_last() =~= notes.take(k as int));
            assert(notes.take(k + 1).last() == note);
        }
        out.push(
            ScheduledEvent::NoteOn {
                channel_id: channel.id,
                pitch: note.pitch,
                velocity_bits: note.velocity_bits,
                sample: note.start_samples,
            },
        );
        out.push(
            ScheduledEvent::NoteOff {
                channel_id: channel.id,
                pitch: note.pitch,
                sample: note.start_samples + note.length_samples,
            },
        );
        k += 1;
        proof {
            assert(out@ =~= start + note_events(channel.id, notes.take(k as int)));
        }
    }
    proof {
        assert(notes.take(notes.len() as int) =~= notes);
    }
}

/// Number of active steps in `steps`.
pub open spec fn active_count(steps: Seq<Step>) -> nat
    decreases steps.len(),
{
    if steps.len() == 0 {
        0
    } else {
        active_count(steps.drop_last()) + if steps.last().active {
            1nat
        } else {
            0nat
        }
    }
}

proof fn lemma_step_events_len(id: u32, steps: Seq<Step>, step_duration: u64, odd_step_offset: u64)
    ensures
        step_events(id, steps, step_duration, odd_step_offset).len() == 2 * active_count(steps),
    decreases steps.len(),
{
    if steps.len() > 0 {
        lemma_step_events_len(id, steps.drop_last(), step_duration, odd_step_offset);
    }
}

/// Each active grid step plays two events, in step order: the step at position `i`
/// (after the steps before it) starts at `i` step lengths, later by the swing delay
/// when `i` is odd and not at all when it is even, and stops one step length after
/// it starts, with the step's velocity and the step pitch.
pub proof fn law_grid_step_timing(id: u32, steps: Seq<Step>, step_duration: u64, odd_step_offset: u64, i: int)
    requires
        0 <= i < steps.len(),
        steps[i].active,
    ensures
        step_events(id, steps, step_duration, odd_step_offset).len() == 2 * active_count(steps),
        2 * active_count(steps.take(i)) + 2 <= 2 * active_count(steps),
        ({
            let events = step_events(id, steps, step_duration, odd_step_offset);
            let k = 2 * active_count(steps.take(i));
            let start = i * step_duration + if i % 2 == 1 {
                odd_step_offset as int
            } else {
                0
            };
            &&& events[k as int] == ScheduledEvent::NoteOn {
                channel_id: id,
                pitch: 60,
                velocity_bits: steps[i].velocity_bits,
                sample: start as u64,
            }
            &&& events[k + 1int] == ScheduledEvent::NoteOff {
                channel_id: id,
                pitch: 60,
                sample: (start + step_duration) as u64,
            }
        }),
    decreases steps.len(),
{
    lemma_step_events_len(id, steps, step_duration, odd_step_offset);
    let rest = steps.drop_last();
    lemma_step_events_len(id, rest, step_duration, odd_step_offset);
    if i == steps.len() - 1 {
        assert(steps.take(i) =~= rest);
    } else {
        assert(rest[i] == steps[i]);
        law_grid_step_timing(id, rest, step_duration, odd_step_offset, i);
        assert(rest.take(i) =~= steps.take(i));
    }
}

/// Collects the events of a rack's patterns, with step lengths and swing given in
/// samples.
pub struct Scheduler<'a> {
    pub rack: &'a Rack,
    /// Length of one grid step in samples.
    pub step_duration: u64,
    /// Delay of odd grid steps in samples.
    pub odd_step_offset: u64,
}

impl<'a> Scheduler<'a> {
    /// A scheduler over `rack` with the given step length and swing delay.
    pub fn new(rack: &'a Rack, step_duration: u64, odd_step_offset: u64) -> (s: Self)
        ensures
            *s.rack == *rack,
            s.step_duration == step_duration,
            s.odd_step_offset == odd_step_offset,
    {
        Scheduler { rack, step_duration, odd_step_offset }
    }

    /// The events of pattern `pattern_id`: for each lane whose channel the rack holds,
    /// the channel's active grid steps and its piano-roll notes, all ordered stably by
    /// sample; no events when the rack has no such pattern.
    pub fn collect_for_pattern(&self, pattern_id: u32) -> (events: Vec<ScheduledEvent>)
        requires
            schedule_fits(*self.rack, pattern_id, self.step_duration, self.odd_step_offset),
        ensures
            events@ == pattern_events(
                *self.rack,
                pattern_id,
                self.step_duration,
                self.odd_step_offset,
            ),
            keys_ordered(events@),
    {
        let mut events: Vec<ScheduledEvent> = Vec::new();
        let pattern = match self.rack.find_pattern(pattern_id) {
            Some(p) => p,
            None => {
                return events;
            },
        };
        let ghost channels = self.rack.channels@;
        let ghost lanes = pattern.lanes@;
        let sd = self.step_duration;
        let oo = self.odd_step_offset;
        let mut l: usize = 0;
        while l < pattern.lanes.len()
            invariant
                lanes == pattern.lanes@,
                channels == self.rack.channels@,
                sd == self.step_duration,
                oo == self.odd_step_offset,
                pattern_with_id(self.rack.patterns@, pattern_id) == Some(*pattern),
                schedule_fits(*self.rack, pattern_id, sd, oo),
                l <= lanes.len(),
                events@ == lane_events(channels, lanes.take(l as int), sd, oo),
            decreases lanes.len() - l,
        {
            let lane = &pattern.lanes[l];
            proof {
                assert(lanes.take(l + 1).drop_last() =~= lanes.take(l as int));
                assert(lanes.take(l + 1).last() == lanes[l as int]);
            }
            match self.rack.find_channel(lane.channel_id) {
                Some(channel) => {
                    proof {
                        assert(channel_fits(*channel, sd, oo));
                    }
                    self.collect_for_channel(channel, &channel.steps, &mut events);
                    collect_notes(channel, &mut events);
                    proof {
                        assert(events@ =~= lane_events(channels, lanes.take(l + 1), sd, oo));
                    }
                },
                None => {
                    proof {
                        assert(events@ =~= lane_events(channels, lanes.take(l + 1), sd, oo));
                    }
                },
            }
            l += 1;
        }
        proof {
            assert(lanes.take(lanes.len() as int) =~= lanes);
        }
        proof {
            law_sorted_by_key(events@);
        }
        sort_by_key(&mut events);
        events
    }

    /// Appends the events of the active steps of `steps`, lane after lane, for
    /// `channel`.
    fn collect_for_channel(&self, channel: &Channel, steps: &StepSeq, out: &mut Vec<ScheduledEvent>)
        requires
            steps_fit(flat_steps(steps.lanes@), self.step_duration, self.odd_step_offset),
        ensures
            final(out)@ == old(out)@ + step_events(
                channel.id,
                flat_steps(steps.lanes@),
                self.step_duration,
                self.odd_step_offset,
            ),
    {
        let ghost lanes = steps.lanes@;
        let ghost start = out@;
        let ghost flat = flat_steps(lanes);
        let sd = self.step_duration;
        let oo = self.odd_step_offset;
        let mut index: usize = 0;
        let mut l: usize = 0;
        while l < steps.lanes.len()
            invariant
                lanes == steps.lanes@,
                flat == flat_steps(lanes),
                steps_fit(flat, sd, oo),
                l <= lanes.len(),
                index == flat_steps(lanes.take(l as int)).len(),
                out@ == start + step_events(channel.id, flat_steps(lanes.take(l as int)), sd, oo),
            decreases lanes.len() - l,
        {
            let lane = &steps.lanes[l];
            let ghost prefix = flat_steps(lanes.take(l as int));
            proof {
                lemma_flat_step(lanes, l as int);
                lemma_flat_prefix(lanes, l + 1);
                assert(lane.steps@.take(0) =~= Seq::<Step>::empty());
                assert(prefix + lane.steps@.take(0) =~= prefix);
            }
            let mut s: usize = 0;
            while s < lane.steps.len()
                invariant
                    lanes == steps.lanes@,
                    flat == flat_steps(lanes),
                    steps_fit(flat, sd, oo),
                    l < lanes.len(),
                    *lane == lanes[l as int],
                    prefix == flat_steps(lanes.take(l as int)),
                    flat_steps(lanes.take(l + 1)) == prefix + lane.steps@,
                    flat_steps(lanes.take(l + 1)).len() <= flat.len(),
                    forall|i: int|
                        0 <= i < flat_steps(lanes.take(l + 1)).len() ==> #[trigger] flat_steps(
                            lanes.take(l + 1),
                        )[i] == flat[i],
                    s <= lane.steps@.len(),
                    index == prefix.len() + s,
                    out@ == start + step_events(channel.id, prefix + lane.steps@.take(s as int), sd, oo),
                decreases lane.steps@.len() - s,
            {
                let step = lane.steps[s];
                let ghost done = prefix + lane.steps@.take(s as int);
                proof {
                    assert(done.push(step) =~= prefix + lane.steps@.take(s + 1));
                    lemma_step_events_push(channel.id, done, step, sd, oo);
                    assert((prefix + lane.steps@)[index as int] == step);
                    assert(flat[index as int] == step);
                }
                if step.active {
                    proof {
                        assert(step_start(index as int, sd, oo) + sd <= u64::MAX);
                        assert(index * sd <= step_start(index as int, sd, oo));
                    }
                    let base = index as u64 * sd;
                    let offset = if index % 2 == 1 {
                        oo
                    } else {
                        0
                    };
                    out.push(
                        ScheduledEvent::NoteOn {
                            channel_id: channel.id,
                            pitch: STEP_PITCH,
                            velocity_bits: step.velocity_bits,
                            sample: base + offset,
                        },
                    );
                    out.push(
                        ScheduledEvent::NoteOff {
                            channel_id: channel.id,
                            pitch: STEP_PITCH,
                            sample: base + offset + sd,
                        },
                    );
                    proof {
                        assert(done.len() == index);
                    }
                } else {
                }
                proof {
                    assert(out@ =~= start + step_events(
                        channel.id,
                        prefix + lane.steps@.take(s + 1),
                        sd,
                        oo,
                    ));
                }
                index += 1;
                s += 1;
            }
            proof {
                assert(lane.steps@.take(s as int) =~= lane.steps@);
            }
            l += 1;
        }
        proof {
            assert(lanes.take(lanes.len() as int) =~= lanes);
        }
    }
}

} // verus!
