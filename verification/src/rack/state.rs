//! State of the channel rack: patterns, channels, step lanes and instrument slots.

use std::collections::HashMap;
use vstd::prelude::*;

use crate::paths::{file_stem, path_file_stem};
use crate::text::{decimal, prefixed_decimal};

verus! {

pub type ChannelId = u32;

pub type PatternId = u32;

pub type InstrumentId = u64;

/// Plugin format of an instrument slot.
#[derive(Clone, Copy, Debug, PartialEq, Eq, Structural)]
pub enum PluginFormat {
    Vst3,
    Clap,
}

/// MIDI channel routing of an instrument slot (`None` means omni / pass-through).
#[derive(Clone, Debug)]
pub struct MidiRouting {
    pub input_channel: Option<u8>,
    pub output_channel: Option<u8>,
}

impl Default for MidiRouting {
    fn default() -> (r: Self)
        ensures
            r.input_channel is None,
            r.output_channel is None,
    {
        MidiRouting { input_channel: None, output_channel: None }
    }
}

/// One plugin instance in a channel's instrument chain, with its key and velocity zones.
#[derive(Debug)]
pub struct InstrumentSlot {
    pub id: u32,
    pub name: String,
    pub plugin_uid: String,
    pub format: PluginFormat,
    pub bypass: bool,
    pub oversampling: Option<u32>,
    pub key_range: (u8, u8),
    pub velocity_range: (u8, u8),
    pub midi_routing: MidiRouting,
}

impl Clone for InstrumentSlot {
    fn clone(&self) -> (c: Self)
        ensures
            c.id == self.id,
            c.name@ == self.name@,
            c.plugin_uid@ == self.plugin_uid@,
            c.format == self.format,
            c.bypass == self.bypass,
            c.oversampling == self.oversampling,
            c.key_range == self.key_range,
            c.velocity_range == self.velocity_range,
            c.midi_routing == self.midi_routing,
    {
        InstrumentSlot {
            id: self.id,
            name: self.name.clone(),
            plugin_uid: self.plugin_uid.clone(),
            format: self.format,
            bypass: self.bypass,
            oversampling: self.oversampling,
            key_range: self.key_range,
            velocity_range: self.velocity_range,
            midi_routing: MidiRouting {
                input_channel: self.midi_routing.input_channel,
                output_channel: self.midi_routing.output_channel,
            },
        }
    }
}

impl InstrumentSlot {
    /// A fresh slot: not bypassed, no oversampling, full key range 0..=127,
    /// velocity range 1..=127 and omni MIDI routing.
    pub fn new(id: u32, name: String, plugin_uid: String, format: PluginFormat) -> (s: Self)
        ensures
            s.id == id,
            s.name@ == name@,
            s.plugin_uid@ == plugin_uid@,
            s.format == format,
            !s.bypass,
            s.oversampling is None,
            s.key_range == (0u8, 127u8),
            s.velocity_range == (1u8, 127u8),
            s.midi_routing.input_channel is None,
            s.midi_routing.output_channel is None,
    {
        InstrumentSlot {
            id,
            name,
            plugin_uid,
            format,
            bypass: false,
            oversampling: None,
            key_range: (0, 127),
            velocity_range: (1, 127),
            midi_routing: MidiRouting::default(),
        }
    }

    /// Sets the bypass flag; nothing else changes.
    pub fn bypass(&mut self, bypass: bool)
        ensures
            *final(self) == (InstrumentSlot { bypass, ..*old(self) }),
    {
        self.bypass = bypass;
    }

    /// Sets the key and velocity zones; nothing else changes.
    pub fn set_zones(&mut self, key_range: (u8, u8), velocity_range: (u8, u8))
        ensures
            *final(self) == (InstrumentSlot { key_range, velocity_range, ..*old(self) }),
    {
        self.key_range = key_range;
        self.velocity_range = velocity_range;
    }

    /// Sets the oversampling factor; nothing else changes.
    pub fn set_oversampling(&mut self, factor: Option<u32>)
        ensures
            *final(self) == (InstrumentSlot { oversampling: factor, ..*old(self) }),
    {
        self.oversampling = factor;
    }
}

/// What a rack channel plays.
#[derive(Clone, Copy, Debug, PartialEq, Eq, Structural)]
pub enum ChannelKind {
    Instrument,
    Sample,
    Automation,
}

/// One step of a step-sequencer lane.
#[derive(Clone, Copy, Debug, PartialEq, Eq, Structural)]
pub struct Step {
    pub on: bool,
    pub velocity: u8,
    pub pan: i8,
    pub shift_ticks: i16,
}

/// The default step: off, velocity 100, centred, not shifted.
pub open spec fn default_step() -> Step {
    Step { on: false, velocity: 100, pan: 0, shift_ticks: 0 }
}

impl Default for Step {
    fn default() -> (s: Self)
        ensures
            s == default_step(),
    {
        Step { on: false, velocity: 100, pan: 0, shift_ticks: 0 }
    }
}

/// A channel of the rack.
///
/// `gain_db` and `pan` are the bit patterns (`f32::to_bits`) of the channel's
/// volume in decibels and its stereo position; the rack logic only carries them.
#[derive(Clone, Debug)]
pub struct Channel {
    pub id: ChannelId,
    pub name: String,
    pub kind: ChannelKind,
    pub plugin_uid: Option<String>,
    pub instrument_id: Option<InstrumentId>,
    pub instrument_name: Option<String>,
    pub mixer_track: u16,
    pub gain_db_bits: u32,
    pub pan_bits: u32,
    pub mute: bool,
    pub solo: bool,
    pub steps_per_bar: u32,
    pub steps: HashMap<PatternId, Vec<Step>>,
    pub instrument_chain: Vec<InstrumentSlot>,
}

/// The text shown for an instrument before the engine reports its name.
pub open spec fn instrument_placeholder(instrument: InstrumentId) -> Seq<char> {
    "Instrument #"@ + decimal(instrument as nat)
}

impl Channel {
    /// A fresh channel: no instrument attached, mixer track 0, 0 dB, centred,
    /// not muted or soloed, 16 steps per bar, no step lanes, empty chain.
    pub fn new(id: ChannelId, name: String, kind: ChannelKind, plugin_uid: Option<String>) -> (c: Self)
        ensures
            c.id == id,
            c.name == name,
            c.kind == kind,
            c.plugin_uid == plugin_uid,
            c.instrument_id is None,
            c.instrument_name is None,
            c.mixer_track == 0,
            c.gain_db_bits == 0,
            c.pan_bits == 0,
            !c.mute,
            !c.solo,
            c.steps_per_bar == 16,
            c.steps@ == Map::<PatternId, Vec<Step>>::empty(),
            c.instrument_chain@ == Seq::<InstrumentSlot>::empty(),
    {
        Channel {
            id,
            name,
            kind,
            plugin_uid,
            instrument_id: None,
            instrument_name: None,
            mixer_track: 0,
            gain_db_bits: 0,
            pan_bits: 0,
            mute: false,
            solo: false,
            steps_per_bar: 16,
            steps: HashMap::new(),
            instrument_chain: Vec::new(),
        }
    }

    /// Attaches an engine instrument handle; the display name becomes the
    /// placeholder "Instrument #<id>" until a friendly name is known.
    pub fn set_instrument(&mut self, instrument: InstrumentId)
        ensures
            final(self).instrument_id == Some(instrument),
            final(self).instrument_name matches Some(n) && n@ == instrument_placeholder(instrument),
            *final(self) == (Channel {
                instrument_id: final(self).instrument_id,
                instrument_name: final(self).instrument_name,
                ..*old(self)
            }),
    {
        self.instrument_id = Some(instrument);
        let fallback_name = prefixed_decimal("Instrument #", instrument);
        self.instrument_name = Some(fallback_name);
    }
}

/// Name and length of a pattern.
#[derive(Clone, Debug)]
pub struct PatternMeta {
    pub id: PatternId,
    pub name: String,
    pub bars: u32,
}

/// The whole channel rack: its patterns, the selected pattern and its channels.
pub struct RackState {
    pub patterns: Vec<PatternMeta>,
    pub current_pattern: PatternId,
    pub channels: Vec<Channel>,
}

impl Default for RackState {
    fn default() -> (r: Self)
        ensures
            r.patterns@.len() == 0,
            r.current_pattern == 0,
            r.channels@.len() == 0,
    {
        RackState { patterns: Vec::new(), current_pattern: 0, channels: Vec::new() }
    }
}

/// The name given to a pattern created with identifier `id`.
pub open spec fn pattern_name(id: PatternId) -> Seq<char> {
    "Pattern "@ + decimal(id as nat)
}

/// The identifier the next new pattern of `patterns` gets.
pub open spec fn next_pattern_id_of(patterns: Seq<PatternMeta>) -> nat {
    max_id(pattern_ids(patterns)) + 1
}

/// The identifier the next new channel of `channels` gets.
pub open spec fn next_channel_id_of(channels: Seq<Channel>) -> nat {
    max_id(channel_ids(channels)) + 1
}

/// Some pattern of `patterns` has identifier `id`.
pub open spec fn has_pattern(patterns: Seq<PatternMeta>, id: PatternId) -> bool {
    exists|i: int| 0 <= i < patterns.len() && patterns[i].id == id
}

/// Position of the first pattern of `patterns` with identifier `id` (meaningful
/// when there is one).
pub open spec fn first_pattern_index(patterns: Seq<PatternMeta>, id: PatternId) -> int {
    choose|i: int| is_first_index(pattern_ids(patterns), id, i)
}

/// The pattern selected after `current` by "next": the one following the first
/// pattern with identifier `current`, wrapping around; `current` itself when no
/// pattern has that identifier.
pub open spec fn pattern_after(patterns: Seq<PatternMeta>, current: PatternId) -> PatternId {
    if has_pattern(patterns, current) {
        patterns[(first_pattern_index(patterns, current) + 1) % (patterns.len() as int)].id
    } else {
        current
    }
}

/// The pattern selected after `current` by "previous": the one preceding the first
/// pattern with identifier `current`, wrapping around; `current` itself when no
/// pattern has that identifier.
pub open spec fn pattern_before(patterns: Seq<PatternMeta>, current: PatternId) -> PatternId {
    if has_pattern(patterns, current) {
        let i = first_pattern_index(patterns, current);
        patterns[if i == 0 {
            patterns.len() - 1
        } else {
            i - 1
        }].id
    } else {
        current
    }
}

/// `new_steps` is `old_steps` with the lane of pattern `src`, if there is one,
/// copied to pattern `dst`.
pub open spec fn steps_cloned(
    old_steps: Map<PatternId, Vec<Step>>,
    new_steps: Map<PatternId, Vec<Step>>,
    src: PatternId,
    dst: PatternId,
) -> bool {
    if old_steps.contains_key(src) {
        &&& new_steps.dom() == old_steps.dom().insert(dst)
        &&& new_steps[dst]@ == old_steps[src]@
        &&& forall|k: PatternId| k != dst && #[trigger] old_steps.contains_key(k) ==> new_steps[k] == old_steps[k]
    } else {
        new_steps == old_steps
    }
}

/// `new` is `old` with (at most) its step lanes changed as `steps_cloned` says.
pub open spec fn channel_pattern_cloned(old: Channel, new: Channel, src: PatternId, dst: PatternId) -> bool {
    &&& new == (Channel { steps: new.steps, ..old })
    &&& steps_cloned(old.steps@, new.steps@, src, dst)
}

/// `seq` brought to length `n`: cut, or padded with default steps.
pub open spec fn resized_steps(seq: Seq<Step>, n: nat) -> Seq<Step> {
    if seq.len() >= n {
        seq.take(n as int)
    } else {
        seq + Seq::new((n - seq.len()) as nat, |k: int| default_step())
    }
}

/// The lane of pattern `pat` that `steps_mut` hands out for channel `c`: the stored
/// lane, or a lane of default steps, brought to `c.steps_per_bar` steps.
pub open spec fn prepared_lane(c: Channel, pat: PatternId) -> Seq<Step> {
    let stored = if c.steps@.contains_key(pat) {
        c.steps@[pat]@
    } else {
        Seq::new(c.steps_per_bar as nat, |k: int| default_step())
    };
    resized_steps(stored, c.steps_per_bar as nat)
}

/// A prepared lane always has the channel's number of steps per bar.
pub proof fn lemma_prepared_lane_len(c: Channel, pat: PatternId)
    ensures
        prepared_lane(c, pat).len() == c.steps_per_bar,
{
}

/// The lane `steps_mut` hands out keeps what was programmed: it has the channel's
/// number of steps per bar; a position the stored lane has keeps its step, and only
/// positions past the stored lane (or all of them, when there is no stored lane)
/// hold fresh steps: off, velocity 100, centred, not shifted.
pub proof fn law_prepared_lane_keeps_steps(c: Channel, pat: PatternId, k: int)
    requires
        0 <= k < c.steps_per_bar,
    ensures
        prepared_lane(c, pat).len() == c.steps_per_bar,
        c.steps@.contains_key(pat) && k < c.steps@[pat]@.len() ==> prepared_lane(c, pat)[k]
            == c.steps@[pat]@[k],
        !(c.steps@.contains_key(pat) && k < c.steps@[pat]@.len()) ==> prepared_lane(c, pat)[k] == (Step {
            on: false,
            velocity: 100,
            pan: 0,
            shift_ticks: 0,
        }),
{
}

/// `slot` after `configure_instrument_slot` with the given optional settings.
pub open spec fn configured_slot(
    slot: InstrumentSlot,
    bypass: Option<bool>,
    oversampling: Option<Option<u32>>,
    key_range: Option<(u8, u8)>,
    velocity_range: Option<(u8, u8)>,
    midi_routing: Option<MidiRouting>,
) -> InstrumentSlot {
    InstrumentSlot {
        bypass: match bypass {
            Some(b) => b,
            None => slot.bypass,
        },
        oversampling: match oversampling {
            Some(o) => o,
            None => slot.oversampling,
        },
        key_range: match key_range {
            Some(k) => k,
            None => slot.key_range,
        },
        velocity_range: match velocity_range {
            Some(v) => v,
            None => slot.velocity_range,
        },
        midi_routing: match midi_routing {
            Some(m) => m,
            None => slot.midi_routing,
        },
        ..slot
    }
}

impl RackState {
    /// A rack with the single pattern "Pattern 1" (one bar), selected, and no channels.
    pub fn new_default() -> (r: Self)
        ensures
            r.current_pattern == 1,
            r.patterns@.len() == 1,
            r.patterns@[0].id == 1,
            r.patterns@[0].name@ == pattern_name(1),
            r.patterns@[0].bars == 1,
            r.channels@.len() == 0,
    {
        let mut state = Self::default();
        state.current_pattern = 1;
        let name = prefixed_decimal("Pattern ", 1);
        state.patterns.push(PatternMeta { id: 1, name, bars: 1 });
        state
    }

    fn next_pattern_id(&self) -> (id: PatternId)
        requires
            max_id(pattern_ids(self.patterns@)) < u32::MAX,
        ensures
            id == next_pattern_id_of(self.patterns@),
    {
        max_pattern_id(&self.patterns) + 1
    }

    /// Appends a new one-bar pattern named "Pattern <id>", where `id` is one more
    /// than the largest pattern identifier (so it is fresh), selects it and returns `id`.
    pub fn add_pattern(&mut self) -> (id: PatternId)
        requires
            max_id(pattern_ids(old(self).patterns@)) < u32::MAX,
        ensures
            id == next_pattern_id_of(old(self).patterns@),
            !has_pattern(old(self).patterns@, id),
            final(self).patterns@.len() == old(self).patterns@.len() + 1,
            final(self).patterns@.drop_last() == old(self).patterns@,
            final(self).patterns@.last().id == id,
            final(self).patterns@.last().name@ == pattern_name(id),
            final(self).patterns@.last().bars == 1,
            final(self).current_pattern == id,
            final(self).channels == old(self).channels,
            ids_unique(pattern_ids(old(self).patterns@)) ==> ids_unique(pattern_ids(final(self).patterns@)),
    {
        let id = self.next_pattern_id();
        proof {
            lemma_above_max_is_fresh(pattern_ids(self.patterns@), id);
            assert forall|i: int| 0 <= i < self.patterns@.len() implies self.patterns@[i].id != id by {
                assert(pattern_ids(self.patterns@)[i] == self.patterns@[i].id);
            }
        }
        let name = prefixed_decimal("Pattern ", id as u64);
        self.patterns.push(PatternMeta { id, name, bars: 1 });
        self.current_pattern = id;
        assert(self.patterns@.drop_last() == old(self).patterns@);
        proof {
            assert(pattern_ids(self.patterns@) =~= pattern_ids(old(self).patterns@).push(id));
            if ids_unique(pattern_ids(old(self).patterns@)) {
                lemma_unique_push(pattern_ids(old(self).patterns@), id);
            }
        }
        id
    }

    /// Selects pattern `pat` if the rack has it; otherwise nothing changes.
    pub fn select_pattern(&mut self, pat: PatternId)
        ensures
            final(self).patterns == old(self).patterns,
            final(self).channels == old(self).channels,
            final(self).current_pattern == if has_pattern(old(self).patterns@, pat) {
                pat
            } else {
                old(self).current_pattern
            },
    {
        if find_pattern_index(&self.patterns, pat).is_some() {
            self.current_pattern = pat;
        }
    }

    /// Selects the pattern after the current one, wrapping around to the first
    /// (see `pattern_after`); when no pattern has the current identifier, nothing changes.
    pub fn select_next_pattern(&mut self)
        ensures
            final(self).patterns == old(self).patterns,
            final(self).channels == old(self).channels,
            final(self).current_pattern == pattern_after(old(self).patterns@, old(self).current_pattern),
    {
        if let Some(idx) = find_pattern_index(&self.patterns, self.current_pattern) {
            proof {
                lemma_first_index_unique(pattern_ids(self.patterns@), self.current_pattern, idx as int);
            }
            let len = self.patterns.len();
            let next_idx = (idx + 1) % len;
            self.current_pattern = self.patterns[next_idx].id;
        }
    }

    /// Selects the pattern before the current one, wrapping around to the last
    /// (see `pattern_before`); when no pattern has the current identifier, nothing changes.
    pub fn select_previous_pattern(&mut self)
        ensures
            final(self).patterns == old(self).patterns,
            final(self).channels == old(self).channels,
            final(self).current_pattern == pattern_before(old(self).patterns@, old(self).current_pattern),
    {
        if let Some(idx) = find_pattern_index(&self.patterns, self.current_pattern) {
            proof {
                lemma_first_index_unique(pattern_ids(self.patterns@), self.current_pattern, idx as int);
            }
            let prev_idx = if idx == 0 {
                self.patterns.len() - 1
            } else {
                idx - 1
            };
            self.current_pattern = self.patterns[prev_idx].id;
        }
    }

    /// Duplicates pattern `pat`: appends a pattern with a fresh identifier (one more
    /// than the largest), the source's name followed by " (Copy)" and the source's
    /// length, copies every channel's step lane of `pat` to the new pattern, selects
    /// it and returns its identifier. The source is the first pattern with identifier
    /// `pat`; without one, nothing changes and the result is `None`.
    pub fn clone_pattern(&mut self, pat: PatternId) -> (r: Option<PatternId>)
        requires
            has_pattern(old(self).patterns@, pat) ==> max_id(pattern_ids(old(self).patterns@)) < u32::MAX,
        ensures
            r is Some <==> has_pattern(old(self).patterns@, pat),
            r is None ==> *final(self) == *old(self),
            ids_unique(pattern_ids(old(self).patterns@)) ==> ids_unique(pattern_ids(final(self).patterns@)),
            forall|i: int|
                #![trigger is_first_index(pattern_ids(old(self).patterns@), pat, i)]
                is_first_index(pattern_ids(old(self).patterns@), pat, i) ==> {
                    let src = old(self).patterns@[i];
                    let new_id = next_pattern_id_of(old(self).patterns@);
                    &&& r == Some(new_id as u32)
                    &&& final(self).patterns@.len() == old(self).patterns@.len() + 1
                    &&& final(self).patterns@.drop_last() == old(self).patterns@
                    &&& final(self).patterns@.last().id == new_id
                    &&& final(self).patterns@.last().name@ == src.name@ + " (Copy)"@
                    &&& final(self).patterns@.last().bars == src.bars
                    &&& final(self).current_pattern == new_id
                    &&& final(self).channels@.len() == old(self).channels@.len()
                    &&& forall|j: int|
                        0 <= j < old(self).channels@.len() ==> channel_pattern_cloned(
                            #[trigger] old(self).channels@[j],
                            final(self).channels@[j],
                            pat,
                            new_id as u32,
                        )
                },
    {
        let idx = match find_pattern_index(&self.patterns, pat) {
            Some(idx) => idx,
            None => {
                return None;
            },
        };
        proof {
            assert(pattern_ids(self.patterns@)[idx as int] == pat);
        }
        let source_name = self.patterns[idx].name.clone();
        let source_bars = self.patterns[idx].bars;
        let new_id = self.next_pattern_id();
        let mut name = source_name;
        name.append(" (Copy)");
        proof {
            lemma_above_max_is_fresh(pattern_ids(self.patterns@), new_id);
        }
        self.patterns.push(PatternMeta { id: new_id, name, bars: source_bars });
        assert(self.patterns@.drop_last() == old(self).patterns@);
        proof {
            assert(pattern_ids(self.patterns@) =~= pattern_ids(old(self).patterns@).push(new_id));
            if ids_unique(pattern_ids(old(self).patterns@)) {
                lemma_unique_push(pattern_ids(old(self).patterns@), new_id);
            }
        }

        let ghost old_channels = self.channels@;
        let ghost pats = self.patterns@;
        let mut i: usize = 0;
        while i < self.channels.len()
            invariant
                self.patterns@ == pats,
                i <= self.channels@.len(),
                self.channels@.len() == old_channels.len(),
                forall|j: int| 0 <= j < i ==> channel_pattern_cloned(#[trigger] old_channels[j], self.channels@[j], pat, new_id),
                forall|j: int| i <= j < self.channels@.len() ==> self.channels@[j] == old_channels[j],
            decreases self.channels@.len() - i,
        {
            let ghost before = self.channels@[i as int];
            let ch = &mut self.channels[i];
            let copy = match ch.steps.get(&pat) {
                Some(steps) => Some(steps.clone()),
                None => None,
            };
            if let Some(steps) = copy {
                ch.steps.insert(new_id, steps);
            }
            proof {
                let after = self.channels@[i as int];
                if before.steps@.contains_key(pat) {
                    assert(after.steps@.dom() =~= before.steps@.dom().insert(new_id));
                }
                assert(channel_pattern_cloned(before, after, pat, new_id));
            }
            i += 1;
        }
        self.current_pattern = new_id;
        proof {
            assert forall|k: int| is_first_index(pattern_ids(old(self).patterns@), pat, k) implies k == idx by {
                assert(pattern_ids(old(self).patterns@)[idx as int] == pat);
            }
            assert(old(self).patterns@[idx as int].id == pat);
        }
        Some(new_id)
    }

    /// Records that the first channel with identifier `channel` plays engine
    /// instrument `instrument` of plugin `plugin_uid`, shown as `display_name`.
    /// Without such a channel nothing changes.
    pub fn attach_plugin_instrument(
        &mut self,
        channel: ChannelId,
        instrument: InstrumentId,
        plugin_uid: String,
        display_name: String,
    )
        ensures
            final(self).patterns == old(self).patterns,
            final(self).current_pattern == old(self).current_pattern,
            (forall|j: int| 0 <= j < old(self).channels@.len() ==> old(self).channels@[j].id != channel)
                ==> final(self).channels@ == old(self).channels@,
            forall|i: int|
                #![trigger is_first_index(channel_ids(old(self).channels@), channel, i)]
                is_first_index(channel_ids(old(self).channels@), channel, i) ==> final(self).channels@
                    == old(self).channels@.update(
                    i,
                    Channel {
                        instrument_id: Some(instrument),
                        instrument_name: Some(display_name),
                        plugin_uid: Some(plugin_uid),
                        ..old(self).channels@[i]
                    },
                ),
    {
        if let Some(i) = find_channel_index(&self.channels, channel) {
            let ch = &mut self.channels[i];
            ch.set_instrument(instrument);
            ch.instrument_name = Some(display_name);
            ch.plugin_uid = Some(plugin_uid);
            proof {
                assert forall|k: int| is_first_index(channel_ids(old(self).channels@), channel, k) implies k == i by {
                    assert(channel_ids(old(self).channels@)[i as int] == channel);
                }
            }
        }
    }

    /// Turns the first channel with identifier `channel` into a sample channel
    /// playing the file at `path`: its plugin reference becomes the path and its
    /// display name the file's stem (kept as it was when the path has no stem).
    /// Without such a channel nothing changes.
    pub fn attach_sample_to_channel(&mut self, channel: ChannelId, path: String)
        ensures
            final(self).patterns == old(self).patterns,
            final(self).current_pattern == old(self).current_pattern,
            final(self).channels@.len() == old(self).channels@.len(),
            (forall|j: int| 0 <= j < old(self).channels@.len() ==> old(self).channels@[j].id != channel)
                ==> final(self).channels@ == old(self).channels@,
            forall|i: int|
                #![trigger is_first_index(channel_ids(old(self).channels@), channel, i)]
                is_first_index(channel_ids(old(self).channels@), channel, i) ==> {
                    let c = final(self).channels@[i];
                    &&& forall|j: int| 0 <= j < old(self).channels@.len() && j != i ==> final(self).channels@[j] == old(self).channels@[j]
                    &&& c == (Channel {
                        kind: ChannelKind::Sample,
                        instrument_name: c.instrument_name,
                        plugin_uid: c.plugin_uid,
                        ..old(self).channels@[i]
                    })
                    &&& c.plugin_uid matches Some(u) && u@ == path@
                    &&& match path_file_stem(path@) {
                        Some(stem) => c.instrument_name matches Some(n) && n@ == stem,
                        None => c.instrument_name == old(self).channels@[i].instrument_name,
                    }
                },
    {
        if let Some(i) = find_channel_index(&self.channels, channel) {
            let stem = file_stem(path.as_str());
            let ch = &mut self.channels[i];
            ch.kind = ChannelKind::Sample;
            if let Some(stem) = stem {
                ch.instrument_name = Some(stem);
            }
            ch.plugin_uid = Some(path);
            proof {
                assert forall|k: int| is_first_index(channel_ids(old(self).channels@), channel, k) implies k == i by {
                    assert(channel_ids(old(self).channels@)[i as int] == channel);
                }
            }
        }
    }

    /// Removes every channel with identifier `id`, keeping the others in order.
    pub fn remove_channel(&mut self, id: ChannelId)
        ensures
            final(self).patterns == old(self).patterns,
            final(self).current_pattern == old(self).current_pattern,
            final(self).channels@ == old(self).channels@.filter(|c: Channel| c.id != id),
            forall|j: int| 0 <= j < final(self).channels@.len() ==> final(self).channels@[j].id != id,
            ids_unique(channel_ids(old(self).channels@)) ==> ids_unique(channel_ids(final(self).channels@)),
    {
        let ghost keep = |c: Channel| c.id != id;
        let ghost orig = self.channels@;
        let ghost mut k: int = 0;
        let mut i: usize = 0;
        while i < self.channels.len()
            invariant
                self.patterns == old(self).patterns,
                self.current_pattern == old(self).current_pattern,
                orig == old(self).channels@,
                keep == (|c: Channel| c.id != id),
                0 <= i <= self.channels@.len(),
                0 <= k <= orig.len(),
                self.channels@.take(i as int) == orig.take(k).filter(keep),
                self.channels@.skip(i as int) == orig.skip(k),
            decreases self.channels@.len() - i,
        {
            proof {
                assert(self.channels@.skip(i as int).len() == orig.skip(k).len());
                assert(k < orig.len());
                assert(orig.take(k + 1).drop_last() == orig.take(k));
                assert(self.channels@[i as int] == orig.skip(k)[0]);
                assert(orig.skip(k)[0] == orig[k]);
                reveal_with_fuel(Seq::filter, 1);
            }
            if self.channels[i].id == id {
                let ghost before = self.channels@;
                self.channels.remove(i);
                proof {
                    assert(self.channels@.take(i as int) =~= before.take(i as int));
                    assert forall|j: int| 0 <= j < self.channels@.len() - i implies #[trigger] self.channels@.skip(i as int)[j] == orig.skip(k + 1)[j] by {
                        assert(self.channels@[i + j] == before[i + j + 1]);
                        assert(before.skip(i as int)[j + 1] == orig.skip(k)[j + 1]);
                    }
                    assert(self.channels@.skip(i as int) =~= orig.skip(k + 1));
                    assert(orig.take(k + 1).last() == orig[k]);
                    assert(!keep(orig[k]));
                    assert(orig.take(k + 1).filter(keep) == orig.take(k).filter(keep));
                    k = k + 1;
                }
            } else {
                proof {
                    assert(self.channels@.take(i + 1) =~= self.channels@.take(i as int).push(orig[k]));
                    assert forall|j: int| 0 <= j < self.channels@.len() - (i + 1) implies #[trigger] self.channels@.skip(i + 1)[j] == orig.skip(k + 1)[j] by {
                        assert(self.channels@.skip(i as int)[j + 1] == orig.skip(k)[j + 1]);
                    }
                    assert(self.channels@.skip(i + 1) =~= orig.skip(k + 1));
                    assert(orig.take(k + 1).last() == orig[k]);
                    assert(keep(orig[k]));
                    assert(orig.take(k + 1).filter(keep) == orig.take(k).filter(keep).push(orig[k]));
                    k = k + 1;
                }
                i += 1;
            }
        }
        proof {
            assert(self.channels@.take(i as int) == self.channels@);
            assert(orig.skip(k).len() == 0);
            assert(orig.take(k) == orig);
            broadcast use vstd::seq_lib::group_filter_ensures;
            assert forall|j: int| 0 <= j < self.channels@.len() implies self.channels@[j].id != id by {
                assert(keep(orig.filter(keep)[j]));
            }
            if ids_unique(channel_ids(orig)) {
                lemma_filter_keeps_unique(orig, keep);
            }
        }
    }

    /// Returns the step lane of pattern `pat` of the first channel with identifier
    /// `ch`, creating it from default steps when missing and bringing it to the
    /// channel's number of steps per bar (cut, or padded with default steps).
    /// Whatever the caller then writes through the reference is what the channel
    /// stores for `pat`. The channel must exist.
    pub fn steps_mut(&mut self, pat: PatternId, ch: ChannelId) -> (steps: &mut Vec<Step>)
        requires
            exists|j: int| 0 <= j < old(self).channels@.len() && old(self).channels@[j].id == ch,
        ensures
            final(self).patterns == old(self).patterns,
            final(self).current_pattern == old(self).current_pattern,
            forall|i: int|
                #![trigger is_first_index(channel_ids(old(self).channels@), ch, i)]
                is_first_index(channel_ids(old(self).channels@), ch, i) ==> {
                    let c = old(self).channels@[i];
                    &&& steps@ == prepared_lane(c, pat)
                    &&& steps@.len() == c.steps_per_bar
                    &&& final(self).channels@ == old(self).channels@.update(
                        i,
                        Channel { steps: final(self).channels@[i].steps, ..c },
                    )
                    &&& final(self).channels@[i].steps@ == c.steps@.insert(pat, *final(steps))
                },
    {
        let i = find_channel_index(&self.channels, ch).unwrap();
        let steps_per_bar = self.channels[i].steps_per_bar as usize;
        let channel = &mut self.channels[i];
        let steps = channel.steps.entry(pat).or_insert(vec![Step::default(); steps_per_bar]);
        if steps.len() != steps_per_bar {
            steps.resize(steps_per_bar, Step::default());
        }
        proof {
            assert forall|k: int| is_first_index(channel_ids(old(self).channels@), ch, k) implies k == i by {
                assert(channel_ids(old(self).channels@)[i as int] == ch);
            }
            lemma_prepared_lane_len(old(self).channels@[i as int], pat);
        }
        steps
    }

    /// Appends a new instrument slot to the chain of the first channel with
    /// identifier `channel` and returns its identifier, one more than the largest
    /// slot identifier of that chain (so it is fresh there). Without such a channel
    /// nothing changes and the result is `None`.
    pub fn add_instrument_slot(
        &mut self,
        channel: ChannelId,
        name: String,
        plugin_uid: String,
        format: PluginFormat,
    ) -> (r: Option<u32>)
        requires
            forall|i: int|
                #![trigger is_first_index(channel_ids(old(self).channels@), channel, i)]
                is_first_index(channel_ids(old(self).channels@), channel, i) ==> max_id(
                    slot_ids(old(self).channels@[i].instrument_chain@),
                ) < u32::MAX,
        ensures
            final(self).patterns == old(self).patterns,
            final(self).current_pattern == old(self).current_pattern,
            r is None <==> forall|j: int| 0 <= j < old(self).channels@.len() ==> old(self).channels@[j].id != channel,
            r is None ==> final(self).channels@ == old(self).channels@,
            forall|i: int|
                #![trigger is_first_index(channel_ids(old(self).channels@), channel, i)]
                is_first_index(channel_ids(old(self).channels@), channel, i) ==> {
                    let c = old(self).channels@[i];
                    let chain = final(self).channels@[i].instrument_chain@;
                    let id = max_id(slot_ids(c.instrument_chain@)) + 1;
                    &&& r == Some(id as u32)
                    &&& forall|k: int| 0 <= k < c.instrument_chain@.len() ==> c.instrument_chain@[k].id != id
                    &&& final(self).channels@ == old(self).channels@.update(
                        i,
                        Channel { instrument_chain: final(self).channels@[i].instrument_chain, ..c },
                    )
                    &&& chain.len() == c.instrument_chain@.len() + 1
                    &&& chain.drop_last() == c.instrument_chain@
                    &&& ids_unique(slot_ids(c.instrument_chain@)) ==> ids_unique(slot_ids(chain))
                    &&& chain.last().id == id
                    &&& chain.last().name@ == name@
                    &&& chain.last().plugin_uid@ == plugin_uid@
                    &&& chain.last().format == format
                    &&& !chain.last().bypass
                    &&& chain.last().oversampling is None
                    &&& chain.last().key_range == (0u8, 127u8)
                    &&& chain.last().velocity_range == (1u8, 127u8)
                    &&& chain.last().midi_routing.input_channel is None
                    &&& chain.last().midi_routing.output_channel is None
                },
    {
        let i = match find_channel_index(&self.channels, channel) {
            Some(i) => i,
            None => {
                return None;
            },
        };
        proof {
            assert(channel_ids(old(self).channels@)[i as int] == channel);
            assert forall|k: int| is_first_index(channel_ids(old(self).channels@), channel, k) implies k == i by {}
        }
        let channel_ref = &mut self.channels[i];
        let next_id = max_slot_id(&channel_ref.instrument_chain) + 1;
        proof {
            lemma_above_max_is_fresh(slot_ids(channel_ref.instrument_chain@), next_id);
            assert forall|k: int| 0 <= k < channel_ref.instrument_chain@.len() implies channel_ref.instrument_chain@[k].id != next_id by {
                assert(slot_ids(channel_ref.instrument_chain@)[k] == channel_ref.instrument_chain@[k].id);
            }
        }
        let ghost before = channel_ref.instrument_chain@;
        channel_ref.instrument_chain.push(InstrumentSlot::new(next_id, name, plugin_uid, format));
        assert(channel_ref.instrument_chain@.drop_last() == before);
        proof {
            assert(slot_ids(channel_ref.instrument_chain@) =~= slot_ids(before).push(next_id));
            if ids_unique(slot_ids(before)) {
                lemma_unique_push(slot_ids(before), next_id);
            }
        }
        Some(next_id)
    }

    /// Applies the given settings (each `None` leaves its field as it is) to the
    /// first slot with identifier `slot_id` in the chain of the first channel with
    /// identifier `channel`. Without such a channel or slot nothing changes.
    pub fn configure_instrument_slot(
        &mut self,
        channel: ChannelId,
        slot_id: u32,
        bypass: Option<bool>,
        oversampling: Option<Option<u32>>,
        key_range: Option<(u8, u8)>,
        velocity_range: Option<(u8, u8)>,
        midi_routing: Option<MidiRouting>,
    )
        ensures
            final(self).patterns == old(self).patterns,
            final(self).current_pattern == old(self).current_pattern,
            (forall|j: int| 0 <= j < old(self).channels@.len() ==> old(self).channels@[j].id != channel)
                ==> final(self).channels@ == old(self).channels@,
            forall|i: int|
                #![trigger is_first_index(channel_ids(old(self).channels@), channel, i)]
                is_first_index(channel_ids(old(self).channels@), channel, i) ==> {
                    let c = old(self).channels@[i];
                    &&& (forall|k: int| 0 <= k < c.instrument_chain@.len() ==> c.instrument_chain@[k].id != slot_id)
                        ==> final(self).channels@ == old(self).channels@
                    &&& forall|k: int|
                        #![trigger is_first_index(slot_ids(c.instrument_chain@), slot_id, k)]
                        is_first_index(slot_ids(c.instrument_chain@), slot_id, k) ==> {
                            &&& final(self).channels@ == old(self).channels@.update(
                                i,
                                Channel { instrument_chain: final(self).channels@[i].instrument_chain, ..c },
                            )
                            &&& final(self).channels@[i].instrument_chain@ == c.instrument_chain@.update(
                                k,
                                configured_slot(
                                    c.instrument_chain@[k],
                                    bypass,
                                    oversampling,
                                    key_range,
                                    velocity_range,
                                    midi_routing,
                                ),
                            )
                        }
                },
    {
        let i = match find_channel_index(&self.channels, channel) {
            Some(i) => i,
            None => {
                return;
            },
        };
        proof {
            assert(channel_ids(old(self).channels@)[i as int] == channel);
            assert forall|k: int| is_first_index(channel_ids(old(self).channels@), channel, k) implies k == i by {}
        }
        let k = match find_slot_index(&self.channels[i].instrument_chain, slot_id) {
            Some(k) => k,
            None => {
                return;
            },
        };
        proof {
            let chain = old(self).channels@[i as int].instrument_chain@;
            assert(slot_ids(chain)[k as int] == slot_id);
            assert forall|m: int| is_first_index(slot_ids(chain), slot_id, m) implies m == k by {}
        }
        let slot = &mut self.channels[i].instrument_chain[k];
        if let Some(bypass) = bypass {
            slot.bypass(bypass);
        }
        if let Some(oversampling) = oversampling {
            slot.set_oversampling(oversampling);
        }
        if let Some(key_range) = key_range {
            slot.key_range = key_range;
        }
        if let Some(velocity_range) = velocity_range {
            slot.velocity_range = velocity_range;
        }
        if let Some(midi_routing) = midi_routing {
            slot.midi_routing = midi_routing;
        }
    }

    /// Appends a new channel whose identifier is one more than the largest channel
    /// identifier (so it is fresh) and returns that identifier.
    pub fn add_channel(&mut self, name: String, kind: ChannelKind, plugin_uid: Option<String>) -> (id: ChannelId)
        requires
            max_id(channel_ids(old(self).channels@)) < u32::MAX,
        ensures
            id == next_channel_id_of(old(self).channels@),
            forall|i: int| 0 <= i < old(self).channels@.len() ==> old(self).channels@[i].id != id,
            final(self).channels@.len() == old(self).channels@.len() + 1,
            final(self).channels@.drop_last() == old(self).channels@,
            ({
                let c = final(self).channels@.last();
                &&& c.id == id
                &&& c.name == name
                &&& c.kind == kind
                &&& c.plugin_uid == plugin_uid
                &&& c.instrument_id is None
                &&& c.instrument_name is None
                &&& c.mixer_track == 0
                &&& c.gain_db_bits == 0
                &&& c.pan_bits == 0
                &&& !c.mute
                &&& !c.solo
                &&& c.steps_per_bar == 16
                &&& c.steps@ == Map::<PatternId, Vec<Step>>::empty()
                &&& c.instrument_chain@.len() == 0
            }),
            final(self).patterns == old(self).patterns,
            final(self).current_pattern == old(self).current_pattern,
            ids_unique(channel_ids(old(self).channels@)) ==> ids_unique(channel_ids(final(self).channels@)),
    {
        let id = max_channel_id(&self.channels) + 1;
        proof {
            lemma_above_max_is_fresh(channel_ids(self.channels@), id);
            assert forall|i: int| 0 <= i < self.channels@.len() implies self.channels@[i].id != id by {
                assert(channel_ids(self.channels@)[i] == self.channels@[i].id);
            }
        }
        self.channels.push(Channel::new(id, name, kind, plugin_uid));
        assert(self.channels@.drop_last() == old(self).channels@);
        proof {
            assert(channel_ids(self.channels@) =~= channel_ids(old(self).channels@).push(id));
            if ids_unique(channel_ids(old(self).channels@)) {
                lemma_unique_push(channel_ids(old(self).channels@), id);
            }
        }
        id
    }
}

/// Largest of a sequence of identifiers, or 0 when the sequence is empty.
pub open spec fn max_id(ids: Seq<u32>) -> nat
    decreases ids.len(),
{
    if ids.len() == 0 {
        0
    } else {
        let m = max_id(ids.drop_last());
        if ids.last() > m {
            ids.last() as nat
        } else {
            m
        }
    }
}

/// The identifiers of a list of patterns, in order.
pub open spec fn pattern_ids(patterns: Seq<PatternMeta>) -> Seq<u32> {
    patterns.map_values(|p: PatternMeta| p.id)
}

/// The identifiers of a list of channels, in order.
pub open spec fn channel_ids(channels: Seq<Channel>) -> Seq<u32> {
    channels.map_values(|c: Channel| c.id)
}

/// The identifiers of an instrument chain, in order.
pub open spec fn slot_ids(slots: Seq<InstrumentSlot>) -> Seq<u32> {
    slots.map_values(|s: InstrumentSlot| s.id)
}

/// No identifier occurs twice.
pub open spec fn ids_unique(ids: Seq<u32>) -> bool {
    forall|a: int, b: int| 0 <= a < ids.len() && 0 <= b < ids.len() && ids[a] == ids[b] ==> a == b
}

/// `i` is the position of the first element of `ids` equal to `id`.
pub open spec fn is_first_index(ids: Seq<u32>, id: u32, i: int) -> bool {
    &&& 0 <= i < ids.len()
    &&& ids[i] == id
    &&& forall|j: int| 0 <= j < i ==> ids[j] != id
}

/// The maximum is at least every element, and is an element when there is one.
pub proof fn lemma_max_id_bounds(ids: Seq<u32>)
    ensures
        forall|i: int| 0 <= i < ids.len() ==> ids[i] <= max_id(ids),
        ids.len() > 0 ==> exists|i: int| 0 <= i < ids.len() && ids[i] == max_id(ids),
        max_id(ids) <= u32::MAX,
    decreases ids.len(),
{
    if ids.len() > 0 {
        lemma_max_id_bounds(ids.drop_last());
        assert forall|i: int| 0 <= i < ids.len() implies ids[i] <= max_id(ids) by {
            if i < ids.len() - 1 {
                assert(ids.drop_last()[i] == ids[i]);
            }
        }
        if ids.last() <= max_id(ids.drop_last()) && ids.len() > 1 {
            let k = choose|k: int| 0 <= k < ids.drop_last().len() && ids.drop_last()[k] == max_id(ids.drop_last());
            assert(ids[k] == max_id(ids));
        }
    }
}

/// The first position of an identifier is unique.
pub proof fn lemma_first_index_unique(ids: Seq<u32>, id: u32, i: int)
    requires
        is_first_index(ids, id, i),
    ensures
        forall|k: int| is_first_index(ids, id, k) ==> k == i,
{
}

/// With distinct identifiers, the position of an identifier is its first position.
pub proof fn lemma_unique_is_first(ids: Seq<u32>, i: int)
    requires
        ids_unique(ids),
        0 <= i < ids.len(),
    ensures
        is_first_index(ids, ids[i], i),
{
}

/// Appending an identifier that is not there keeps identifiers distinct.
pub proof fn lemma_unique_push(ids: Seq<u32>, id: u32)
    requires
        ids_unique(ids),
        forall|i: int| 0 <= i < ids.len() ==> ids[i] != id,
    ensures
        ids_unique(ids.push(id)),
{
    assert forall|a: int, b: int|
        0 <= a < ids.push(id).len() && 0 <= b < ids.push(id).len() && ids.push(id)[a] == ids.push(id)[b]
        implies a == b by {
        if a < ids.len() {
            assert(ids.push(id)[a] == ids[a]);
        }
        if b < ids.len() {
            assert(ids.push(id)[b] == ids[b]);
        }
    }
}

/// Removing channels keeps the remaining channel identifiers distinct.
pub proof fn lemma_filter_keeps_unique(channels: Seq<Channel>, pred: spec_fn(Channel) -> bool)
    requires
        ids_unique(channel_ids(channels)),
    ensures
        ids_unique(channel_ids(channels.filter(pred))),
    decreases channels.len(),
{
    reveal_with_fuel(Seq::filter, 1);
    if channels.len() > 0 {
        let rest = channels.drop_last();
        assert forall|a: int, b: int|
            0 <= a < channel_ids(rest).len() && 0 <= b < channel_ids(rest).len() && channel_ids(rest)[a] == channel_ids(rest)[b]
            implies a == b by {
            assert(channel_ids(rest)[a] == channel_ids(channels)[a]);
            assert(channel_ids(rest)[b] == channel_ids(channels)[b]);
        }
        lemma_filter_keeps_unique(rest, pred);
        if pred(channels.last()) {
            let f = rest.filter(pred);
            broadcast use vstd::seq_lib::group_filter_ensures;
            assert forall|i: int| 0 <= i < channel_ids(f).len() implies channel_ids(f)[i] != channels.last().id by {
                assert(f.contains(f[i]));
                rest.lemma_filter_contains_rev(pred, f[i]);
                let k = choose|k: int| 0 <= k < rest.len() && rest[k] == f[i];
                assert(channel_ids(channels)[k] == f[i].id);
                assert(channel_ids(channels)[channels.len() - 1] == channels.last().id);
            }
            lemma_unique_push(channel_ids(f), channels.last().id);
            assert(channel_ids(channels.filter(pred)) =~= channel_ids(f).push(channels.last().id));
        }
    }
}

/// An identifier above the maximum is not among the identifiers.
pub proof fn lemma_above_max_is_fresh(ids: Seq<u32>, id: u32)
    requires
        id > max_id(ids),
    ensures
        forall|i: int| 0 <= i < ids.len() ==> ids[i] != id,
{
    lemma_max_id_bounds(ids);
}

fn max_pattern_id(patterns: &Vec<PatternMeta>) -> (m: u32)
    ensures
        m == max_id(pattern_ids(patterns@)),
{
    let mut m: u32 = 0;
    let mut i: usize = 0;
    while i < patterns.len()
        invariant
            i <= patterns.len(),
            m == max_id(pattern_ids(patterns@).take(i as int)),
        decreases patterns.len() - i,
    {
        proof {
            lemma_max_id_bounds(pattern_ids(patterns@).take(i as int));
            assert(pattern_ids(patterns@).take(i + 1).drop_last() == pattern_ids(patterns@).take(i as int));
        }
        if patterns[i].id > m {
            m = patterns[i].id;
        }
        i += 1;
    }
    assert(pattern_ids(patterns@).take(patterns.len() as int) == pattern_ids(patterns@));
    m
}

fn max_channel_id(channels: &Vec<Channel>) -> (m: u32)
    ensures
        m == max_id(channel_ids(channels@)),
{
    let mut m: u32 = 0;
    let mut i: usize = 0;
    while i < channels.len()
        invariant
            i <= channels.len(),
            m == max_id(channel_ids(channels@).take(i as int)),
        decreases channels.len() - i,
    {
        proof {
            lemma_max_id_bounds(channel_ids(channels@).take(i as int));
            assert(channel_ids(channels@).take(i + 1).drop_last() == channel_ids(channels@).take(i as int));
        }
        if channels[i].id > m {
            m = channels[i].id;
        }
        i += 1;
    }
    assert(channel_ids(channels@).take(channels.len() as int) == channel_ids(channels@));
    m
}

fn max_slot_id(slots: &Vec<InstrumentSlot>) -> (m: u32)
    ensures
        m == max_id(slot_ids(slots@)),
{
    let mut m: u32 = 0;
    let mut i: usize = 0;
    while i < slots.len()
        invariant
            i <= slots.len(),
            m == max_id(slot_ids(slots@).take(i as int)),
        decreases slots.len() - i,
    {
        proof {
            lemma_max_id_bounds(slot_ids(slots@).take(i as int));
            assert(slot_ids(slots@).take(i + 1).drop_last() == slot_ids(slots@).take(i as int));
        }
        if slots[i].id > m {
            m = slots[i].id;
        }
        i += 1;
    }
    assert(slot_ids(slots@).take(slots.len() as int) == slot_ids(slots@));
    m
}

/// Position of the first pattern with identifier `id`, if any.
fn find_pattern_index(patterns: &Vec<PatternMeta>, id: PatternId) -> (r: Option<usize>)
    ensures
        match r {
            Some(i) => is_first_index(pattern_ids(patterns@), id, i as int),
            None => forall|j: int| 0 <= j < patterns@.len() ==> patterns@[j].id != id,
        },
{
    let mut i: usize = 0;
    while i < patterns.len()
        invariant
            i <= patterns.len(),
            forall|j: int| 0 <= j < i ==> patterns@[j].id != id,
        decreases patterns.len() - i,
    {
        if patterns[i].id == id {
            return Some(i);
        }
        i += 1;
    }
    None
}

/// Position of the first channel with identifier `id`, if any.
pub(crate) fn find_channel_index(channels: &Vec<Channel>, id: ChannelId) -> (r: Option<usize>)
    ensures
        match r {
            Some(i) => is_first_index(channel_ids(channels@), id, i as int),
            None => forall|j: int| 0 <= j < channels@.len() ==> channels@[j].id != id,
        },
{
    let mut i: usize = 0;
    while i < channels.len()
        invariant
            i <= channels.len(),
            forall|j: int| 0 <= j < i ==> channels@[j].id != id,
        decreases channels.len() - i,
    {
        if channels[i].id == id {
            return Some(i);
        }
        i += 1;
    }
    None
}

/// Position of the first slot with identifier `id`, if any.
fn find_slot_index(slots: &Vec<InstrumentSlot>, id: u32) -> (r: Option<usize>)
    ensures
        match r {
            Some(i) => is_first_index(slot_ids(slots@), id, i as int),
            None => forall|j: int| 0 <= j < slots@.len() ==> slots@[j].id != id,
        },
{
    let mut i: usize = 0;
    while i < slots.len()
        invariant
            i <= slots.len(),
            forall|j: int| 0 <= j < i ==> slots@[j].id != id,
        decreases slots.len() - i,
    {
        if slots[i].id == id {
            return Some(i);
        }
        i += 1;
    }
    None
}

/// With distinct pattern identifiers, selecting the next pattern and then the
/// previous one comes back to the pattern that was selected.
pub proof fn law_next_then_previous_pattern(patterns: Seq<PatternMeta>, current: PatternId)
    requires
        ids_unique(pattern_ids(patterns)),
        has_pattern(patterns, current),
    ensures
        pattern_before(patterns, pattern_after(patterns, current)) == current,
{
    let ids = pattern_ids(patterns);
    let j = choose|j: int| 0 <= j < patterns.len() && patterns[j].id == current;
    assert(ids[j] == current);
    lemma_unique_is_first(ids, j);
    lemma_first_index_unique(ids, current, j);
    let n = patterns.len() as int;
    if j + 1 < n {
        vstd::arithmetic::div_mod::lemma_small_mod((j + 1) as nat, n as nat);
    } else {
        vstd::arithmetic::div_mod::lemma_mod_self_0(n);
    }
    let m = (j + 1) % n;
    let next = patterns[m].id;
    assert(ids[m] == next);
    lemma_unique_is_first(ids, m);
    lemma_first_index_unique(ids, next, m);
    assert(has_pattern(patterns, next));
    assert(first_pattern_index(patterns, next) == m);
    if j + 1 < n {
        assert(m == j + 1);
    } else {
        assert(m == 0);
    }
}

/// With distinct pattern identifiers, selecting the previous pattern and then the
/// next one comes back to the pattern that was selected.
pub proof fn law_previous_then_next_pattern(patterns: Seq<PatternMeta>, current: PatternId)
    requires
        ids_unique(pattern_ids(patterns)),
        has_pattern(patterns, current),
    ensures
        pattern_after(patterns, pattern_before(patterns, current)) == current,
{
    let ids = pattern_ids(patterns);
    let j = choose|j: int| 0 <= j < patterns.len() && patterns[j].id == current;
    assert(ids[j] == current);
    lemma_unique_is_first(ids, j);
    lemma_first_index_unique(ids, current, j);
    let n = patterns.len() as int;
    let m = if j == 0 { n - 1 } else { j - 1 };
    let prev = patterns[m].id;
    assert(ids[m] == prev);
    lemma_unique_is_first(ids, m);
    lemma_first_index_unique(ids, prev, m);
    assert(has_pattern(patterns, prev));
    assert(first_pattern_index(patterns, prev) == m);
    if j == 0 {
        vstd::arithmetic::div_mod::lemma_mod_self_0(n);
    } else {
        vstd::arithmetic::div_mod::lemma_small_mod((m + 1) as nat, n as nat);
    }
    assert((m + 1) % n == j);
}

} // verus!
