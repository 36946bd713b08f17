//! Voice bookkeeping of the built-in synthesizers: the held-note stack of the
//! monophonic mode, voice choice for new notes and voice release on note-off.
//! The audio rendering of each voice happens elsewhere; these functions decide
//! which voice does what.

use vstd::prelude::*;

verus! {

/// Number of voices of the west-coast lead synthesizer (and size of its note stack).
pub const MAX_VOICES: usize = 8;

/// Notes held in monophonic mode, oldest first; the last one sounds.
/// Each note is held at most once, with the velocity it was pressed with.
pub struct NoteStack<V> {
    notes: Vec<(u8, V)>,
}

/// What removing a note from the stack did.
pub struct RemoveResult<V> {
    /// The removed note was the one sounding.
    pub was_top: bool,
    /// The note that sounds now, if any.
    pub new_top: Option<(u8, V)>,
}

/// Some entry of `notes` holds `note`.
pub open spec fn holds_note<V>(notes: Seq<(u8, V)>, note: u8) -> bool {
    exists|i: int| 0 <= i < notes.len() && notes[i].0 == note
}

/// No note occurs twice.
pub open spec fn notes_distinct<V>(notes: Seq<(u8, V)>) -> bool {
    forall|a: int, b: int| 0 <= a < notes.len() && 0 <= b < notes.len() && notes[a].0 == notes[b].0 ==> a == b
}

impl<V> NoteStack<V> {
    /// At most `MAX_VOICES` notes, none held twice.
    pub closed spec fn well_formed(&self) -> bool {
        &&& self.notes@.len() <= MAX_VOICES
        &&& notes_distinct(self.notes@)
    }

    /// The held notes, oldest first.
    pub closed spec fn view(&self) -> Seq<(u8, V)> {
        self.notes@
    }
}

impl<V: Copy> NoteStack<V> {
    /// An empty stack.
    pub fn new() -> (s: Self)
        ensures
            s.well_formed(),
            s.view() == Seq::<(u8, V)>::empty(),
    {
        NoteStack { notes: Vec::new() }
    }

    /// Whether `note` is held.
    pub fn contains(&self, note: u8) -> (r: bool)
        ensures
            r == holds_note(self.view(), note),
    {
        let mut i: usize = 0;
        while i < self.notes.len()
            invariant
                i <= self.notes@.len(),
                forall|j: int| 0 <= j < i ==> self.notes@[j].0 != note,
            decreases self.notes@.len() - i,
        {
            if self.notes[i].0 == note {
                return true;
            }
            i += 1;
        }
        false
    }

    /// Holds `note` with `velocity` on top of the stack, unless it is already
    /// held or the stack is full, in which cases nothing changes.
    pub fn push(&mut self, note: u8, velocity: V)
        requires
            old(self).well_formed(),
        ensures
            final(self).well_formed(),
            final(self).view() == if holds_note(old(self).view(), note) || old(self).view().len() >= MAX_VOICES {
                old(self).view()
            } else {
                old(self).view().push((note, velocity))
            },
    {
        if self.contains(note) {
            return;
        }
        if self.notes.len() < MAX_VOICES {
            self.notes.push((note, velocity));
            proof {
                assert forall|a: int, b: int|
                    0 <= a < self.notes@.len() && 0 <= b < self.notes@.len() && self.notes@[a].0 == self.notes@[b].0
                    implies a == b by {
                    if a < self.notes@.len() - 1 && b < self.notes@.len() - 1 {
                        assert(old(self).notes@[a] == self.notes@[a]);
                        assert(old(self).notes@[b] == self.notes@[b]);
                    } else if a < self.notes@.len() - 1 {
                        assert(old(self).notes@[a] == self.notes@[a]);
                    } else if b < self.notes@.len() - 1 {
                        assert(old(self).notes@[b] == self.notes@[b]);
                    }
                }
            }
        }
    }

    /// Releases `note`: removes it from the stack, keeping the order of the others,
    /// and reports whether it was the sounding note and which note sounds now.
    /// Gives `None`, changing nothing, when the note is not held.
    pub fn remove(&mut self, note: u8) -> (r: Option<RemoveResult<V>>)
        requires
            old(self).well_formed(),
        ensures
            final(self).well_formed(),
            !holds_note(old(self).view(), note) ==> r is None && final(self).view() == old(self).view(),
            forall|i: int|
                0 <= i < old(self).view().len() && #[trigger] old(self).view()[i].0 == note ==> {
                    let rest = old(self).view().remove(i);
                    &&& final(self).view() == rest
                    &&& r matches Some(res)
                    &&& res.was_top == (i == old(self).view().len() - 1)
                    &&& res.new_top == if rest.len() > 0 {
                        Some(rest.last())
                    } else {
                        None::<(u8, V)>
                    }
                },
    {
        let mut idx: usize = 0;
        while idx < self.notes.len()
            invariant
                self.notes@ == old(self).notes@,
                old(self).well_formed(),
                idx <= self.notes@.len(),
                forall|j: int| 0 <= j < idx ==> self.notes@[j].0 != note,
            decreases self.notes@.len() - idx,
        {
            if self.notes[idx].0 == note {
                let was_top = idx + 1 == self.notes.len();
                let ghost before = self.notes@;
                self.notes.remove(idx);
                proof {
                    assert forall|a: int, b: int|
                        0 <= a < self.notes@.len() && 0 <= b < self.notes@.len() && self.notes@[a].0 == self.notes@[b].0
                        implies a == b by {
                        let a2 = if a < idx { a } else { a + 1 };
                        let b2 = if b < idx { b } else { b + 1 };
                        assert(self.notes@[a] == before[a2]);
                        assert(self.notes@[b] == before[b2]);
                        assert(a2 == b2);
                    }
                    assert forall|i: int| 0 <= i < before.len() && #[trigger] before[i].0 == note implies i == idx by {}
                }
                let len = self.notes.len();
                let new_top = if len > 0 {
                    Some(self.notes[len - 1])
                } else {
                    None
                };
                return Some(RemoveResult { was_top, new_top });
            }
            idx += 1;
        }
        None
    }

    /// The sounding note: the most recently held one, if any.
    pub fn top(&self) -> (r: Option<(u8, V)>)
        ensures
            r == if self.view().len() > 0 {
                Some(self.view().last())
            } else {
                None::<(u8, V)>
            },
    {
        let len = self.notes.len();
        if len > 0 {
            Some(self.notes[len - 1])
        } else {
            None
        }
    }

    /// Releases every held note.
    pub fn clear(&mut self)
        ensures
            final(self).well_formed(),
            final(self).view() == Seq::<(u8, V)>::empty(),
    {
        self.notes.clear();
    }
}

/// What the synthesizer must do with one of its voices.
pub enum VoiceCommand<V> {
    /// Start `note` on `voice` from the beginning of its envelopes.
    Start { voice: usize, note: u8, velocity: V },
    /// Move the sounding `voice` to `note` without retriggering (legato).
    Glide { voice: usize, note: u8, velocity: V },
    /// Release `voice`.
    Release { voice: usize },
}

/// Note bookkeeping of the west-coast lead synthesizer: which note each voice
/// plays, when each voice started its note, a counter that stamps note starts,
/// and the stack of held notes used in monophonic mode.
pub struct VoiceBank<V> {
    pub voice_notes: Vec<Option<u8>>,
    pub voice_age: Vec<u64>,
    pub note_counter: u64,
    pub note_stack: NoteStack<V>,
}

/// The counter after one more note start (wrapping around at the top).
pub open spec fn next_counter(c: u64) -> u64 {
    if c == u64::MAX { 0 } else { (c + 1) as u64 }
}

/// The number of voices in use for a polyphony setting: between 1 and `MAX_VOICES`.
pub open spec fn voices_in_use(voices_allowed: usize) -> int {
    if voices_allowed < 1 {
        1
    } else if voices_allowed > MAX_VOICES {
        MAX_VOICES as int
    } else {
        voices_allowed as int
    }
}

impl<V: Copy> VoiceBank<V> {
    /// One entry per voice and a well-formed note stack.
    pub open spec fn well_formed(&self) -> bool {
        &&& self.voice_notes@.len() == MAX_VOICES
        &&& self.voice_age@.len() == MAX_VOICES
        &&& self.note_stack.well_formed()
    }

    /// All voices idle, all stamps 0, counter 0, no held note.
    pub fn new() -> (b: Self)
        ensures
            b.well_formed(),
            b.voice_notes@ == Seq::new(MAX_VOICES as nat, |i: int| None::<u8>),
            b.voice_age@ == Seq::new(MAX_VOICES as nat, |i: int| 0u64),
            b.note_counter == 0,
            b.note_stack.view() == Seq::<(u8, V)>::empty(),
    {
        let voice_notes: Vec<Option<u8>> = vec![None; MAX_VOICES];
        let voice_age: Vec<u64> = vec![0; MAX_VOICES];
        assert(voice_notes@ =~= Seq::new(MAX_VOICES as nat, |i: int| None::<u8>));
        assert(voice_age@ =~= Seq::new(MAX_VOICES as nat, |i: int| 0u64));
        VoiceBank { voice_notes, voice_age, note_counter: 0, note_stack: NoteStack::new() }
    }

    /// Handles a note-on. With at most one voice allowed the note is held on the
    /// stack and voice 0 plays it (gliding when that voice is sounding); otherwise
    /// the note goes to `choose_voice` among the allowed voices. The chosen voice
    /// records the note and the current stamp, and the stamp counter advances.
    /// `active` tells which voices are sounding.
    pub fn note_on(&mut self, note: u8, velocity: V, voices_allowed: usize, active: &[bool]) -> (cmd: VoiceCommand<V>)
        requires
            old(self).well_formed(),
            active@.len() == MAX_VOICES,
        ensures
            final(self).well_formed(),
            final(self).note_counter == next_counter(old(self).note_counter),
            voices_allowed <= 1 ==> {
                &&& final(self).note_stack.view() == if holds_note(old(self).note_stack.view(), note)
                    || old(self).note_stack.view().len() >= MAX_VOICES {
                    old(self).note_stack.view()
                } else {
                    old(self).note_stack.view().push((note, velocity))
                }
                &&& cmd == if active@[0] {
                    VoiceCommand::Glide { voice: 0, note, velocity }
                } else {
                    VoiceCommand::Start { voice: 0, note, velocity }
                }
                &&& final(self).voice_notes@ == old(self).voice_notes@.update(0, Some(note))
                &&& final(self).voice_age@ == old(self).voice_age@.update(0, old(self).note_counter)
            },
            voices_allowed > 1 ==> {
                let limit = if voices_allowed < MAX_VOICES { voices_allowed as int } else { MAX_VOICES as int };
                let v = chosen_voice(active@, old(self).voice_age@, limit);
                &&& cmd == (VoiceCommand::Start { voice: v as usize, note, velocity })
                &&& 0 <= v < MAX_VOICES
                &&& final(self).note_stack == old(self).note_stack
                &&& final(self).voice_notes@ == old(self).voice_notes@.update(v, Some(note))
                &&& final(self).voice_age@ == old(self).voice_age@.update(v, old(self).note_counter)
            },
    {
        let stamp = self.note_counter;
        let cmd = if voices_allowed <= 1 {
            self.note_stack.push(note, velocity);
            self.voice_notes.set(0, Some(note));
            self.voice_age.set(0, stamp);
            if active[0] {
                VoiceCommand::Glide { voice: 0, note, velocity }
            } else {
                VoiceCommand::Start { voice: 0, note, velocity }
            }
        } else {
            let voice = choose_voice(active, self.voice_age.as_slice(), voices_allowed);
            self.voice_notes.set(voice, Some(note));
            self.voice_age.set(voice, stamp);
            VoiceCommand::Start { voice, note, velocity }
        };
        self.note_counter = self.note_counter.wrapping_add(1);
        cmd
    }

    /// Handles a note-off. With at most one voice allowed the note leaves the stack;
    /// when it was the sounding note, voice 0 glides to the note now on top, or is
    /// released (and marked idle) when none is held. Otherwise every allowed voice
    /// playing the note is released and marked idle, in voice order.
    pub fn note_off(&mut self, note: u8, voices_allowed: usize) -> (cmds: Vec<VoiceCommand<V>>)
        requires
            old(self).well_formed(),
        ensures
            final(self).well_formed(),
            final(self).note_counter == old(self).note_counter,
            final(self).voice_age == old(self).voice_age,
            voices_allowed <= 1 ==> {
                let stack = old(self).note_stack.view();
                &&& !holds_note(stack, note) ==> cmds@.len() == 0 && final(self).note_stack.view() == stack
                    && final(self).voice_notes == old(self).voice_notes
                &&& forall|i: int|
                    0 <= i < stack.len() && #[trigger] stack[i].0 == note ==> {
                        let rest = stack.remove(i);
                        &&& final(self).note_stack.view() == rest
                        &&& if i != stack.len() - 1 {
                            cmds@.len() == 0 && final(self).voice_notes == old(self).voice_notes
                        } else if rest.len() > 0 {
                            &&& cmds@ == seq![VoiceCommand::Glide { voice: 0, note: rest.last().0, velocity: rest.last().1 }]
                            &&& final(self).voice_notes@ == old(self).voice_notes@.update(0, Some(rest.last().0))
                        } else {
                            &&& cmds@ == seq![VoiceCommand::<V>::Release { voice: 0 }]
                            &&& final(self).voice_notes@ == old(self).voice_notes@.update(0, None)
                        }
                    }
            },
            voices_allowed > 1 ==> {
                let limit = if voices_allowed < MAX_VOICES { voices_allowed as int } else { MAX_VOICES as int };
                let hit = voices_playing(old(self).voice_notes@, note, limit);
                &&& final(self).note_stack == old(self).note_stack
                &&& cmds@.len() == hit.len()
                &&& forall|k: int| 0 <= k < hit.len() ==> cmds@[k] == (VoiceCommand::<V>::Release { voice: hit[k] as usize })
                &&& final(self).voice_notes@.len() == MAX_VOICES
                &&& forall|j: int| 0 <= j < MAX_VOICES ==> final(self).voice_notes@[j] == if 0 <= j < limit
                    && old(self).voice_notes@[j] == Some(note) {
                    None
                } else {
                    old(self).voice_notes@[j]
                }
            },
    {
        let mut cmds: Vec<VoiceCommand<V>> = Vec::new();
        if voices_allowed <= 1 {
            if let Some(result) = self.note_stack.remove(note) {
                if result.was_top {
                    if let Some((prev_note, prev_velocity)) = result.new_top {
                        cmds.push(VoiceCommand::Glide { voice: 0, note: prev_note, velocity: prev_velocity });
                        self.voice_notes.set(0, Some(prev_note));
                    } else {
                        cmds.push(VoiceCommand::Release { voice: 0 });
                        self.voice_notes.set(0, None);
                    }
                }
            }
            return cmds;
        }
        let limit = if voices_allowed < self.voice_notes.len() { voices_allowed } else { self.voice_notes.len() };
        let hit = matching_voices(self.voice_notes.as_slice(), note, limit);
        let ghost before = self.voice_notes@;
        let mut k: usize = 0;
        while k < hit.len()
            invariant
                old(self).well_formed(),
                self.note_counter == old(self).note_counter,
                self.voice_age == old(self).voice_age,
                self.note_stack == old(self).note_stack,
                limit as int == (if voices_allowed < MAX_VOICES { voices_allowed as int } else { MAX_VOICES as int }),
                self.voice_notes@.len() == MAX_VOICES,
                hit@.map_values(|i: usize| i as int) == voices_playing(before, note, limit as int),
                k <= hit@.len(),
                cmds@.len() == k,
                forall|m: int| 0 <= m < k ==> cmds@[m] == (VoiceCommand::<V>::Release { voice: hit@[m] }),
                forall|j: int| 0 <= j < MAX_VOICES ==> self.voice_notes@[j] == if (exists|m: int| 0 <= m < k && hit@[m] == j) {
                    None
                } else {
                    before[j]
                },
            decreases hit@.len() - k,
        {
            let v = hit[k];
            proof {
                lemma_voices_playing_in_range(before, note, limit as int);
                assert(hit@.map_values(|i: usize| i as int)[k as int] == v as int);
            }
            cmds.push(VoiceCommand::Release { voice: v });
            self.voice_notes.set(v, None);
            k += 1;
        }
        proof {
            lemma_voices_playing_members(before, note, limit as int);
            assert forall|j: int| 0 <= j < MAX_VOICES implies self.voice_notes@[j] == if 0 <= j < limit && before[j] == Some(note) {
                None
            } else {
                before[j]
            } by {
                let hv = hit@.map_values(|i: usize| i as int);
                if exists|m: int| 0 <= m < hit@.len() && hit@[m] == j {
                    let m = choose|m: int| 0 <= m < hit@.len() && hit@[m] == j;
                    assert(hv[m] == j);
                } else if 0 <= j < limit && before[j] == Some(note) {
                    let m = choose|m: int| 0 <= m < hv.len() && hv[m] == j;
                    assert(hit@[m] == j);
                }
            }
        }
        cmds
    }

    /// Marks the voices from `voices_in_use(voices_allowed)` on as idle (the
    /// synthesizer silences those voices before rendering a block).
    pub fn retire_unused_voices(&mut self, voices_allowed: usize)
        requires
            old(self).well_formed(),
        ensures
            final(self).well_formed(),
            final(self).note_counter == old(self).note_counter,
            final(self).voice_age == old(self).voice_age,
            final(self).note_stack == old(self).note_stack,
            forall|j: int| 0 <= j < MAX_VOICES ==> final(self).voice_notes@[j] == if j < voices_in_use(voices_allowed) {
                old(self).voice_notes@[j]
            } else {
                None
            },
    {
        let allowed = if voices_allowed < MAX_VOICES { voices_allowed } else { MAX_VOICES };
        let first = if allowed < 1 { 1 } else { allowed };
        let mut idx = first;
        while idx < self.voice_notes.len()
            invariant
                old(self).well_formed(),
                self.note_counter == old(self).note_counter,
                self.voice_age == old(self).voice_age,
                self.note_stack == old(self).note_stack,
                first == voices_in_use(voices_allowed),
                first <= idx,
                self.voice_notes@.len() == MAX_VOICES,
                forall|j: int| 0 <= j < MAX_VOICES ==> self.voice_notes@[j] == if j < first || j >= idx {
                    old(self).voice_notes@[j]
                } else {
                    None
                },
            decreases MAX_VOICES - idx,
        {
            self.voice_notes.set(idx, None);
            idx += 1;
        }
    }
}

/// The voices found for a note are among the first `limit`.
pub proof fn lemma_voices_playing_in_range(notes: Seq<Option<u8>>, note: u8, limit: int)
    ensures
        forall|k: int| 0 <= k < voices_playing(notes, note, limit).len() ==> 0 <= #[trigger] voices_playing(notes, note, limit)[k] < limit,
    decreases limit,
{
    if limit > 0 {
        lemma_voices_playing_in_range(notes, note, limit - 1);
        let prev = voices_playing(notes, note, limit - 1);
        let cur = voices_playing(notes, note, limit);
        assert forall|k: int| 0 <= k < cur.len() implies 0 <= #[trigger] cur[k] < limit by {
            if k < prev.len() {
                assert(cur[k] == prev[k]);
            }
        }
    }
}

/// A voice among the first `limit` is found for a note exactly when it plays it.
pub proof fn lemma_voices_playing_members(notes: Seq<Option<u8>>, note: u8, limit: int)
    ensures
        forall|j: int| (exists|k: int| 0 <= k < voices_playing(notes, note, limit).len() && voices_playing(notes, note, limit)[k] == j)
            <==> (0 <= j < limit && #[trigger] notes[j] == Some(note)),
    decreases limit,
{
    if limit > 0 {
        lemma_voices_playing_members(notes, note, limit - 1);
        let prev = voices_playing(notes, note, limit - 1);
        let cur = voices_playing(notes, note, limit);
        assert forall|j: int| (exists|k: int| 0 <= k < cur.len() && cur[k] == j) <==> (0 <= j < limit && #[trigger] notes[j] == Some(note)) by {
            if notes[limit - 1] == Some(note) {
                if exists|k: int| 0 <= k < prev.len() && prev[k] == j {
                    let k = choose|k: int| 0 <= k < prev.len() && prev[k] == j;
                    assert(cur[k] == j);
                }
                if j == limit - 1 {
                    assert(cur[prev.len() as int] == j);
                }
                if exists|k: int| 0 <= k < cur.len() && cur[k] == j {
                    let k = choose|k: int| 0 <= k < cur.len() && cur[k] == j;
                    if k < prev.len() {
                        assert(prev[k] == j);
                    }
                }
            }
        }
    }
}

/// Holding a note that was not held and then releasing it gives back the stack
/// it started from.
pub proof fn law_push_then_remove<V>(notes: Seq<(u8, V)>, note: u8, velocity: V)
    requires
        !holds_note(notes, note),
    ensures
        forall|i: int|
            0 <= i < notes.push((note, velocity)).len() && #[trigger] notes.push((note, velocity))[i].0 == note
                ==> i == notes.len() && notes.push((note, velocity)).remove(i) == notes,
{
    let pushed = notes.push((note, velocity));
    assert forall|i: int| 0 <= i < pushed.len() && #[trigger] pushed[i].0 == note implies i == notes.len()
        && pushed.remove(i) == notes by {
        if i < notes.len() {
            assert(pushed[i] == notes[i]);
        }
        assert(pushed.remove(i) =~= notes);
    }
}

/// `i` is the first voice among the first `limit` whose flag is down.
pub open spec fn is_first_free(flags: Seq<bool>, limit: int, i: int) -> bool {
    &&& 0 <= i < limit
    &&& !flags[i]
    &&& forall|j: int| 0 <= j < i ==> flags[j]
}

/// `i` holds the lowest age stamp among the first `limit` voices, and no voice
/// before it holds the same.
pub open spec fn is_first_oldest(ages: Seq<u64>, limit: int, i: int) -> bool {
    &&& 0 <= i < limit
    &&& forall|j: int| 0 <= j < limit ==> ages[i] <= ages[j]
    &&& forall|j: int| 0 <= j < i ==> ages[j] > ages[i]
}

/// `i` holds the highest age among the first `limit` voices, and no voice before
/// it holds the same.
pub open spec fn is_first_longest(ages: Seq<u64>, limit: int, i: int) -> bool {
    &&& 0 <= i < limit
    &&& forall|j: int| 0 <= j < limit ==> ages[i] >= ages[j]
    &&& forall|j: int| 0 <= j < i ==> ages[j] < ages[i]
}

/// The voice a new note takes among the first `limit` voices: the first free one,
/// else the one that started its note longest ago (lowest age stamp, first on ties);
/// voice 0 when `limit` is 0.
pub open spec fn chosen_voice(active: Seq<bool>, ages: Seq<u64>, limit: int) -> int {
    if exists|i: int| is_first_free(active, limit, i) {
        choose|i: int| is_first_free(active, limit, i)
    } else if limit > 0 {
        choose|i: int| is_first_oldest(ages, limit, i)
    } else {
        0
    }
}

/// The voice the 808 takes for a new note among the first `limit` voices: the first
/// silent one, else the one sounding longest (highest age, first on ties); voice 0
/// when `limit` is 0.
pub open spec fn stolen_voice(is_on: Seq<bool>, ages: Seq<u64>, limit: int) -> int {
    if exists|i: int| is_first_free(is_on, limit, i) {
        choose|i: int| is_first_free(is_on, limit, i)
    } else if limit > 0 {
        choose|i: int| is_first_longest(ages, limit, i)
    } else {
        0
    }
}

/// Chooses the voice for a new note among the first `min(voices_allowed, voices)`
/// voices: the first inactive one, else the one with the oldest note (lowest age
/// stamp, the first of equals). `active` and `ages` describe the voices.
pub fn choose_voice(active: &[bool], ages: &[u64], voices_allowed: usize) -> (idx: usize)
    requires
        ages@.len() >= active@.len(),
    ensures
        idx == chosen_voice(active@, ages@, if voices_allowed < active@.len() { voices_allowed as int } else { active@.len() as int }),
        active@.len() > 0 && voices_allowed > 0 ==> idx < active@.len() && idx < voices_allowed,
{
    let limit = if voices_allowed < active.len() { voices_allowed } else { active.len() };
    let mut i: usize = 0;
    while i < limit
        invariant
            limit <= active@.len(),
            limit <= ages@.len(),
            limit as int == (if voices_allowed < active@.len() { voices_allowed as int } else { active@.len() as int }),
            i <= limit,
            forall|j: int| 0 <= j < i ==> active@[j],
        decreases limit - i,
    {
        if !active[i] {
            proof {
                assert(is_first_free(active@, limit as int, i as int));
                assert forall|k: int| is_first_free(active@, limit as int, k) implies k == i by {
                    if k < i {
                        assert(active@[k]);
                    }
                    if k > i {
                        assert(active@[i as int]);
                    }
                }
            }
            return i;
        }
        i += 1;
    }
    let mut oldest_age: u64 = u64::MAX;
    let mut oldest_index: usize = 0;
    let mut k: usize = 0;
    while k < limit
        invariant
            limit <= active@.len(),
            limit <= ages@.len(),
            limit as int == (if voices_allowed < active@.len() { voices_allowed as int } else { active@.len() as int }),
            k <= limit,
            oldest_index < limit || limit == 0,
            oldest_index == 0 || oldest_index < k,
            k > 0 ==> oldest_age == ages@[oldest_index as int],
            forall|j: int| 0 <= j < k ==> oldest_age <= ages@[j],
            forall|j: int| 0 <= j < oldest_index ==> ages@[j] > oldest_age,
            k == 0 ==> oldest_age == u64::MAX && oldest_index == 0,
        decreases limit - k,
    {
        if ages[k] < oldest_age {
            oldest_age = ages[k];
            oldest_index = k;
        }
        k += 1;
    }
    proof {
        assert(!exists|i: int| is_first_free(active@, limit as int, i));
        if limit > 0 {
            let o = oldest_index as int;
            assert(is_first_oldest(ages@, limit as int, o));
            assert forall|m: int| is_first_oldest(ages@, limit as int, m) implies m == o by {
                if m < o {
                    assert(ages@[m] > ages@[o]);
                    assert(ages@[o] <= ages@[m]);
                }
                if m > o {
                    assert(ages@[o] > ages@[m]);
                    assert(ages@[m] <= ages@[o]);
                }
            }
        }
    }
    oldest_index
}

/// Chooses the 808 voice for a new note among the first `voices_active` voices:
/// the first silent one, else the one that has sounded longest (highest age, the
/// first of equals). `is_on` and `ages` describe the voices.
pub fn steal_voice(is_on: &[bool], ages: &[u64], voices_active: usize) -> (idx: usize)
    requires
        voices_active <= is_on@.len(),
        voices_active <= ages@.len(),
    ensures
        idx == stolen_voice(is_on@, ages@, voices_active as int),
        voices_active > 0 ==> idx < voices_active,
{
    let mut i: usize = 0;
    while i < voices_active
        invariant
            voices_active <= is_on@.len(),
            i <= voices_active,
            forall|j: int| 0 <= j < i ==> is_on@[j],
        decreases voices_active - i,
    {
        if !is_on[i] {
            proof {
                assert(is_first_free(is_on@, voices_active as int, i as int));
                assert forall|k: int| is_first_free(is_on@, voices_active as int, k) implies k == i by {
                    if k < i {
                        assert(is_on@[k]);
                    }
                    if k > i {
                        assert(is_on@[i as int]);
                    }
                }
            }
            return i;
        }
        i += 1;
    }
    let mut best_i: usize = 0;
    let mut best_age: u64 = 0;
    let mut k: usize = 0;
    while k < voices_active
        invariant
            voices_active <= ages@.len(),
            k <= voices_active,
            best_i == 0 || best_i < k,
            best_i < voices_active || voices_active == 0,
            k > 0 ==> best_age >= ages@[best_i as int],
            best_age == 0 || best_age == ages@[best_i as int],
            forall|j: int| 0 <= j < k ==> best_age >= ages@[j],
            forall|j: int| 0 <= j < best_i ==> ages@[j] < best_age,
        decreases voices_active - k,
    {
        if ages[k] > best_age {
            best_age = ages[k];
            best_i = k;
        }
        k += 1;
    }
    proof {
        assert(!exists|i: int| is_first_free(is_on@, voices_active as int, i));
        if voices_active > 0 {
            let o = best_i as int;
            assert(best_age == ages@[o]);
            assert(is_first_longest(ages@, voices_active as int, o));
            assert forall|m: int| is_first_longest(ages@, voices_active as int, m) implies m == o by {
                if m < o {
                    assert(ages@[m] < ages@[o]);
                    assert(ages@[o] >= ages@[m]);
                }
                if m > o {
                    assert(ages@[o] < ages@[m]);
                    assert(ages@[m] <= ages@[o]);
                }
            }
        }
    }
    best_i
}

/// The positions, among the first `limit`, whose voice plays `note`, in increasing order.
pub open spec fn voices_playing(notes: Seq<Option<u8>>, note: u8, limit: int) -> Seq<int>
    decreases limit,
{
    if limit <= 0 {
        Seq::empty()
    } else {
        let prev = voices_playing(notes, note, limit - 1);
        if notes[limit - 1] == Some(note) {
            prev.push(limit - 1)
        } else {
            prev
        }
    }
}

/// The voices, among the first `limit`, that play `note` (in increasing order):
/// those a note-off or a choke for `note` acts on.
pub fn matching_voices(notes: &[Option<u8>], note: u8, limit: usize) -> (r: Vec<usize>)
    requires
        limit <= notes@.len(),
    ensures
        r@.map_values(|i: usize| i as int) == voices_playing(notes@, note, limit as int),
{
    let mut r: Vec<usize> = Vec::new();
    let mut i: usize = 0;
    while i < limit
        invariant
            limit <= notes@.len(),
            i <= limit,
            r@.map_values(|k: usize| k as int) == voices_playing(notes@, note, i as int),
        decreases limit - i,
    {
        if notes[i] == Some(note) {
            r.push(i);
            assert(r@.map_values(|k: usize| k as int) =~= voices_playing(notes@, note, i as int).push(i as int));
        }
        i += 1;
    }
    r
}

} // verus!
